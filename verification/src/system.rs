//! A channel as a whole: both ends, what they share, and what has happened.
//!
//! The two ends run at the same time. A [`System`] moves by one [`Event`] after
//! the other: an end begins something, or does the next atomic operation of
//! what it has begun. The operations of an end are those that the contracts of
//! the polls allow, and their results are those that the shared memory gives,
//! so the schedules of a system are the possible interleavings of the two ends:
//! see [`law_every_history_is_a_schedule`].
//!
//! [`law_every_history_is_a_schedule`]: crate::conduct::law_every_history_is_a_schedule
use crate::progress::{Fault, Progress};
use crate::receiving::{recv_step, RecvStage};
use crate::sending::{release_step, send_step, ItemState, ReleaseStage, SendStage};
use crate::shared::exchange::Parcel;
use crate::shared::journal::Op;
use std::task::Waker;
use vstd::prelude::*;

verus! {

/// What the sending end is doing.
pub enum SenderState<T> {
    /// There is a sender, and no send.
    Idle,
    /// There is a send that is not being polled. It is waiting where its last
    /// poll has reported [`Progress::Pending`]; that poll had this waker.
    Resting { item: ItemState<T>, waiting: Option<Waker> },
    /// A send is being polled, with this waker.
    Polling { stage: SendStage<T>, waker: Waker },
    /// A send is being given up.
    Releasing(ReleaseStage<T>),
    /// A send was to be given up, and could not have its parcel because the
    /// receiver is working with it.
    Yielded,
    /// The sender was dropped.
    Gone,
}

/// What the receiving end is doing.
pub enum ReceiverState<T> {
    /// The receiver is not being polled. It is waiting where its last poll has
    /// reported [`Progress::Pending`]; that poll had this waker.
    Resting { waiting: Option<Waker> },
    /// The receiver is being polled, with this waker.
    Polling { stage: RecvStage<T>, waker: Waker },
    /// The waker of the receiver is being withdrawn, because a future or the
    /// receiver itself is going away.
    Forgetting { locked: bool, leaving: bool },
    /// The receiver is being dropped and has withdrawn its waker. Its half of
    /// the joint is still there.
    Leaving,
    /// The receiver was dropped.
    Gone,
}

/// What has become of a send.
pub enum Fate<T> {
    /// It is under way.
    InFlight,
    /// It has reported success.
    Accepted,
    /// It has reported the error that holds this item.
    Returned(T),
    /// It was dropped, and this is what it got back.
    Cancelled(Option<T>),
    /// It was leaked.
    Leaked,
}

/// How far the dropping of the wakers has come, which wakes both tasks.
pub enum HangUp {
    /// It has not begun.
    Ahead,
    /// The sending task was woken.
    SenderTold,
    /// The receiving task was woken too.
    Over,
}

/// The place for the waker of a task, and what happened there. Wakers of the
/// same task are not told apart.
pub struct WakerState {
    /// The waker that is stored.
    pub stored: Option<Waker>,
    /// The wakers that were woken since the last poll of the task began, in
    /// order.
    pub woken: Seq<Waker>,
}

/// Both ends of a channel, what they share, and what has happened so far.
pub struct System<T> {
    /// What the exchange holds.
    pub slot: Option<Parcel<T>>,
    /// The waker of the sending task.
    pub sender_waker: WakerState,
    /// The waker of the receiving task.
    pub receiver_waker: WakerState,
    /// The dropping of the wakers.
    pub hang_up: HangUp,
    /// The sending end.
    pub sender: SenderState<T>,
    /// The receiving end.
    pub receiver: ReceiverState<T>,
    /// The items of all sends so far; the ticket of a send is its index.
    pub sends: Seq<T>,
    /// What has become of each send.
    pub fates: Seq<Fate<T>>,
    /// The tickets of the sends whose items the receiver has taken out of their
    /// parcels, in the order in which it did so.
    pub taken: Seq<u64>,
    /// The items that the receiver has handed out, in order.
    pub received: Seq<T>,
    /// The fault that a poll has reported.
    pub fault: Option<Fault>,
}

/// What can happen next.
///
/// An operation on the place of a waker finds the place busy where the other
/// end is waking the task at this moment.
pub enum Event<T> {
    /// The owner of the sender starts a send.
    Send(T),
    /// The owner of the send polls it, with this waker.
    BeginPoll(Waker),
    /// The owner of the send drops it.
    BeginRelease,
    /// A send that could not be given up at once goes away all the same.
    Vanish,
    /// The owner of the send leaks it.
    Leak,
    /// The owner of the sender drops it: its half of the joint is dropped.
    DropSender,
    /// The sending end does its next operation.
    SenderOp { op: Op<T>, busy: bool },
    /// The owner of the receiver polls it, with this waker.
    BeginRecv(Waker),
    /// The owner of the receiver drops a future, or the receiver itself.
    BeginForget { leaving: bool },
    /// The receiving end does its next operation.
    ReceiverOp { op: Op<T>, busy: bool },
    /// The receiver's half of the joint is dropped.
    DropReceiver,
    /// The owner of the receiver asks whether the sender is there, and this is
    /// the answer.
    Ask { present: bool },
    /// The wakers are being dropped, because one end is gone and the other one
    /// does not keep them alive: the next task is woken.
    HangUp,
}

impl<T> Event<T> {
    /// The sending end does this.
    pub open spec fn of_sender(self) -> bool {
        match self {
            Event::Send(_) => true,
            Event::BeginPoll(_) => true,
            Event::BeginRelease => true,
            Event::Vanish => true,
            Event::Leak => true,
            Event::DropSender => true,
            Event::SenderOp { op: _, busy: _ } => true,
            _ => false,
        }
    }

    /// The receiving end does this.
    pub open spec fn of_receiver(self) -> bool {
        !self.of_sender() && !(self is HangUp)
    }
}

impl<T> SenderState<T> {
    /// The waker of a send that has reported that it waits, and that has not
    /// been polled since.
    pub open spec fn waiting(self) -> Option<Waker> {
        match self {
            SenderState::Resting { item: _, waiting } => waiting,
            _ => None,
        }
    }

    /// How far the poll of the send has come.
    pub open spec fn stage(self) -> Option<SendStage<T>> {
        match self {
            SenderState::Polling { stage, waker: _ } => Some(stage),
            _ => None,
        }
    }

    /// The sending end is waking the receiving task.
    pub open spec fn waking(self) -> bool {
        self.stage() matches Some(stage) && stage is Notifying
    }

    /// The sending end keeps the wakers alive.
    pub open spec fn locked(self) -> bool {
        match self {
            SenderState::Polling { stage, waker: _ } => match stage {
                SendStage::Looking { connected } => connected,
                SendStage::Registering(_) => true,
                SendStage::Publishing(_) => true,
                SendStage::Notifying => true,
                _ => false,
            },
            SenderState::Releasing(ReleaseStage::Withdrawing) => true,
            SenderState::Releasing(ReleaseStage::Reclaiming { connected }) => connected,
            _ => false,
        }
    }
}

impl<T> ReceiverState<T> {
    /// The waker of a receiver that has reported that it waits, and that has
    /// not been polled since.
    pub open spec fn waiting(self) -> Option<Waker> {
        match self {
            ReceiverState::Resting { waiting } => waiting,
            _ => None,
        }
    }

    /// How far the poll of the receiver has come.
    pub open spec fn stage(self) -> Option<RecvStage<T>> {
        match self {
            ReceiverState::Polling { stage, waker: _ } => Some(stage),
            _ => None,
        }
    }

    /// The receiving end is waking the sending task.
    pub open spec fn waking(self) -> bool {
        self.stage() matches Some(stage) && stage is Waking
    }

    /// The receiving end keeps the wakers alive.
    pub open spec fn locked(self) -> bool {
        match self {
            ReceiverState::Polling { stage, waker: _ } => !(stage is Start),
            ReceiverState::Forgetting { locked, leaving: _ } => locked,
            _ => false,
        }
    }
}

impl WakerState {
    /// A place in which nothing was ever stored.
    pub open spec fn empty() -> WakerState {
        WakerState { stored: None, woken: Seq::empty() }
    }

    /// The task is polled: it wants to know what happens from now on.
    pub open spec fn polled(self) -> WakerState {
        WakerState { woken: Seq::empty(), ..self }
    }

    /// A waker takes the place of the one that was stored. Where the place is
    /// busy the new one is woken at once, and not stored.
    pub open spec fn register(self, waker: Waker, busy: bool) -> WakerState {
        if busy {
            WakerState { woken: self.woken.push(waker), ..self }
        } else {
            WakerState { stored: Some(waker), ..self }
        }
    }

    /// A stored waker is used up when the task is woken.
    pub open spec fn wake(self) -> WakerState {
        match self.stored {
            Some(waker) => WakerState { stored: None, woken: self.woken.push(waker) },
            None => self,
        }
    }

    /// The stored waker is withdrawn. Where the place is busy, it is not.
    pub open spec fn take(self, busy: bool) -> WakerState {
        if busy {
            self
        } else {
            WakerState { stored: None, ..self }
        }
    }
}

impl<T> System<T> {
    /// A channel that was made just now.
    pub open spec fn initial() -> System<T> {
        System {
            slot: None,
            sender_waker: WakerState::empty(),
            receiver_waker: WakerState::empty(),
            hang_up: HangUp::Ahead,
            sender: SenderState::Idle,
            receiver: ReceiverState::Resting { waiting: None },
            sends: Seq::empty(),
            fates: Seq::empty(),
            taken: Seq::empty(),
            received: Seq::empty(),
            fault: None,
        }
    }

    /// The ticket of the last send.
    pub open spec fn ticket(self) -> u64 {
        (self.sends.len() - 1) as u64
    }

    /// What the last send has come to.
    pub open spec fn with_fate(self, fate: Fate<T>) -> System<T> {
        System { fates: self.fates.update(self.sends.len() - 1, fate), ..self }
    }

    /// One end is gone, and the other one does not keep the wakers alive.
    pub open spec fn abandoned(self) -> bool {
        (self.sender is Gone || self.receiver is Gone) && !self.sender.locked()
            && !self.receiver.locked()
    }

    /// What an operation does to what the ends share, where the other end of
    /// the one that does it exists or not; `None` where the result of the
    /// operation is not what it gives in this state. Only an operation on a
    /// place whose task the other end is waking can find the place busy.
    pub open spec fn perform(self, partner: bool, op: Op<T>, busy: bool) -> Option<System<T>> {
        match op {
            Op::Lock { connected } => if connected == partner && !busy {
                Some(self)
            } else {
                None
            },
            Op::Visit { before, after } => if before == self.slot && !busy {
                Some(System { slot: after, ..self })
            } else {
                None
            },
            Op::RegisterSender(waker) => if busy ==> self.receiver.waking() {
                Some(System { sender_waker: self.sender_waker.register(waker, busy), ..self })
            } else {
                None
            },
            Op::WakeSender => if !busy {
                Some(System { sender_waker: self.sender_waker.wake(), ..self })
            } else {
                None
            },
            Op::TakeSenderWaker => if busy ==> self.receiver.waking() {
                Some(System { sender_waker: self.sender_waker.take(busy), ..self })
            } else {
                None
            },
            Op::RegisterReceiver(waker) => if busy ==> self.sender.waking() {
                Some(System { receiver_waker: self.receiver_waker.register(waker, busy), ..self })
            } else {
                None
            },
            Op::WakeReceiver => if !busy {
                Some(System { receiver_waker: self.receiver_waker.wake(), ..self })
            } else {
                None
            },
            Op::TakeReceiverWaker => if busy ==> self.sender.waking() {
                Some(System { receiver_waker: self.receiver_waker.take(busy), ..self })
            } else {
                None
            },
        }
    }

    /// The poll of a send with this waker has reached this stage.
    pub open spec fn send_reached(self, stage: SendStage<T>, waker: Waker) -> System<T> {
        match stage {
            SendStage::Done(item, progress) => {
                let waiting = if progress is Pending {
                    Some(waker)
                } else {
                    None
                };
                let resting = System { sender: SenderState::Resting { item, waiting }, ..self };
                match progress {
                    Progress::Ready(Ok(_)) => resting.with_fate(Fate::Accepted),
                    Progress::Ready(Err(error)) => resting.with_fate(Fate::Returned(error.0)),
                    Progress::Fault(fault) => System { fault: Some(fault), ..resting },
                    _ => resting,
                }
            },
            _ => System { sender: SenderState::Polling { stage, waker }, ..self },
        }
    }

    /// The giving up of a send has reached this stage.
    pub open spec fn release_reached(self, stage: ReleaseStage<T>) -> System<T> {
        match stage {
            ReleaseStage::Done(_, progress) => match progress {
                Progress::Ready(back) => {
                    System { sender: SenderState::Idle, ..self }.with_fate(Fate::Cancelled(back))
                },
                Progress::Fault(fault) => System {
                    fault: Some(fault),
                    sender: SenderState::Yielded,
                    ..self
                },
                _ => System { sender: SenderState::Yielded, ..self },
            },
            _ => System { sender: SenderState::Releasing(stage), ..self },
        }
    }

    /// The receiver takes a parcel out of the slot, with this operation at this
    /// stage.
    pub open spec fn counted(self, stage: RecvStage<T>, op: Op<T>) -> System<T> {
        match (stage, op) {
            (
                RecvStage::Detaching { last: _ },
                Op::Visit { before: Some(parcel), after: _ },
            ) => if parcel.item is Some {
                System { taken: self.taken.push(parcel.ticket), ..self }
            } else {
                self
            },
            _ => self,
        }
    }

    /// The poll of the receiver with this waker has reached this stage.
    pub open spec fn recv_reached(self, stage: RecvStage<T>, waker: Waker) -> System<T> {
        match stage {
            RecvStage::Done(progress) => {
                let waiting = if progress is Pending {
                    Some(waker)
                } else {
                    None
                };
                let resting = System { receiver: ReceiverState::Resting { waiting }, ..self };
                match progress {
                    Progress::Ready(Some(item)) => System {
                        received: self.received.push(item),
                        ..resting
                    },
                    Progress::Fault(fault) => System { fault: Some(fault), ..resting },
                    _ => resting,
                }
            },
            _ => System { receiver: ReceiverState::Polling { stage, waker }, ..self },
        }
    }

    /// The sending end does this operation; `None` where it does another one,
    /// or none.
    pub open spec fn sender_op(self, op: Op<T>, busy: bool) -> Option<System<T>> {
        match (self.sender, self.perform(!(self.receiver is Gone), op, busy)) {
            (SenderState::Polling { stage, waker }, Some(after)) => match send_step(
                stage,
                self.ticket(),
                waker,
                op,
            ) {
                Some(reached) => Some(after.send_reached(reached, waker)),
                None => None,
            },
            (SenderState::Releasing(stage), Some(after)) => match release_step(
                stage,
                self.ticket(),
                op,
            ) {
                Some(reached) => Some(after.release_reached(reached)),
                None => None,
            },
            _ => None,
        }
    }

    /// The receiving end does this operation; `None` where it does another one,
    /// or none.
    pub open spec fn receiver_op(self, op: Op<T>, busy: bool) -> Option<System<T>> {
        match (self.receiver, self.perform(!(self.sender is Gone), op, busy)) {
            (ReceiverState::Polling { stage, waker }, Some(after)) => match recv_step(
                stage,
                waker,
                op,
            ) {
                Some(reached) => Some(after.counted(stage, op).recv_reached(reached, waker)),
                None => None,
            },
            (ReceiverState::Forgetting { locked, leaving }, Some(after)) => match (locked, op) {
                (false, Op::Lock { connected: true }) => Some(
                    System {
                        receiver: ReceiverState::Forgetting { locked: true, leaving },
                        ..after
                    },
                ),
                (false, Op::Lock { connected: false }) | (true, Op::TakeReceiverWaker) => Some(
                    System {
                        receiver: if leaving {
                            ReceiverState::Leaving
                        } else {
                            ReceiverState::Resting { waiting: None }
                        },
                        ..after
                    },
                ),
                _ => None,
            },
            _ => None,
        }
    }

    /// The system after the event; `None` where the event cannot happen. A send
    /// that has reported its outcome is not polled again, and a sender makes no
    /// more sends than there are tickets.
    pub open spec fn next(self, event: Event<T>) -> Option<System<T>> {
        match (event, self.sender, self.receiver) {
            (Event::Send(item), SenderState::Idle, _) => if self.sends.len() < u64::MAX {
                Some(
                    System {
                        sender: SenderState::Resting {
                            item: ItemState::Held(item),
                            waiting: None,
                        },
                        sends: self.sends.push(item),
                        fates: self.fates.push(Fate::InFlight),
                        ..self
                    },
                )
            } else {
                None
            },
            (Event::BeginPoll(waker), SenderState::Resting { item, waiting: _ }, _) => {
                if item is Finished {
                    None
                } else {
                    Some(
                        System {
                            sender: SenderState::Polling { stage: SendStage::Start(item), waker },
                            sender_waker: self.sender_waker.polled(),
                            ..self
                        },
                    )
                }
            },
            (Event::BeginRelease, SenderState::Resting { item, waiting: _ }, _) => Some(
                match item {
                    ItemState::Held(item) => System { sender: SenderState::Idle, ..self }.with_fate(
                        Fate::Cancelled(Some(item)),
                    ),
                    ItemState::Lent => System {
                        sender: SenderState::Releasing(ReleaseStage::Start(item)),
                        ..self
                    },
                    ItemState::Finished => System { sender: SenderState::Idle, ..self },
                },
            ),
            (Event::Leak, SenderState::Resting { item, waiting: _ }, _) => Some(
                if item is Finished {
                    System { sender: SenderState::Idle, ..self }
                } else {
                    System { sender: SenderState::Idle, ..self }.with_fate(Fate::Leaked)
                },
            ),
            (Event::BeginPoll(waker), SenderState::Yielded, _) => Some(
                System {
                    sender: SenderState::Polling {
                        stage: SendStage::Start(ItemState::Lent),
                        waker,
                    },
                    sender_waker: self.sender_waker.polled(),
                    ..self
                },
            ),
            (Event::BeginRelease, SenderState::Yielded, _) => Some(
                System {
                    sender: SenderState::Releasing(ReleaseStage::Start(ItemState::Lent)),
                    ..self
                },
            ),
            (Event::Vanish, SenderState::Yielded, _) => Some(
                System { sender: SenderState::Idle, ..self }.with_fate(Fate::Cancelled(None)),
            ),
            (Event::Leak, SenderState::Yielded, _) => Some(
                System { sender: SenderState::Idle, ..self }.with_fate(Fate::Leaked),
            ),
            (Event::DropSender, SenderState::Idle, _) => Some(
                System { sender: SenderState::Gone, ..self },
            ),
            (Event::SenderOp { op, busy }, _, _) => self.sender_op(op, busy),
            (Event::BeginRecv(waker), _, ReceiverState::Resting { waiting: _ }) => Some(
                System {
                    receiver: ReceiverState::Polling { stage: RecvStage::Start, waker },
                    receiver_waker: self.receiver_waker.polled(),
                    ..self
                },
            ),
            (Event::BeginForget { leaving }, _, ReceiverState::Resting { waiting: _ }) => Some(
                System {
                    receiver: ReceiverState::Forgetting { locked: false, leaving },
                    ..self
                },
            ),
            (Event::ReceiverOp { op, busy }, _, _) => self.receiver_op(op, busy),
            (Event::DropReceiver, _, ReceiverState::Leaving) => Some(
                System { receiver: ReceiverState::Gone, ..self },
            ),
            (Event::Ask { present }, _, ReceiverState::Resting { waiting: _ }) => if present == !(
            self.sender is Gone) {
                Some(self)
            } else {
                None
            },
            (Event::HangUp, _, _) => match self.hang_up {
                HangUp::Ahead => if self.abandoned() {
                    Some(
                        System {
                            hang_up: HangUp::SenderTold,
                            sender_waker: self.sender_waker.wake(),
                            ..self
                        },
                    )
                } else {
                    None
                },
                HangUp::SenderTold => Some(
                    System {
                        hang_up: HangUp::Over,
                        receiver_waker: self.receiver_waker.wake(),
                        ..self
                    },
                ),
                HangUp::Over => None,
            },
            _ => None,
        }
    }

    /// The system after a schedule; `None` where the schedule is not possible.
    pub open spec fn run(self, schedule: Seq<Event<T>>) -> Option<System<T>>
        decreases schedule.len(),
    {
        if schedule.len() == 0 {
            Some(self)
        } else {
            match self.run(schedule.drop_last()) {
                Some(before) => before.next(schedule.last()),
                None => None,
            }
        }
    }

    /// Some schedule leads from this state to the other one.
    pub open spec fn leads_to(self, later: System<T>) -> bool {
        exists|schedule: Seq<Event<T>>| #[trigger] self.run(schedule) == Some(later)
    }

    /// Some schedule leads here from the making of the channel.
    pub open spec fn reachable(self) -> bool {
        System::initial().leads_to(self)
    }
}

} // verus!

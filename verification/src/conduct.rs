//! How the calls of the two ends appear in a schedule.
//!
//! A poll does the operations that its contract allows while the other end does
//! what it likes. In the schedule of the channel its operations stand in their
//! order, with those of the other end in between. Here it is shown that what
//! the contract of the poll says of its result is what the system arrives at,
//! so that the laws of the system are laws of the polls.
use crate::progress::{Progress, SendError};
use crate::receiving::{forgetting, lemma_recv_ran_push, recv_ran, recv_step, RecvStage};
use crate::sending::{
    lemma_release_ran_push, lemma_send_ran_push, release_ran, release_step, send_ran, send_step,
    ItemState, ReleaseStage, SendStage,
};
use crate::shared::exchange::Parcel;
use crate::shared::journal::Op;
use crate::soundness::{lemma_leads_on, lemma_push_contains, lemma_run};
use crate::system::{Event, Fate, HangUp, ReceiverState, SenderState, System};
use std::task::Waker;
use vstd::prelude::*;

verus! {

/// The operations of the sending end in a schedule, in order.
pub open spec fn sender_ops<T>(schedule: Seq<Event<T>>) -> Seq<Op<T>>
    decreases schedule.len(),
{
    if schedule.len() == 0 {
        Seq::empty()
    } else {
        match schedule.last() {
            Event::SenderOp { op, busy: _ } => sender_ops(schedule.drop_last()).push(op),
            _ => sender_ops(schedule.drop_last()),
        }
    }
}

/// The operations of the receiving end in a schedule, in order.
pub open spec fn receiver_ops<T>(schedule: Seq<Event<T>>) -> Seq<Op<T>>
    decreases schedule.len(),
{
    if schedule.len() == 0 {
        Seq::empty()
    } else {
        match schedule.last() {
            Event::ReceiverOp { op, busy: _ } => receiver_ops(schedule.drop_last()).push(op),
            _ => receiver_ops(schedule.drop_last()),
        }
    }
}

/// The sending end begins nothing in the schedule: it only goes on.
pub open spec fn sender_goes_on<T>(schedule: Seq<Event<T>>) -> bool {
    forall|i: int|
        0 <= i < schedule.len() && (#[trigger] schedule[i]).of_sender()
            ==> schedule[i] is SenderOp
}

/// The receiving end begins nothing in the schedule: it only goes on.
pub open spec fn receiver_goes_on<T>(schedule: Seq<Event<T>>) -> bool {
    forall|i: int|
        0 <= i < schedule.len() && (#[trigger] schedule[i]).of_receiver()
            ==> schedule[i] is ReceiverOp
}

/// Only the sending end does something in the schedule.
pub open spec fn sender_alone<T>(schedule: Seq<Event<T>>) -> bool {
    forall|i: int| 0 <= i < schedule.len() ==> #[trigger] schedule[i] is SenderOp
}

/// Only the receiving end does something in the schedule.
pub open spec fn receiver_alone<T>(schedule: Seq<Event<T>>) -> bool {
    forall|i: int| 0 <= i < schedule.len() ==> #[trigger] schedule[i] is ReceiverOp
}

/// A poll of a send begins in state `s`, with this waker, where the item is as
/// the send knows. Until state `t` its operations are done, with those of the
/// receiving end in between as the schedule says. By the contract of the poll,
/// the item is now as it says, and the poll reports this.
pub open spec fn send_happens<T>(
    s: System<T>,
    waker: Waker,
    schedule: Seq<Event<T>>,
    t: System<T>,
    after: ItemState<T>,
    progress: Progress<Result<(), SendError<T>>>,
) -> bool {
    &&& s.sender matches SenderState::Polling { stage: SendStage::Start(before), waker: given }
    &&& given == waker
    &&& sender_goes_on(schedule)
    &&& s.run(schedule) == Some(t)
    &&& send_ran(SendStage::Start(before), s.ticket(), waker, sender_ops(schedule)) == Some(
        SendStage::Done(after, progress),
    )
}

/// A poll of the receiver begins in state `s`, with this waker. Until state `t`
/// its operations are done, with those of the sending end in between as the
/// schedule says. By the contract of the poll, it reports this.
pub open spec fn receive_happens<T>(
    s: System<T>,
    waker: Waker,
    schedule: Seq<Event<T>>,
    t: System<T>,
    progress: Progress<Option<T>>,
) -> bool {
    &&& s.receiver == ReceiverState::<T>::Polling { stage: RecvStage::Start, waker }
    &&& receiver_goes_on(schedule)
    &&& s.run(schedule) == Some(t)
    &&& recv_ran(RecvStage::Start, waker, receiver_ops(schedule)) == Some(
        RecvStage::Done(progress),
    )
}

/// A send whose parcel is lent is given up from state `s` on. Until state `t`
/// its operations are done, with those of the receiving end in between as the
/// schedule says. By the contract of the giving up, it reports this.
pub open spec fn release_happens<T>(
    s: System<T>,
    schedule: Seq<Event<T>>,
    t: System<T>,
    after: ItemState<T>,
    progress: Progress<Option<T>>,
) -> bool {
    &&& s.sender == SenderState::<T>::Releasing(ReleaseStage::Start(ItemState::Lent))
    &&& sender_goes_on(schedule)
    &&& s.run(schedule) == Some(t)
    &&& release_ran(ReleaseStage::Start(ItemState::Lent), s.ticket(), sender_ops(schedule)) == Some(
        ReleaseStage::Done(after, progress),
    )
}

/// The receiver begins to withdraw its waker in state `s`, to leave or not. Until
/// state `t` its operations are done, with those of the sending end in between as
/// the schedule says.
pub open spec fn forget_happens<T>(
    s: System<T>,
    leaving: bool,
    schedule: Seq<Event<T>>,
    t: System<T>,
) -> bool {
    &&& s.receiver == (ReceiverState::<T>::Forgetting { locked: false, leaving })
    &&& receiver_goes_on(schedule)
    &&& s.run(schedule) == Some(t)
    &&& exists|connected: bool| receiver_ops(schedule) == #[trigger] forgetting::<T>(connected)
}

/// What the sending end is doing after the event, by the contracts of a send and
/// its owner, where there were so many sends; `None` where the event is not one
/// that they allow. What the receiving end does is no matter.
pub open spec fn sender_next<T>(state: SenderState<T>, sends: nat, event: Event<T>) -> Option<
    SenderState<T>,
> {
    let ticket = (sends - 1) as u64;
    match (event, state) {
        (Event::Send(item), SenderState::Idle) => if sends < u64::MAX {
            Some(SenderState::Resting { item: ItemState::Held(item), waiting: None })
        } else {
            None
        },
        (Event::BeginPoll(waker), SenderState::Resting { item, waiting: _ }) => {
            if item is Finished {
                None
            } else {
                Some(SenderState::Polling { stage: SendStage::Start(item), waker })
            }
        },
        (Event::BeginRelease, SenderState::Resting { item, waiting: _ }) => Some(
            if item is Lent {
                SenderState::Releasing(ReleaseStage::Start(item))
            } else {
                SenderState::Idle
            },
        ),
        (Event::Leak, SenderState::Resting { item: _, waiting: _ }) => Some(SenderState::Idle),
        (Event::BeginPoll(waker), SenderState::Yielded) => Some(
            SenderState::Polling { stage: SendStage::Start(ItemState::Lent), waker },
        ),
        (Event::BeginRelease, SenderState::Yielded) => Some(
            SenderState::Releasing(ReleaseStage::Start(ItemState::Lent)),
        ),
        (Event::Vanish, SenderState::Yielded) => Some(SenderState::Idle),
        (Event::Leak, SenderState::Yielded) => Some(SenderState::Idle),
        (Event::DropSender, SenderState::Idle) => Some(SenderState::Gone),
        (Event::SenderOp { op, busy: _ }, SenderState::Polling { stage, waker }) => match send_step(
            stage,
            ticket,
            waker,
            op,
        ) {
            Some(SendStage::Done(item, progress)) => Some(
                SenderState::Resting {
                    item,
                    waiting: if progress is Pending {
                        Some(waker)
                    } else {
                        None
                    },
                },
            ),
            Some(stage) => Some(SenderState::Polling { stage, waker }),
            None => None,
        },
        (Event::SenderOp { op, busy: _ }, SenderState::Releasing(stage)) => match release_step(
            stage,
            ticket,
            op,
        ) {
            Some(ReleaseStage::Done(_, progress)) => Some(
                if progress is Ready {
                    SenderState::Idle
                } else {
                    SenderState::Yielded
                },
            ),
            Some(stage) => Some(SenderState::Releasing(stage)),
            None => None,
        },
        _ => if event.of_sender() {
            None
        } else {
            Some(state)
        },
    }
}

/// What the receiving end is doing after the event, by the contracts of the
/// receiver and its owner; `None` where the event is not one that they allow.
/// What the sending end does is no matter.
pub open spec fn receiver_next<T>(state: ReceiverState<T>, event: Event<T>) -> Option<
    ReceiverState<T>,
> {
    match (event, state) {
        (Event::BeginRecv(waker), ReceiverState::Resting { waiting: _ }) => Some(
            ReceiverState::Polling { stage: RecvStage::Start, waker },
        ),
        (Event::BeginForget { leaving }, ReceiverState::Resting { waiting: _ }) => Some(
            ReceiverState::Forgetting { locked: false, leaving },
        ),
        (
            Event::ReceiverOp { op, busy: _ },
            ReceiverState::Polling { stage, waker },
        ) => match recv_step(stage, waker, op) {
            Some(RecvStage::Done(progress)) => Some(
                ReceiverState::Resting {
                    waiting: if progress is Pending {
                        Some(waker)
                    } else {
                        None
                    },
                },
            ),
            Some(stage) => Some(ReceiverState::Polling { stage, waker }),
            None => None,
        },
        (Event::ReceiverOp { op, busy: _ }, ReceiverState::Forgetting { locked, leaving }) => {
            let over = if leaving {
                ReceiverState::Leaving
            } else {
                ReceiverState::Resting { waiting: None }
            };
            match (locked, op) {
                (false, Op::Lock { connected: true }) => Some(
                    ReceiverState::Forgetting { locked: true, leaving },
                ),
                (false, Op::Lock { connected: false }) => Some(over),
                (true, Op::TakeReceiverWaker) => Some(over),
                _ => None,
            }
        },
        (Event::DropReceiver, ReceiverState::Leaving) => Some(ReceiverState::Gone),
        (Event::Ask { present: _ }, ReceiverState::Resting { waiting: _ }) => Some(state),
        _ => if event.of_receiver() {
            None
        } else {
            Some(state)
        },
    }
}

/// What the two ends of a channel are doing, what is in the slot, and what has
/// become of the wakers.
pub struct Ends<T> {
    /// The sending end.
    pub sender: SenderState<T>,
    /// How many sends there were.
    pub sends: nat,
    /// The receiving end.
    pub receiver: ReceiverState<T>,
    /// What the exchange holds.
    pub slot: Option<Parcel<T>>,
    /// The dropping of the wakers.
    pub hang_up: HangUp,
}

impl<T> Ends<T> {
    /// The shared memory gives the result that the event has: a visit finds what
    /// the visit before it has left, the other end is there until its half of
    /// the joint is dropped, a place is busy only while its task is being woken,
    /// and the wakers are dropped, once, after one end is gone and the other one
    /// does not keep them alive.
    pub open spec fn memory_gives(self, event: Event<T>) -> bool {
        match event {
            Event::SenderOp { op, busy } => match op {
                Op::Lock { connected } => connected == !(self.receiver is Gone) && !busy,
                Op::Visit { before, after: _ } => before == self.slot && !busy,
                Op::RegisterSender(_) => busy ==> self.receiver.waking(),
                Op::TakeSenderWaker => busy ==> self.receiver.waking(),
                _ => !busy,
            },
            Event::ReceiverOp { op, busy } => match op {
                Op::Lock { connected } => connected == !(self.sender is Gone) && !busy,
                Op::Visit { before, after: _ } => before == self.slot && !busy,
                Op::RegisterReceiver(_) => busy ==> self.sender.waking(),
                Op::TakeReceiverWaker => busy ==> self.sender.waking(),
                _ => !busy,
            },
            Event::Ask { present } => present == !(self.sender is Gone),
            Event::HangUp => match self.hang_up {
                HangUp::Ahead => (self.sender is Gone || self.receiver is Gone)
                    && !self.sender.locked() && !self.receiver.locked(),
                HangUp::SenderTold => true,
                HangUp::Over => false,
            },
            _ => true,
        }
    }

    /// The ends after the event; `None` where it does not fit the contracts of
    /// an end, or the shared memory does not give its result.
    pub open spec fn next(self, event: Event<T>) -> Option<Ends<T>> {
        match (
            sender_next(self.sender, self.sends, event),
            receiver_next(self.receiver, event),
        ) {
            (Some(sender), Some(receiver)) => if self.memory_gives(event) {
                Some(
                    Ends {
                        sender,
                        sends: if event is Send {
                            self.sends + 1
                        } else {
                            self.sends
                        },
                        receiver,
                        slot: match event {
                            Event::SenderOp { op: Op::Visit { before: _, after }, busy: _ }
                            | Event::ReceiverOp { op: Op::Visit { before: _, after }, busy: _ } => {
                                after
                            },
                            _ => self.slot,
                        },
                        hang_up: match (event, self.hang_up) {
                            (Event::HangUp, HangUp::Ahead) => HangUp::SenderTold,
                            (Event::HangUp, _) => HangUp::Over,
                            _ => self.hang_up,
                        },
                    },
                )
            } else {
                None
            },
            _ => None,
        }
    }
}

/// The two ends of a channel after these events, as far as they follow their
/// contracts and the shared memory gives the results; `None` where not.
pub open spec fn history<T>(schedule: Seq<Event<T>>) -> Option<Ends<T>>
    decreases schedule.len(),
{
    if schedule.len() == 0 {
        Some(
            Ends {
                sender: SenderState::Idle,
                sends: 0,
                receiver: ReceiverState::Resting { waiting: None },
                slot: None,
                hang_up: HangUp::Ahead,
            },
        )
    } else {
        match history(schedule.drop_last()) {
            Some(before) => before.next(schedule.last()),
            None => None,
        }
    }
}

/// The ends that a system is about.
pub open spec fn ends<T>(s: System<T>) -> Ends<T> {
    Ends {
        sender: s.sender,
        sends: s.sends.len(),
        receiver: s.receiver,
        slot: s.slot,
        hang_up: s.hang_up,
    }
}

/// An event can happen in a system exactly where it can happen to its ends, and
/// leads to the same.
pub open spec fn agrees<T>(s: System<T>, event: Event<T>) -> bool {
    match (s.next(event), ends(s).next(event)) {
        (Some(t), Some(after)) => after == ends(t),
        (None, None) => true,
        _ => false,
    }
}

/// The system agrees with its ends on the operations of the sending end.
proof fn lemma_sender_op_agrees<T>(s: System<T>, op: Op<T>, busy: bool)
    ensures
        agrees(s, Event::SenderOp { op, busy }),
{
}

/// The system agrees with its ends on the operations of the receiving end.
proof fn lemma_receiver_op_agrees<T>(s: System<T>, op: Op<T>, busy: bool)
    ensures
        agrees(s, Event::ReceiverOp { op, busy }),
{
}

/// The system agrees with its ends on everything else.
proof fn lemma_begin_agrees<T>(s: System<T>, event: Event<T>)
    requires
        !(event is SenderOp || event is ReceiverOp),
    ensures
        agrees(s, event),
{
}

/// The system agrees with its ends on every event.
proof fn lemma_event<T>(s: System<T>, event: Event<T>)
    ensures
        agrees(s, event),
{
    match event {
        Event::SenderOp { op, busy } => lemma_sender_op_agrees(s, op, busy),
        Event::ReceiverOp { op, busy } => lemma_receiver_op_agrees(s, op, busy),
        _ => lemma_begin_agrees(s, event),
    }
}

/// Whatever the two ends of a channel do by their contracts, with the results
/// that the shared memory gives, is a schedule of the system, and leads it to
/// where the ends are; and a system has no other schedules. So what holds of
/// every reachable state holds of every channel.
///
/// An end counts as keeping the wakers alive until its last operation. It really
/// does so until its session is closed, which only delays their dropping.
pub proof fn law_every_history_is_a_schedule<T>(schedule: Seq<Event<T>>)
    ensures
        history(schedule) is Some <==> System::<T>::initial().run(schedule) is Some,
        System::<T>::initial().run(schedule) matches Some(s) ==> history(schedule) == Some(ends(s))
            && s.reachable(),
    decreases schedule.len(),
{
    if schedule.len() > 0 {
        law_every_history_is_a_schedule(schedule.drop_last());
        if let Some(s) = System::<T>::initial().run(schedule.drop_last()) {
            lemma_event(s, schedule.last());
        }
    }
}

/// What the receiving end does is nothing to the sending end itself, and neither
/// is the dropping of the wakers.
pub proof fn lemma_receiver_leaves_sender<T>(s: System<T>, event: Event<T>)
    requires
        s.next(event) is Some,
        !event.of_sender(),
    ensures
        s.next(event)->0.sender == s.sender,
        s.next(event)->0.sends == s.sends,
        s.next(event)->0.fates == s.fates,
{
}

/// What the sending end does is nothing to the receiving end itself, and neither
/// is the dropping of the wakers.
pub proof fn lemma_sender_leaves_receiver<T>(s: System<T>, event: Event<T>)
    requires
        s.next(event) is Some,
        !event.of_receiver(),
    ensures
        s.next(event)->0.receiver == s.receiver,
        s.next(event)->0.taken == s.taken,
        s.next(event)->0.received == s.received,
{
}

/// What holds of every event of a schedule holds of all but the last, and of
/// the last.
pub proof fn lemma_rest<T>(schedule: Seq<Event<T>>)
    requires
        schedule.len() > 0,
    ensures
        sender_goes_on(schedule) ==> sender_goes_on(schedule.drop_last()) && (
        schedule.last().of_sender() ==> schedule.last() is SenderOp),
        receiver_goes_on(schedule) ==> receiver_goes_on(schedule.drop_last()) && (
        schedule.last().of_receiver() ==> schedule.last() is ReceiverOp),
        sender_alone(schedule) ==> sender_alone(schedule.drop_last())
            && schedule.last() is SenderOp,
        receiver_alone(schedule) ==> receiver_alone(schedule.drop_last())
            && schedule.last() is ReceiverOp,
{
    let rest = schedule.drop_last();
    assert forall|i: int| 0 <= i < rest.len() implies #[trigger] rest[i] == schedule[i] by {}
    assert(schedule.last() == schedule[schedule.len() - 1]);
}

/// The system goes through the stages of a poll of a send that its operations
/// lead to.
pub proof fn lemma_send_stages<T>(
    s: System<T>,
    before: ItemState<T>,
    waker: Waker,
    schedule: Seq<Event<T>>,
    t: System<T>,
)
    requires
        s.sender == (SenderState::Polling { stage: SendStage::Start(before), waker }),
        sender_goes_on(schedule),
        s.run(schedule) == Some(t),
    ensures
        send_ran(SendStage::Start(before), s.ticket(), waker, sender_ops(schedule)) matches Some(
            stage,
        ) && t.sender == s.send_reached(stage, waker).sender && t.fates == s.send_reached(
            stage,
            waker,
        ).fates && t.sends == s.sends && (stage matches SendStage::Done(_, Progress::Fault(_))
            ==> t.fault is Some),
    decreases schedule.len(),
{
    broadcast use lemma_send_ran_push;

    if schedule.len() > 0 {
        let rest = schedule.drop_last();
        let r = s.run(rest)->0;
        let event = schedule.last();
        lemma_rest(schedule);
        lemma_send_stages(s, before, waker, rest, r);
        if !event.of_sender() {
            lemma_receiver_leaves_sender(r, event);
            lemma_fault_stays(r, event);
        }
    }
}

/// A fault stays reported.
pub proof fn lemma_fault_stays<T>(s: System<T>, event: Event<T>)
    requires
        s.next(event) is Some,
    ensures
        s.fault is Some ==> s.next(event)->0.fault is Some,
{
}

/// The system goes through the stages of a poll of the receiver that its
/// operations lead to.
pub proof fn lemma_recv_stages<T>(
    s: System<T>,
    waker: Waker,
    schedule: Seq<Event<T>>,
    t: System<T>,
)
    requires
        s.receiver == (ReceiverState::<T>::Polling { stage: RecvStage::Start, waker }),
        receiver_goes_on(schedule),
        s.run(schedule) == Some(t),
    ensures
        recv_ran(RecvStage::Start, waker, receiver_ops(schedule)) matches Some(stage)
            && t.receiver == s.recv_reached(stage, waker).receiver && t.received == s.recv_reached(
            stage,
            waker,
        ).received && (stage matches RecvStage::Done(Progress::Fault(_)) ==> t.fault is Some) && (
        stage == RecvStage::<T>::Done(Progress::Ready(None)) ==> t.sender is Gone),
    decreases schedule.len(),
{
    broadcast use lemma_recv_ran_push;

    if schedule.len() > 0 {
        let rest = schedule.drop_last();
        let r = s.run(rest)->0;
        let event = schedule.last();
        lemma_rest(schedule);
        lemma_recv_stages(s, waker, rest, r);
        if !event.of_receiver() {
            lemma_sender_leaves_receiver(r, event);
            lemma_fault_stays(r, event);
        }
    }
}

/// The system goes through the stages of the giving up of a send that its
/// operations lead to, as far as these belong to one giving up.
pub proof fn lemma_release_stages<T>(s: System<T>, schedule: Seq<Event<T>>, t: System<T>)
    requires
        s.sender == SenderState::<T>::Releasing(ReleaseStage::Start(ItemState::Lent)),
        sender_goes_on(schedule),
        s.run(schedule) == Some(t),
        release_ran(
            ReleaseStage::Start(ItemState::Lent),
            s.ticket(),
            sender_ops(schedule),
        ) is Some,
    ensures
        release_ran(
            ReleaseStage::Start(ItemState::Lent),
            s.ticket(),
            sender_ops(schedule),
        ) matches Some(stage) && t.sends == s.sends && (match stage {
            ReleaseStage::Done(item, progress) => match progress {
                Progress::Ready(back) => item is Finished && t.sender is Idle && t.fates
                    == s.fates.update(s.sends.len() - 1, Fate::Cancelled(back)),
                Progress::Fault(_) => t.fault is Some,
                Progress::Yield => item is Lent && t.sender is Yielded && t.fates == s.fates,
                Progress::Pending => false,
            },
            _ => t.sender == SenderState::Releasing(stage) && t.fates == s.fates,
        }),
    decreases schedule.len(),
{
    broadcast use lemma_release_ran_push;

    if schedule.len() > 0 {
        let rest = schedule.drop_last();
        let r = s.run(rest)->0;
        let event = schedule.last();
        lemma_rest(schedule);
        lemma_release_stages(s, rest, r);
        if !event.of_sender() {
            lemma_receiver_leaves_sender(r, event);
            lemma_fault_stays(r, event);
        }
    }
}

/// What a receiver is doing that withdraws its waker, after these operations.
pub open spec fn forget_stage<T>(leaving: bool, ops: Seq<Op<T>>) -> ReceiverState<T> {
    if ops.len() == 0 {
        ReceiverState::Forgetting { locked: false, leaving }
    } else if ops.len() == 1 && ops[0] == (Op::<T>::Lock { connected: true }) {
        ReceiverState::Forgetting { locked: true, leaving }
    } else if leaving {
        ReceiverState::Leaving
    } else {
        ReceiverState::Resting { waiting: None }
    }
}

/// The system goes through the stages of the withdrawal that its operations lead
/// to.
pub proof fn lemma_forget_stages<T>(
    s: System<T>,
    leaving: bool,
    schedule: Seq<Event<T>>,
    t: System<T>,
)
    requires
        s.receiver == (ReceiverState::<T>::Forgetting { locked: false, leaving }),
        receiver_goes_on(schedule),
        s.run(schedule) == Some(t),
    ensures
        t.receiver == forget_stage(leaving, receiver_ops(schedule)),
    decreases schedule.len(),
{
    if schedule.len() > 0 {
        let rest = schedule.drop_last();
        let r = s.run(rest)->0;
        let event = schedule.last();
        lemma_rest(schedule);
        lemma_forget_stages(s, leaving, rest, r);
        if !event.of_receiver() {
            lemma_sender_leaves_receiver(r, event);
        }
    }
}

/// A withdrawal that nobody disturbs does nothing but that.
pub proof fn lemma_forget_alone<T>(
    s: System<T>,
    leaving: bool,
    schedule: Seq<Event<T>>,
    t: System<T>,
)
    requires
        s.receiver == (ReceiverState::<T>::Forgetting { locked: false, leaving }),
        !(s.sender is Polling || s.sender is Releasing),
        receiver_alone(schedule),
        s.run(schedule) == Some(t),
    ensures
        t == (System {
            receiver: t.receiver,
            receiver_waker: if s.sender is Gone || t.receiver is Forgetting {
                s.receiver_waker
            } else {
                s.receiver_waker.take(false)
            },
            ..s
        }),
        t.receiver == forget_stage(leaving, receiver_ops(schedule)),
        t.receiver == (ReceiverState::<T>::Forgetting { locked: true, leaving }) ==> !(
        s.sender is Gone),
    decreases schedule.len(),
{
    lemma_forget_stages(s, leaving, schedule, t);
    if schedule.len() > 0 {
        let rest = schedule.drop_last();
        let r = s.run(rest)->0;
        lemma_rest(schedule);
        lemma_forget_alone(s, leaving, rest, r);
    }
}

/// What the giving up of a send that nobody disturbs has done when it is at
/// this stage.
pub open spec fn alone_at_release_stage<T>(
    s: System<T>,
    t: System<T>,
    stage: ReleaseStage<T>,
) -> bool {
    let withdrawn = if s.receiver is Gone {
        s.sender_waker
    } else {
        s.sender_waker.take(false)
    };
    let back = if s.taken.contains(s.ticket()) {
        None
    } else {
        Some(s.sends.last())
    };
    &&& t.receiver == s.receiver
    &&& t.taken == s.taken
    &&& t.received == s.received
    &&& t.sends == s.sends
    &&& t.receiver_waker == s.receiver_waker
    &&& match stage {
        ReleaseStage::Start(_) => t == s,
        ReleaseStage::Withdrawing => {
            &&& !(s.receiver is Gone)
            &&& t.slot == s.slot
            &&& t.fates == s.fates
            &&& t.sender_waker == s.sender_waker
        },
        ReleaseStage::Reclaiming { connected } => {
            &&& connected == !(s.receiver is Gone)
            &&& t.slot == s.slot
            &&& t.fates == s.fates
            &&& t.sender_waker == withdrawn
        },
        ReleaseStage::Done(after, progress) => {
            &&& after is Finished
            &&& progress == Progress::Ready(back)
            &&& t.sender is Idle
            &&& t.slot is None
            &&& t.sender_waker == withdrawn
            &&& t.fates == s.fates.update(s.sends.len() - 1, Fate::Cancelled(back))
        },
    }
}

/// The giving up of a send that nobody disturbs does this, and nothing else.
pub proof fn lemma_release_alone<T>(s: System<T>, schedule: Seq<Event<T>>, t: System<T>)
    requires
        s.inv(),
        s.sender == SenderState::<T>::Releasing(ReleaseStage::Start(ItemState::Lent)),
        !(s.receiver is Polling),
        sender_alone(schedule),
        s.run(schedule) == Some(t),
        release_ran(
            ReleaseStage::Start(ItemState::Lent),
            s.ticket(),
            sender_ops(schedule),
        ) is Some,
    ensures
        release_ran(
            ReleaseStage::Start(ItemState::Lent),
            s.ticket(),
            sender_ops(schedule),
        ) matches Some(stage) && alone_at_release_stage(s, t, stage),
    decreases schedule.len(),
{
    broadcast use lemma_release_ran_push;

    lemma_release_stages(s, schedule, t);
    if schedule.len() > 0 {
        let rest = schedule.drop_last();
        let r = s.run(rest)->0;
        lemma_rest(schedule);
        lemma_release_alone(s, rest, r);
        lemma_release_stages(s, rest, r);
        lemma_run(s, rest);
    }
}

/// What a poll of a send that nobody disturbs has done when it is at this stage.
pub open spec fn alone_at_send_stage<T>(
    s: System<T>,
    waker: Waker,
    t: System<T>,
    stage: SendStage<T>,
) -> bool {
    let open = !s.taken.contains(s.ticket()) && !(s.receiver is Gone);
    let offer = Some(Parcel { ticket: s.ticket(), item: Some(s.sends.last()) });
    let stored = s.sender_waker.register(waker, false);
    &&& t.receiver == s.receiver
    &&& t.taken == s.taken
    &&& t.received == s.received
    &&& t.sends == s.sends
    &&& match stage {
        SendStage::Start(_) => t == s,
        SendStage::Looking { connected } => {
            &&& connected == !(s.receiver is Gone)
            &&& t.slot == s.slot
            &&& t.sender_waker == s.sender_waker
            &&& t.receiver_waker == s.receiver_waker
        },
        SendStage::Registering(item) => {
            &&& open
            &&& item == Some(s.sends.last())
            &&& t.sender_waker == s.sender_waker
            &&& t.receiver_waker == s.receiver_waker
        },
        SendStage::Publishing(item) => {
            &&& open
            &&& item == Some(s.sends.last())
            &&& t.sender_waker == stored
            &&& t.receiver_waker == s.receiver_waker
        },
        SendStage::Notifying => {
            &&& open
            &&& t.slot == offer
            &&& t.sender_waker == stored
            &&& t.receiver_waker == s.receiver_waker
        },
        SendStage::Done(after, Progress::Pending) => {
            &&& open
            &&& after is Lent
            &&& t.slot == offer
            &&& t.sender_waker == stored
            &&& t.receiver_waker == s.receiver_waker.wake()
        },
        SendStage::Done(after, Progress::Ready(Ok(_))) => {
            &&& s.taken.contains(s.ticket())
            &&& after is Finished
            &&& t.sender_waker == s.sender_waker
            &&& t.receiver_waker == s.receiver_waker
        },
        SendStage::Done(after, Progress::Ready(Err(error))) => {
            &&& !s.taken.contains(s.ticket())
            &&& s.receiver is Gone
            &&& error.0 == s.sends.last()
            &&& after is Finished
        },
        _ => false,
    }
}

/// A poll of a send that nobody disturbs does this, and nothing else.
pub proof fn lemma_send_alone<T>(
    s: System<T>,
    before: ItemState<T>,
    waker: Waker,
    schedule: Seq<Event<T>>,
    t: System<T>,
)
    requires
        s.inv(),
        s.sender == (SenderState::Polling { stage: SendStage::Start(before), waker }),
        !(s.receiver is Polling),
        sender_alone(schedule),
        s.run(schedule) == Some(t),
    ensures
        send_ran(SendStage::Start(before), s.ticket(), waker, sender_ops(schedule)) matches Some(
            stage,
        ) && alone_at_send_stage(s, waker, t, stage),
    decreases schedule.len(),
{
    broadcast use lemma_send_ran_push;

    lemma_send_stages(s, before, waker, schedule, t);
    if schedule.len() > 0 {
        let rest = schedule.drop_last();
        let r = s.run(rest)->0;
        lemma_rest(schedule);
        lemma_send_alone(s, before, waker, rest, r);
        lemma_send_stages(s, before, waker, rest, r);
        lemma_run(s, rest);
    }
}

/// What a poll of the receiver comes to that nobody disturbs: the end where the
/// sender is gone, or else the item that is in the slot, or else nothing.
pub open spec fn received_at_rest<T>(s: System<T>) -> Progress<Option<T>> {
    if s.sender is Gone {
        Progress::Ready(None)
    } else {
        match s.slot {
            Some(parcel) => match parcel.item {
                Some(item) => Progress::Ready(Some(item)),
                None => Progress::Pending,
            },
            None => Progress::Pending,
        }
    }
}

/// What a poll of the receiver that nobody disturbs has done when it is at this
/// stage.
pub open spec fn alone_at_recv_stage<T>(
    s: System<T>,
    waker: Waker,
    t: System<T>,
    stage: RecvStage<T>,
) -> bool {
    let stored = s.receiver_waker.register(waker, false);
    let ticket = s.slot->0.ticket;
    let taken = if s.offered() {
        s.taken.push(ticket)
    } else {
        s.taken
    };
    // The sender is told of a parcel that comes back, also where its item was
    // taken before.
    let told = if s.slot is Some {
        s.sender_waker.wake()
    } else {
        s.sender_waker
    };
    let back = Some(Parcel { ticket, item: None::<T> });
    &&& t.sender == s.sender
    &&& t.sends == s.sends
    &&& t.fates == s.fates
    &&& match stage {
        RecvStage::Start => t == s,
        RecvStage::Detaching { last } => {
            &&& !(s.sender is Gone)
            &&& t.slot == s.slot
            &&& t.taken == s.taken
            &&& if last {
                !s.offered() && t.sender_waker == told && t.receiver_waker == stored
            } else {
                t.sender_waker == s.sender_waker && t.receiver_waker == s.receiver_waker
            }
        },
        RecvStage::Restoring { last, ticket: held, item } => {
            &&& !(s.sender is Gone)
            &&& s.slot == Some(Parcel { ticket: held, item })
            &&& t.slot is None
            &&& t.taken == taken
            &&& if last {
                !s.offered() && t.sender_waker == told && t.receiver_waker == stored
            } else {
                t.sender_waker == s.sender_waker && t.receiver_waker == s.receiver_waker
            }
        },
        RecvStage::Waking { last, item } => {
            &&& !(s.sender is Gone)
            &&& s.slot == Some(Parcel { ticket, item })
            &&& t.slot == back
            &&& t.taken == taken
            &&& if last {
                !s.offered() && t.sender_waker == told && t.receiver_waker == stored
            } else {
                t.sender_waker == s.sender_waker && t.receiver_waker == s.receiver_waker
            }
        },
        RecvStage::Registering => {
            &&& !(s.sender is Gone)
            &&& !s.offered()
            &&& t.slot == s.slot
            &&& t.taken == s.taken
            &&& t.sender_waker == told
            &&& t.receiver_waker == s.receiver_waker
        },
        RecvStage::Done(progress) => {
            &&& progress == received_at_rest(s)
            &&& match progress {
                Progress::Ready(Some(_)) => {
                    &&& t.slot == back
                    &&& t.taken == taken
                    &&& t.sender_waker == told
                    &&& t.receiver_waker == s.receiver_waker
                },
                Progress::Pending => {
                    &&& t.slot == s.slot
                    &&& t.taken == s.taken
                    &&& t.sender_waker == told
                    &&& t.receiver_waker == stored
                },
                _ => {
                    &&& t.slot == s.slot
                    &&& t.taken == s.taken
                    &&& t.sender_waker == s.sender_waker
                    &&& t.receiver_waker == s.receiver_waker
                },
            }
        },
    }
}

/// A poll of the receiver that nobody disturbs does this, and nothing else.
pub proof fn lemma_recv_alone<T>(
    s: System<T>,
    waker: Waker,
    schedule: Seq<Event<T>>,
    t: System<T>,
)
    requires
        s.inv(),
        s.receiver == (ReceiverState::<T>::Polling { stage: RecvStage::Start, waker }),
        !(s.sender is Polling || s.sender is Releasing),
        receiver_alone(schedule),
        s.run(schedule) == Some(t),
    ensures
        recv_ran(RecvStage::Start, waker, receiver_ops(schedule)) matches Some(stage)
            && alone_at_recv_stage(s, waker, t, stage),
    decreases schedule.len(),
{
    broadcast use lemma_recv_ran_push;

    lemma_recv_stages(s, waker, schedule, t);
    if schedule.len() > 0 {
        let rest = schedule.drop_last();
        let r = s.run(rest)->0;
        lemma_rest(schedule);
        lemma_recv_alone(s, waker, rest, r);
        lemma_recv_stages(s, waker, rest, r);
        lemma_run(s, rest);
    }
}

/// What was taken stays taken.
pub proof fn lemma_taken_stays<T>(s: System<T>, schedule: Seq<Event<T>>, t: System<T>, ticket: u64)
    requires
        s.run(schedule) == Some(t),
        s.taken.contains(ticket),
    ensures
        t.taken.contains(ticket),
    decreases schedule.len(),
{
    broadcast use lemma_push_contains;

    if schedule.len() > 0 {
        let rest = schedule.drop_last();
        lemma_taken_stays(s, rest, s.run(rest)->0, ticket);
    }
}

/// A poll of a send whose item was taken before it began does not offer it
/// again.
pub proof fn lemma_taken_is_not_offered<T>(
    s: System<T>,
    before: ItemState<T>,
    waker: Waker,
    schedule: Seq<Event<T>>,
    t: System<T>,
)
    requires
        s.inv(),
        s.taken.contains(s.ticket()),
        s.sender == (SenderState::Polling { stage: SendStage::Start(before), waker }),
        sender_goes_on(schedule),
        s.run(schedule) == Some(t),
    ensures
        send_ran(SendStage::Start(before), s.ticket(), waker, sender_ops(schedule)) matches Some(
            stage,
        ) && match stage {
            SendStage::Start(_) => true,
            SendStage::Looking { connected: _ } => true,
            SendStage::Done(_, Progress::Ready(Ok(_))) => true,
            SendStage::Done(_, Progress::Yield) => true,
            _ => false,
        },
    decreases schedule.len(),
{
    broadcast use lemma_send_ran_push;

    lemma_send_stages(s, before, waker, schedule, t);
    if schedule.len() > 0 {
        let rest = schedule.drop_last();
        let r = s.run(rest)->0;
        lemma_rest(schedule);
        lemma_taken_is_not_offered(s, before, waker, rest, r);
        lemma_send_stages(s, before, waker, rest, r);
        lemma_run(s, rest);
        lemma_taken_stays(s, rest, r, s.ticket());
    }
}

/// A poll of a send that begins after the receiver has gone offers nothing: it
/// looks for its item, and comes to an end.
pub proof fn lemma_send_to_nobody<T>(
    s: System<T>,
    before: ItemState<T>,
    waker: Waker,
    schedule: Seq<Event<T>>,
    t: System<T>,
)
    requires
        s.inv(),
        s.receiver is Gone,
        s.sender == (SenderState::Polling { stage: SendStage::Start(before), waker }),
        sender_goes_on(schedule),
        s.run(schedule) == Some(t),
    ensures
        t.receiver is Gone,
        t.taken == s.taken,
        send_ran(SendStage::Start(before), s.ticket(), waker, sender_ops(schedule)) matches Some(
            stage,
        ) && match stage {
            SendStage::Start(_) => t.slot == s.slot,
            SendStage::Looking { connected } => !connected && t.slot == s.slot,
            SendStage::Done(_, progress) => progress == if s.taken.contains(s.ticket()) {
                Progress::Ready(Ok(()))
            } else {
                Progress::Ready(Err(SendError(s.sends.last())))
            },
            _ => false,
        },
    decreases schedule.len(),
{
    broadcast use lemma_send_ran_push;

    lemma_send_stages(s, before, waker, schedule, t);
    if schedule.len() > 0 {
        let rest = schedule.drop_last();
        let r = s.run(rest)->0;
        lemma_rest(schedule);
        lemma_send_to_nobody(s, before, waker, rest, r);
        lemma_send_stages(s, before, waker, rest, r);
        lemma_run(s, rest);
    }
}

/// A schedule leads on from wherever another one leads to.
pub proof fn lemma_run_on<T>(s: System<T>, m: System<T>, schedule: Seq<Event<T>>, t: System<T>)
    requires
        s.leads_to(m),
        m.run(schedule) == Some(t),
    ensures
        s.leads_to(t),
    decreases schedule.len(),
{
    if schedule.len() > 0 {
        let rest = schedule.drop_last();
        lemma_run_on(s, m, rest, m.run(rest)->0);
        lemma_leads_on(s, m.run(rest)->0, schedule.last());
    }
}

} // verus!

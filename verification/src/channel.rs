//! The two ends of a channel and the operations on them.
use crate::footprint::lemma_last_visit;
use crate::progress::{Fault, Progress, SendError};
use crate::receiving::{
    attempted, conclude, ended, forgetting, recv_polled, recv_ran, report, size_bounds, Attempt,
    RecvStage,
};
use crate::sending::{
    recognize, release_ran, release_start, resolve, send_polled, send_ran, send_released, ItemState,
    ReleaseStage, Resolution, SendStage, Sighting,
};
use crate::shared::exchange::{leak, Parcel, Reclaim, Restore};
use crate::shared::journal::{Call, Op, Site};
use crate::shared::leaks::Leaks;
use crate::shared::link::Port;
use crate::shared::record::Ledger;
use crate::shared::session::Session;
use crate::shared::slot::made_empty;
use std::task::Waker;
use vstd::prelude::*;

verus! {

/// Create an unbuffered channel for communicating between a pair of
/// asynchronous components. All sends over this channel will block until the
/// receiver receives the sent item.
pub fn channel<T>() -> (ends: (Sender<T>, Receiver<T>))
    ensures
        ends.0.site().exchange == ends.1.site().exchange,
        ends.0.site().inner() == ends.1.site().inner(),
        made_empty(ends.0.site().exchange),
        ends.0.site().inner().made_idle(),
        ends.0.next_ticket() == 0,
        ends.0.issued() == 0,
        ends.1.journal() == Seq::<Call<T>>::empty(),
        ends.1.unfiled() == 0,
        ends.1.issued() == 1,
{
    let (sending, mut receiving) = Port::pair();
    let ledger = receiving.issue();
    (Sender { port: sending, next_ticket: 0 }, Receiver { port: receiving, ledger })
}

/// The sending end of a handoff channel.
///
/// This object is created by the [`channel`] function.
#[verifier::reject_recursive_types(T)]
pub struct Sender<T> {
    port: Port<T>,
    next_ticket: u64,
}

impl<T> Sender<T> {
    /// The sender's connection to the channel.
    pub closed spec fn port(self) -> Port<T> {
        self.port
    }

    /// The places that the sender reaches.
    pub open spec fn site(self) -> Site<T> {
        self.port().site()
    }

    /// How many ledgers there are of what is done with the sender: one for each
    /// send.
    pub open spec fn issued(self) -> int {
        self.port().issued()
    }

    /// The number that the next send gets.
    pub closed spec fn next_ticket(self) -> u64 {
        self.next_ticket
    }

    /// The sender's joint can appear like this in debug output.
    pub open spec fn may_show(self, text: String) -> bool {
        self.port().may_show(text)
    }

    /// Asynchronously send an item to the receiver.
    ///
    /// The send will asynchronously block until the receiver has received the
    /// item. If the receiver disconnects, it will instead give a [`SendError`]
    /// that holds the item that failed to send.
    #[must_use]
    pub fn send(&mut self, item: T) -> (future: SendFut<'_, T>)
        ensures
            future.state() == ItemState::Held(item),
            future.ticket() == old(self).next_ticket(),
            future.site() == old(self).site(),
            future.journal() == Seq::<Call<T>>::empty(),
            future.unfiled() == 0,
            future.leaked() == Seq::<Option<Parcel<T>>>::empty(),
            final(self).site() == old(self).site(),
            final(self).issued() == old(self).issued() + 1,
            final(self).next_ticket() == (if old(self).next_ticket() == u64::MAX {
                0
            } else {
                (old(self).next_ticket() + 1) as u64
            }),
    {
        let ticket = self.next_ticket;
        self.next_ticket = ticket.wrapping_add(1);
        let ledger = self.port.issue();
        SendFut {
            item: ItemState::Held(item),
            ticket,
            port: &self.port,
            ledger,
            leaks: Leaks::none(),
        }
    }

    /// How the sender's share of the channel appears in debug output.
    pub fn inner_text(&self) -> (text: String)
        ensures
            self.may_show(text),
            text@ == "Joint(<paired>)"@ || text@ == "Joint(<unpaired>)"@,
    {
        self.port.describe()
    }
}

/// A single item on its way through a [`Sender`], created by the
/// [`send`](Sender::send) method.
#[verifier::reject_recursive_types(T)]
pub struct SendFut<'a, T> {
    item: ItemState<T>,
    ticket: u64,
    port: &'a Port<T>,
    ledger: Ledger<T>,
    leaks: Leaks<T>,
}

impl<'a, T> SendFut<'a, T> {
    /// The ledger is about the port that the send goes through.
    #[verifier::type_invariant]
    spec fn tied(self) -> bool {
        self.ledger.site() == self.port.site()
    }

    /// The ledger of the send.
    pub closed spec fn ledger(self) -> Ledger<T> {
        self.ledger
    }

    /// What the send has found in the slot where it has put its parcel, and has
    /// leaked.
    pub closed spec fn leaked(self) -> Seq<Option<Parcel<T>>> {
        self.leaks@
    }

    /// The connection of the send to the channel.
    pub closed spec fn port(self) -> Port<T> {
        *self.port
    }

    /// Where the item is.
    pub closed spec fn state(self) -> ItemState<T> {
        self.item
    }

    /// The number of the send.
    pub closed spec fn ticket(self) -> u64 {
        self.ticket
    }

    /// The places that the send reaches.
    pub open spec fn site(self) -> Site<T> {
        self.port().site()
    }

    /// What the send has done so far.
    pub open spec fn journal(self) -> Seq<Call<T>> {
        self.ledger().calls()
    }

    /// How many sessions are missing in the journal.
    pub open spec fn unfiled(self) -> int {
        self.ledger().unfiled()
    }

    /// The sender's joint can answer this when it is asked whether the receiver
    /// is there.
    pub open spec fn may_find_receiver(self, present: bool) -> bool {
        self.port().may_find(present)
    }

    /// The sender's joint can appear like this in debug output.
    pub open spec fn may_show(self, text: String) -> bool {
        self.port().may_show(text)
    }

    /// The send has gone on from an earlier state by doing these operations at
    /// the places of its channel, and nothing else.
    pub open spec fn went_on(self, earlier: Self, ops: Seq<Op<T>>) -> bool {
        &&& earlier.site().did(earlier.journal(), ops, self.journal())
        &&& self.unfiled() == earlier.unfiled()
        &&& self.site() == earlier.site()
        &&& self.ticket() == earlier.ticket()
    }

    /// A poll of the send with this waker led from the earlier state to this one
    /// with these operations, and came to this.
    pub open spec fn polled(
        self,
        earlier: Self,
        waker: Waker,
        progress: Progress<Result<(), SendError<T>>>,
        ops: Seq<Op<T>>,
    ) -> bool {
        &&& self.went_on(earlier, ops)
        &&& send_ran(SendStage::Start(earlier.state()), earlier.ticket(), waker, ops) == Some(
            SendStage::Done(self.state(), progress),
        )
    }

    /// Giving the send up led from the earlier state to this one with these
    /// operations, and came to this.
    pub open spec fn released(
        self,
        earlier: Self,
        progress: Progress<Option<T>>,
        ops: Seq<Op<T>>,
    ) -> bool {
        &&& self.went_on(earlier, ops)
        &&& release_ran(release_start(earlier.state()), earlier.ticket(), ops) == Some(
            ReleaseStage::Done(self.state(), progress),
        )
    }

    /// Polls the send: it succeeds once the receiver has taken the item, and
    /// fails with the item once the receiver is gone.
    pub fn poll(&mut self, waker: &Waker) -> (progress: Progress<Result<(), SendError<T>>>)
        ensures
            exists|ops: Seq<Op<T>>| #[trigger]
                final(self).polled(*old(self), *waker, progress, ops),
            exists|connected: bool, found: Reclaim<T>|
                (final(self).state(), progress) == #[trigger] send_polled(
                    old(self).state(),
                    connected,
                    found,
                ),
            match (progress, final(self).journal()[final(self).journal().len() - 3]) {
                (Progress::Pending, Call::Leave { exchange: _, before, after: _ }) => {
                    final(self).leaked() == old(self).leaked().push(before)
                },
                (Progress::Pending, _) => false,
                _ => final(self).leaked() == old(self).leaked(),
            },
    {
        broadcast use crate::sending::lemma_send_ran_push;

        proof {
            use_type_invariant(&*self);
        }
        let mut session = self.port.open(&mut self.ledger);
        let connected = session.is_connected();
        let mut state = ItemState::Finished;
        std::mem::swap(&mut self.item, &mut state);
        // If the parcel is in the exchange it has to come back first: the item
        // is out of reach until then.
        let ghost mut seen: Reclaim<T> = Reclaim::InUse;
        let sighting = match state {
            ItemState::Held(item) => Sighting::Held(item),
            ItemState::Lent => {
                let (found, _) = session.reclaim(self.ticket);
                proof {
                    seen = found;
                }
                recognize(found)
            },
            ItemState::Finished => Sighting::Finished,
        };
        let ghost mut offered: Option<Parcel<T>> = None;
        let ghost mut replaced: Option<Parcel<T>> = None;
        let progress = match resolve(sighting, connected) {
            Resolution::Settle(next, progress) => {
                self.item = next;
                progress
            },
            Resolution::Offer(item) => {
                // The item stays with the send until the waker is stored.
                self.item = match item {
                    Some(item) => ItemState::Held(item),
                    None => ItemState::Finished,
                };
                session.register_sender(waker);
                let mut state = ItemState::Lent;
                std::mem::swap(&mut self.item, &mut state);
                let item = match state {
                    ItemState::Held(item) => Some(item),
                    _ => None,
                };
                // The slot can only hold the parcel of a send that was leaked;
                // its item stays leaked.
                let parcel = Some(Parcel { ticket: self.ticket, item });
                let ghost after = parcel;
                let previous = session.swap(parcel);
                proof {
                    offered = after;
                    replaced = previous;
                }
                leak(previous, &mut self.leaks);
                session.wake_receiver();
                Progress::Pending
            },
        };
        let ghost ops = session.ops();
        self.ledger.file(session.close());
        assert((self.state(), progress) == send_polled(old(self).state(), connected, seen));
        assert(self.polled(*old(self), *waker, progress, ops));
        proof {
            if progress is Pending {
                let calls = old(self).journal();
                lemma_last_visit(self.site(), calls, ops, self.journal(), replaced, offered);
            }
        }
        progress
    }

    /// Gives the send up: afterwards the receiver can no longer take the item,
    /// and the item is handed out unless the receiver has taken it. Where the
    /// receiver is working with the item right now, the send has to wait for it.
    pub fn release(&mut self) -> (progress: Progress<Option<T>>)
        ensures
            exists|ops: Seq<Op<T>>| #[trigger] final(self).released(*old(self), progress, ops),
            exists|found: Reclaim<T>|
                (final(self).state(), progress) == #[trigger] send_released(
                    old(self).state(),
                    found,
                ),
            final(self).leaked() == old(self).leaked(),
        opens_invariants none
        no_unwind
    {
        broadcast use crate::sending::lemma_release_ran_push;

        proof {
            use_type_invariant(&*self);
        }
        let ghost mut seen: Reclaim<T> = Reclaim::InUse;
        let ghost mut ops: Seq<Op<T>> = Seq::empty();
        let mut state = ItemState::Finished;
        std::mem::swap(&mut self.item, &mut state);
        let progress = match state {
            ItemState::Held(item) => Progress::Ready(Some(item)),
            ItemState::Lent => {
                let mut session = self.port.open(&mut self.ledger);
                if session.is_connected() {
                    // Once the send is gone there is nobody to wake until a
                    // new one appears.
                    session.withdraw_sender();
                }
                let (found, _) = session.reclaim(self.ticket);
                proof {
                    seen = found;
                    ops = session.ops();
                }
                self.ledger.file(session.close());
                match found {
                    Reclaim::Reclaimed(item) => Progress::Ready(item),
                    Reclaim::InUse => {
                        self.item = ItemState::Lent;
                        Progress::Yield
                    },
                    Reclaim::Foreign => {
                        self.item = ItemState::Lent;
                        Progress::Fault(Fault::ForeignItem)
                    },
                }
            },
            ItemState::Finished => Progress::Ready(None),
        };
        assert((self.state(), progress) == send_released(old(self).state(), seen));
        assert(self.released(*old(self), progress, ops));
        progress
    }

    /// Whether the item is in the exchange.
    pub fn item_lent(&self) -> (lent: bool)
        ensures
            lent == (self.state() is Lent),
    {
        matches!(self.item, ItemState::Lent)
    }

    /// Whether the send has reported its outcome, or was given up.
    pub fn is_finished(&self) -> (finished: bool)
        ensures
            finished == (self.state() is Finished),
    {
        matches!(self.item, ItemState::Finished)
    }

    /// Whether the receiver is there.
    pub fn is_connected(&self) -> (connected: bool)
        ensures
            self.may_find_receiver(connected),
    {
        self.port.partnered()
    }

    /// How the send's share of the channel appears in debug output.
    pub fn inner_text(&self) -> (text: String)
        ensures
            self.may_show(text),
            text@ == "Joint(<paired>)"@ || text@ == "Joint(<unpaired>)"@,
    {
        self.port.describe()
    }
}

impl<'a, T> Drop for SendFut<'a, T> {
    /// A send that goes away takes its item back, unless the receiver is
    /// working with it: then the receiver gets it.
    fn drop(&mut self)
        ensures
            exists|progress: Progress<Option<T>>, ops: Seq<Op<T>>| #[trigger]
                final(self).released(*old(self), progress, ops),
            final(self).leaked() == old(self).leaked(),
        opens_invariants none
        no_unwind
    {
        self.release();
    }
}

/// The receiving end of a handoff channel.
///
/// This object is created by the [`channel`] function.
#[verifier::reject_recursive_types(T)]
pub struct Receiver<T> {
    port: Port<T>,
    ledger: Ledger<T>,
}

impl<T> Receiver<T> {
    /// The ledger is about the port of the receiver.
    #[verifier::type_invariant]
    spec fn tied(self) -> bool {
        self.ledger.site() == self.port.site()
    }

    /// The ledger of the receiver.
    pub closed spec fn ledger(self) -> Ledger<T> {
        self.ledger
    }

    /// The receiver's connection to the channel.
    pub closed spec fn port(self) -> Port<T> {
        self.port
    }

    /// The places that the receiver reaches.
    pub open spec fn site(self) -> Site<T> {
        self.port().site()
    }

    /// What the receiver has done so far.
    pub open spec fn journal(self) -> Seq<Call<T>> {
        self.ledger().calls()
    }

    /// How many sessions are missing in the journal.
    pub open spec fn unfiled(self) -> int {
        self.ledger().unfiled()
    }

    /// How many ledgers there are of what is done with the receiver.
    pub open spec fn issued(self) -> int {
        self.port().issued()
    }

    /// The receiver's joint can answer this when it is asked whether the sender
    /// is there.
    pub open spec fn may_find_sender(self, present: bool) -> bool {
        self.port().may_find(present)
    }

    /// The receiver's joint can appear like this in debug output.
    pub open spec fn may_show(self, text: String) -> bool {
        self.port().may_show(text)
    }

    /// The receiver has gone on from an earlier state by doing these operations
    /// at the places of its channel, and nothing else.
    pub open spec fn went_on(self, earlier: Self, ops: Seq<Op<T>>) -> bool {
        &&& earlier.site().did(earlier.journal(), ops, self.journal())
        &&& self.unfiled() == earlier.unfiled()
        &&& self.issued() == earlier.issued()
        &&& self.site() == earlier.site()
    }

    /// A poll with this waker led from the earlier state to this one with these
    /// operations, and came to this.
    pub open spec fn polled(
        self,
        earlier: Self,
        waker: Waker,
        progress: Progress<Option<T>>,
        ops: Seq<Op<T>>,
    ) -> bool {
        &&& self.went_on(earlier, ops)
        &&& recv_ran(RecvStage::Start, waker, ops) == Some(RecvStage::Done(progress))
    }

    /// The receiver has withdrawn its waker, and found the sender connected or
    /// not.
    pub open spec fn forgot(self, earlier: Self, connected: bool) -> bool {
        self.went_on(earlier, forgetting(connected))
    }

    /// Attempt to receive the next item from the sender.
    ///
    /// The future will asynchronously block until the sender sends an item,
    /// then give that item. Alternatively, if the sender disconnects, it will
    /// give `None`.
    pub fn recv(&mut self) -> (future: RecvFut<'_, T>)
        ensures
            *future.receiver == *old(self),
            *final(future.receiver) == *final(self),
    {
        RecvFut { receiver: self }
    }

    /// Takes an item from the exchange, if there is one. It is possible that a
    /// parcel is there whose item was taken before.
    fn try_recv(
        session: &mut Session<'_, T>,
        Ghost(waker): Ghost<Waker>,
        Ghost(last): Ghost<bool>,
    ) -> (attempt: Attempt<T>)
        requires
            old(session).faithful(),
            old(session).connected(),
            recv_ran(RecvStage::Start, waker, old(session).ops()) == Some(
                RecvStage::<T>::Detaching { last },
            ),
        ensures
            final(session).faithful(),
            final(session).connected(),
            final(session).site() == old(session).site(),
            recv_ran(RecvStage::Start, waker, final(session).ops()) == Some(
                attempted(last, attempt),
            ),
    {
        broadcast use crate::receiving::lemma_recv_ran_push;

        // As long as the parcel is out of the slot nobody else can reach it;
        // the sender waits for it to come back.
        let detached = session.swap(None);
        match detached {
            Some(parcel) => {
                let (outcome, _) = session.restore(parcel.ticket);
                if let Restore::Restored = outcome {
                    // The sender can go on now.
                    session.wake_sender();
                }
                conclude(parcel.item, outcome)
            },
            None => Attempt::Empty,
        }
    }

    /// Polls for the next item.
    ///
    /// There are two attempts to take an item: one before the waker is stored
    /// and one after it. Without the second one, an item that the sender
    /// offers between the first one and the storing of the waker would go
    /// unnoticed.
    pub fn poll_next(&mut self, waker: &Waker) -> (progress: Progress<Option<T>>)
        ensures
            exists|ops: Seq<Op<T>>| #[trigger]
                final(self).polled(*old(self), *waker, progress, ops),
            exists|connected: bool, first: Attempt<T>, second: Attempt<T>|
                progress == #[trigger] recv_polled(connected, first, second),
    {
        broadcast use crate::receiving::lemma_recv_ran_push;

        proof {
            use_type_invariant(&*self);
        }
        let mut session = self.port.open(&mut self.ledger);
        let connected = session.is_connected();
        let ghost mut first: Attempt<T> = Attempt::Empty;
        let ghost mut second: Attempt<T> = Attempt::Empty;
        let progress = if connected {
            let attempt = Self::try_recv(&mut session, Ghost(*waker), Ghost(false));
            proof {
                first = attempt;
            }
            match attempt {
                Attempt::Empty => {
                    session.register_receiver(waker);
                    let attempt = Self::try_recv(&mut session, Ghost(*waker), Ghost(true));
                    proof {
                        second = attempt;
                    }
                    report(attempt)
                },
                attempt => report(attempt),
            }
        } else {
            Progress::Ready(None)
        };
        let ghost ops = session.ops();
        self.ledger.file(session.close());
        assert(progress == recv_polled(connected, first, second));
        assert(self.polled(*old(self), *waker, progress, ops));
        progress
    }

    /// How many items are still to come, at least and at most: none after the
    /// sender has gone, and any number before that. The answer is that of the
    /// joint; [`law_answer_agrees_with_poll`] says when it comes.
    ///
    /// [`law_answer_agrees_with_poll`]: crate::promises::law_answer_agrees_with_poll
    #[must_use]
    pub fn size_hint(&self) -> (bounds: (usize, Option<usize>))
        ensures
            exists|present: bool| #[trigger]
                self.may_find_sender(present) && bounds == (0usize, if present {
                    None
                } else {
                    Some(0usize)
                }),
    {
        let present = self.port.partnered();
        assert(self.may_find_sender(present));
        size_bounds(present)
    }

    /// Whether the sender has gone, so that no item will come any more. The
    /// answer is that of the joint; [`law_answer_agrees_with_poll`] says when it
    /// comes.
    ///
    /// [`law_answer_agrees_with_poll`]: crate::promises::law_answer_agrees_with_poll
    #[must_use]
    pub fn is_terminated(&self) -> (terminated: bool)
        ensures
            self.may_find_sender(!terminated),
    {
        ended(self.port.partnered())
    }

    /// Withdraws the waker that the last poll has stored. That is what happens
    /// when the receiver, or a future that it has made, goes away.
    pub fn forget_waker(&mut self)
        ensures
            exists|connected: bool| #[trigger] final(self).forgot(*old(self), connected),
        opens_invariants none
        no_unwind
    {
        proof {
            use_type_invariant(&*self);
        }
        let mut session = self.port.open(&mut self.ledger);
        if session.is_connected() {
            session.withdraw_receiver();
        }
        let ghost connected = session.connected();
        assert(session.ops() =~= forgetting(connected));
        self.ledger.file(session.close());
        assert(self.forgot(*old(self), connected));
    }

    /// How the receiver's share of the channel appears in debug output.
    pub fn inner_text(&self) -> (text: String)
        ensures
            self.may_show(text),
            text@ == "Joint(<paired>)"@ || text@ == "Joint(<unpaired>)"@,
    {
        self.port.describe()
    }
}

impl<T> Drop for Receiver<T> {
    /// A receiver that goes away does not want to be woken.
    fn drop(&mut self)
        ensures
            exists|connected: bool| #[trigger] final(self).forgot(*old(self), connected),
        opens_invariants none
        no_unwind
    {
        self.forget_waker();
    }
}

/// A single item on its way out of a [`Receiver`], created by the
/// [`recv`](Receiver::recv) method.
#[verifier::reject_recursive_types(T)]
pub struct RecvFut<'a, T> {
    /// The receiver that the item will come from.
    pub receiver: &'a mut Receiver<T>,
}

impl<'a, T> RecvFut<'a, T> {
    /// Polls for the item; see [`Receiver::poll_next`].
    pub fn poll(&mut self, waker: &Waker) -> (progress: Progress<Option<T>>)
        ensures
            exists|ops: Seq<Op<T>>| #[trigger]
                final(self).receiver.polled(*old(self).receiver, *waker, progress, ops),
            exists|connected: bool, first: Attempt<T>, second: Attempt<T>|
                progress == #[trigger] recv_polled(connected, first, second),
    {
        let ghost earlier = *self.receiver;
        let progress = self.receiver.poll_next(waker);
        proof {
            let ops = choose|ops: Seq<Op<T>>|
                self.receiver.polled(earlier, *waker, progress, ops);
            assert(self.receiver.polled(*old(self).receiver, *waker, progress, ops));
        }
        progress
    }
}

impl<'a, T> Drop for RecvFut<'a, T> {
    /// When the future goes away, nobody waits for an item any more.
    fn drop(&mut self)
        ensures
            exists|connected: bool| #[trigger]
                final(self).receiver.forgot(*old(self).receiver, connected),
        opens_invariants none
        no_unwind
    {
        let ghost earlier = *self.receiver;
        self.receiver.forget_waker();
        proof {
            let connected = choose|connected: bool| self.receiver.forgot(earlier, connected);
            assert(self.receiver.forgot(*old(self).receiver, connected));
        }
    }
}

} // verus!

//! A sequence of operations of one end.
use crate::shared::exchange::{reclaimed, restored, Exchange, Parcel, Reclaim, Restore};
use crate::shared::held::Guard;
use crate::shared::journal::{lemma_outside, Call, Op, Site};
use crate::shared::record::Journal;
use crate::shared::signals::{lock_value, register, shared, take, wake, Inner};
use crate::shared::slot::{reclaim, restore, swap, unlock};
use std::sync::Mutex;
use std::task::Waker;
use twinsies::JointLock;
use vstd::prelude::*;

verus! {

/// A sequence of operations that an end is about to do.
#[verifier::reject_recursive_types(T)]
pub struct Session<'l, T> {
    held: Option<JointLock<'l, Inner>>,
    exchange: &'l Mutex<Exchange<T>>,
    journal: Journal<T>,
    ops: Ghost<Seq<Op<T>>>,
}

/// What was done in a session that is over.
#[verifier::reject_recursive_types(T)]
pub struct Minutes<T> {
    journal: Journal<T>,
    ops: Ghost<Seq<Op<T>>>,
}

impl<T> Minutes<T> {
    /// The places that the session was about.
    pub closed spec fn site(self) -> Site<T> {
        self.journal.site()
    }

    /// The calls of the session.
    pub closed spec fn calls(self) -> Seq<Call<T>> {
        self.journal.calls()
    }

    /// The operations of the session.
    pub closed spec fn ops(self) -> Seq<Op<T>> {
        self.ops@
    }

    /// The calls that were made are those of the operations, and the lock on the
    /// wakers was given back.
    pub open spec fn faithful(self) -> bool {
        self.calls() == self.site().session_calls(self.ops())
    }

    /// The journal of the session.
    pub(super) fn into_journal(self) -> (journal: Journal<T>)
        ensures
            journal.site() == self.site(),
            journal.calls() == self.calls(),
        opens_invariants none
        no_unwind
    {
        self.journal
    }
}

impl<'l, T> Session<'l, T> {
    /// The places that the session is about.
    pub closed spec fn site(self) -> Site<T> {
        self.journal.site()
    }

    /// The operations that were done in the session.
    pub closed spec fn ops(self) -> Seq<Op<T>> {
        self.ops@
    }

    /// The other end was there when the session was opened.
    pub closed spec fn connected(self) -> bool {
        self.held is Some
    }

    /// The session leads to the places that it is about, and the calls that
    /// were made in it are those of its operations.
    pub closed spec fn faithful(self) -> bool {
        &&& self.held matches Some(held) ==> lock_value(held) == self.journal.site().inner()
        &&& *self.exchange == self.journal.site().exchange
        &&& self.journal.calls() == self.journal.site().all_calls(self.ops@)
        &&& self.ops@.len() > 0
        &&& self.ops@[0] == (Op::<T>::Lock { connected: self.held is Some })
    }

    /// The session goes on with one more operation.
    pub open spec fn follows(self, earlier: Self, op: Op<T>) -> bool {
        &&& self.faithful()
        &&& self.site() == earlier.site()
        &&& self.connected() == earlier.connected()
        &&& self.ops() == earlier.ops().push(op)
    }

    /// A session that begins with the question whether the other end is there.
    pub(super) fn begin(
        held: Option<JointLock<'l, Inner>>,
        exchange: &'l Mutex<Exchange<T>>,
        journal: Journal<T>,
    ) -> (session: Self)
        requires
            held matches Some(lock) ==> lock_value(lock) == journal.site().inner(),
            *exchange == journal.site().exchange,
            journal.calls() == journal.site().all_calls(
                Seq::empty().push(Op::Lock { connected: held is Some }),
            ),
        ensures
            session.faithful(),
            session.site() == journal.site(),
            session.connected() == (held is Some),
            session.ops() == Seq::empty().push(Op::<T>::Lock { connected: held is Some }),
        opens_invariants none
        no_unwind
    {
        let ghost ops = Seq::empty().push(Op::<T>::Lock { connected: held is Some });
        Session { held, exchange, journal, ops: Ghost(ops) }
    }

    /// Whether the other end was there when the session was opened.
    pub(crate) fn is_connected(&self) -> (connected: bool)
        ensures
            connected == self.connected(),
        opens_invariants none
        no_unwind
    {
        match &self.held {
            Some(_) => true,
            None => false,
        }
    }

    /// Puts `next` into the slot and hands out what was there.
    pub(crate) fn swap(&mut self, next: Option<Parcel<T>>) -> (previous: Option<Parcel<T>>)
        requires
            old(self).faithful(),
        ensures
            final(self).follows(*old(self), Op::Visit { before: previous, after: next }),
    {
        broadcast use crate::shared::journal::group_calls;

        let ghost after = next;
        proof {
            lemma_outside(self.journal.site(), self.ops@);
        }
        let previous = swap(self.exchange, next, &mut self.journal);
        self.ops = Ghost(self.ops@.push(Op::Visit { before: previous, after }));
        previous
    }

    /// The send with this ticket asks for its parcel.
    pub(crate) fn reclaim(&mut self, ticket: u64) -> (result: (
        Reclaim<T>,
        Ghost<Option<Parcel<T>>>,
    ))
        requires
            old(self).faithful(),
        ensures
            result.0 == reclaimed(result.1@, ticket).0,
            final(self).follows(
                *old(self),
                Op::Visit { before: result.1@, after: reclaimed(result.1@, ticket).1 },
            ),
        opens_invariants none
        no_unwind
    {
        broadcast use crate::shared::journal::group_calls;

        proof {
            lemma_outside(self.journal.site(), self.ops@);
        }
        let (found, Ghost(before)) = reclaim(self.exchange, ticket, &mut self.journal);
        let ghost after = reclaimed(before, ticket).1;
        self.ops = Ghost(self.ops@.push(Op::Visit { before, after }));
        (found, Ghost(before))
    }

    /// The receiver returns the parcel with this ticket, which it has emptied.
    pub(crate) fn restore(&mut self, ticket: u64) -> (result: (Restore, Ghost<Option<Parcel<T>>>))
        requires
            old(self).faithful(),
        ensures
            result.0 == restored(result.1@, ticket).0,
            final(self).follows(
                *old(self),
                Op::Visit { before: result.1@, after: restored(result.1@, ticket).1 },
            ),
    {
        broadcast use crate::shared::journal::group_calls;

        proof {
            lemma_outside(self.journal.site(), self.ops@);
        }
        let (outcome, Ghost(before)) = restore(self.exchange, ticket, &mut self.journal);
        let ghost after = restored(before, ticket).1;
        self.ops = Ghost(self.ops@.push(Op::Visit { before, after }));
        (outcome, Ghost(before))
    }

    /// Stores the waker of the sending task.
    pub(crate) fn register_sender(&mut self, waker: &Waker)
        requires
            old(self).faithful(),
            old(self).connected(),
        ensures
            final(self).follows(*old(self), Op::RegisterSender(*waker)),
    {
        broadcast use crate::shared::journal::group_calls;

        if let Some(held) = &self.held {
            register(shared(held).sender_waker(), waker, &mut self.journal);
            self.ops = Ghost(self.ops@.push(Op::RegisterSender(*waker)));
        }
    }

    /// Wakes the sending task.
    pub(crate) fn wake_sender(&mut self)
        requires
            old(self).faithful(),
            old(self).connected(),
        ensures
            final(self).follows(*old(self), Op::WakeSender),
    {
        broadcast use crate::shared::journal::group_calls;

        if let Some(held) = &self.held {
            wake(shared(held).sender_waker(), &mut self.journal);
            self.ops = Ghost(self.ops@.push(Op::WakeSender));
        }
    }

    /// Withdraws the waker of the sending task.
    pub(crate) fn withdraw_sender(&mut self)
        requires
            old(self).faithful(),
            old(self).connected(),
        ensures
            final(self).follows(*old(self), Op::TakeSenderWaker),
        opens_invariants none
        no_unwind
    {
        broadcast use crate::shared::journal::group_calls;

        if let Some(held) = &self.held {
            let _waker = take(shared(held).sender_waker(), &mut self.journal);
            self.ops = Ghost(self.ops@.push(Op::TakeSenderWaker));
        }
    }

    /// Stores the waker of the receiving task.
    pub(crate) fn register_receiver(&mut self, waker: &Waker)
        requires
            old(self).faithful(),
            old(self).connected(),
        ensures
            final(self).follows(*old(self), Op::RegisterReceiver(*waker)),
    {
        broadcast use crate::shared::journal::group_calls;

        if let Some(held) = &self.held {
            register(shared(held).receiver_waker(), waker, &mut self.journal);
            self.ops = Ghost(self.ops@.push(Op::RegisterReceiver(*waker)));
        }
    }

    /// Wakes the receiving task.
    pub(crate) fn wake_receiver(&mut self)
        requires
            old(self).faithful(),
            old(self).connected(),
        ensures
            final(self).follows(*old(self), Op::WakeReceiver),
    {
        broadcast use crate::shared::journal::group_calls;

        if let Some(held) = &self.held {
            wake(shared(held).receiver_waker(), &mut self.journal);
            self.ops = Ghost(self.ops@.push(Op::WakeReceiver));
        }
    }

    /// Withdraws the waker of the receiving task.
    pub(crate) fn withdraw_receiver(&mut self)
        requires
            old(self).faithful(),
            old(self).connected(),
        ensures
            final(self).follows(*old(self), Op::TakeReceiverWaker),
        opens_invariants none
        no_unwind
    {
        broadcast use crate::shared::journal::group_calls;

        if let Some(held) = &self.held {
            let _waker = take(shared(held).receiver_waker(), &mut self.journal);
            self.ops = Ghost(self.ops@.push(Op::TakeReceiverWaker));
        }
    }

    /// Closes the session: the end no longer keeps the wakers alive, for it gives
    /// its lock back.
    pub(crate) fn close(self) -> (minutes: Minutes<T>)
        requires
            self.faithful(),
        ensures
            minutes.faithful(),
            minutes.site() == self.site(),
            minutes.ops() == self.ops(),
        opens_invariants none
        no_unwind
    {
        broadcast use crate::shared::journal::group_calls;

        let mut journal = self.journal;
        if let Some(lock) = self.held {
            unlock(Guard::Wakers(lock), &mut journal);
        }
        let minutes = Minutes { journal, ops: self.ops };
        assert(minutes.calls() =~= minutes.site().session_calls(minutes.ops()));
        minutes
    }
}

} // verus!

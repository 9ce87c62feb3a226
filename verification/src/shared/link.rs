//! The connection of one end to what it shares with the other.
//!
//! An end does its operations in a [`Session`], which it opens at its [`Port`],
//! closes, and files in its [`Ledger`].
use crate::shared::exchange::Exchange;
use crate::shared::journal::{Call, Op, Site};
use crate::shared::record::{Desk, Journal, Ledger};
use crate::shared::session::{Minutes, Session};
use crate::shared::signals::{
    answers, describe, joint_value, lock_value, pair, partnered, shows, Inner,
};
use crate::shared::slot::{establish, made_empty};
use std::sync::{Arc, Mutex};
use twinsies::{Joint, JointLock};
use vstd::prelude::*;

verus! {

/// What an end holds of its channel.
#[verifier::reject_recursive_types(T)]
pub struct Port<T> {
    joint: Joint<Inner>,
    exchange: Arc<Mutex<Exchange<T>>>,
    desk: Desk<T>,
}

/// `Joint::lock` gives a lock on the shared value as long as the partner
/// exists. Whether it does, the other end decides. The call is the first entry
/// in a journal, with the joint and what it said, and the ledger has one session
/// more to wait for.
///
/// The function aborts the process once more than `i32::MAX` locks of one pair
/// exist; each end has at most one at a time.
#[verifier::external_body]
fn lock<'j, T>(joint: &'j Joint<Inner>, ledger: &mut Ledger<T>) -> (locked: (
    Option<JointLock<'j, Inner>>,
    Journal<T>,
))
    requires
        old(ledger).site().joint == *joint,
    ensures
        locked.0 matches Some(held) ==> lock_value(held) == joint_value(*joint),
        locked.1.calls() == seq![Call::<T>::Join { joint: *joint, connected: locked.0 is Some }],
        locked.1.site() == old(ledger).site(),
        final(ledger).site() == old(ledger).site(),
        final(ledger).calls() == old(ledger).calls(),
        final(ledger).unfiled() == old(ledger).unfiled() + 1,
    opens_invariants none
    no_unwind
{
    (joint.lock(), Journal::blank())
}

impl<T> Ledger<T> {
    /// Enters what was done in a session.
    pub(crate) fn file(&mut self, minutes: Minutes<T>)
        requires
            minutes.faithful(),
            minutes.site() == old(self).site(),
        ensures
            old(self).site().did(old(self).calls(), minutes.ops(), final(self).calls()),
            final(self).unfiled() == old(self).unfiled() - 1,
            final(self).site() == old(self).site(),
        opens_invariants none
        no_unwind
    {
        self.add(minutes.into_journal());
    }
}

/// The mutex behind a shared reference.
spec fn behind<T>(exchange: Arc<Mutex<Exchange<T>>>) -> Mutex<Exchange<T>> {
    *exchange
}

impl<T> Port<T> {
    /// The desk issues ledgers for the places that the port leads to.
    #[verifier::type_invariant]
    spec fn tied(self) -> bool {
        self.desk.site() == self.site()
    }

    /// The places that the port leads to.
    pub closed spec fn site(self) -> Site<T> {
        Site { joint: self.joint, exchange: *self.exchange }
    }

    /// How many ledgers the port has issued.
    pub closed spec fn issued(self) -> int {
        self.desk.issued()
    }

    /// The ports of the two ends of a new channel.
    pub(crate) fn pair() -> (ends: (Port<T>, Port<T>))
        ensures
            ends.0.site().exchange == ends.1.site().exchange,
            ends.0.site().inner() == ends.1.site().inner(),
            made_empty(ends.0.site().exchange),
            ends.0.site().inner().made_idle(),
            ends.0.issued() == 0,
            ends.1.issued() == 0,
    {
        let ((first, one), (second, two)) = pair(Inner::new());
        let exchange = establish();
        let other = exchange.clone();
        let one = Desk::new(one, Ghost(behind(exchange)));
        let two = Desk::new(two, Ghost(behind(exchange)));
        (
            Port { joint: first, exchange: other, desk: one },
            Port { joint: second, exchange, desk: two },
        )
    }

    /// A new ledger for what is done at the port.
    pub(crate) fn issue(&mut self) -> (ledger: Ledger<T>)
        ensures
            ledger.site() == old(self).site(),
            ledger.calls() == Seq::<Call<T>>::empty(),
            ledger.unfiled() == 0,
            final(self).site() == old(self).site(),
            final(self).issued() == old(self).issued() + 1,
    {
        proof {
            use_type_invariant(&*self);
        }
        self.desk.issue()
    }

    /// Opens a session: asks whether the other end exists, and where it does,
    /// keeps the wakers alive until the session is closed.
    pub(crate) fn open(&self, ledger: &mut Ledger<T>) -> (session: Session<'_, T>)
        requires
            old(ledger).site() == self.site(),
        ensures
            session.faithful(),
            session.site() == self.site(),
            session.ops() == Seq::empty().push(Op::<T>::Lock { connected: session.connected() }),
            final(ledger).site() == old(ledger).site(),
            final(ledger).calls() == old(ledger).calls(),
            final(ledger).unfiled() == old(ledger).unfiled() + 1,
        opens_invariants none
        no_unwind
    {
        broadcast use crate::shared::journal::group_calls;

        let (held, journal) = lock(&self.joint, ledger);
        let ghost op = Op::<T>::Lock { connected: held is Some };
        assert(journal.calls() =~= self.site().all_calls(Seq::empty().push(op)));
        Session::begin(held, &self.exchange, journal)
    }

    /// The other end can be found to be there or not.
    pub open spec fn may_find(self, present: bool) -> bool {
        answers(self.site().joint, present)
    }

    /// Whether the other end is there.
    pub(crate) fn partnered(&self) -> (present: bool)
        ensures
            self.may_find(present),
    {
        partnered(&self.joint)
    }

    /// The joint can appear like this in debug output.
    pub open spec fn may_show(self, text: String) -> bool {
        shows(self.site().joint, text)
    }

    /// How the joint appears in debug output.
    pub(crate) fn describe(&self) -> (text: String)
        ensures
            self.may_show(text),
            text@ == "Joint(<paired>)"@ || text@ == "Joint(<unpaired>)"@,
    {
        describe(&self.joint)
    }
}

} // verus!

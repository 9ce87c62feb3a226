//! The records of what the two ends do.
//!
//! A [`Journal`] has the calls of one session. It is begun by a call of
//! `Joint::lock`, and only the calls themselves write in it. A [`Ledger`] has the
//! calls of all sessions that were filed in it, and knows how many were not. A
//! ledger is issued by the [`Desk`] of an end, which is set up once, under the
//! [`Charter`] that comes with a new joint. None of them takes memory: they exist
//! for the sake of contracts.
use crate::shared::exchange::Exchange;
use crate::shared::journal::{Call, Site};
use crate::shared::signals::Inner;
use std::sync::Mutex;
use twinsies::Joint;
use vstd::prelude::*;

verus! {

/// The calls of one session, in order.
#[verifier::reject_recursive_types(T)]
pub struct Journal<T> {
    site: Ghost<Site<T>>,
    calls: Ghost<Seq<Call<T>>>,
}

/// What was done at the places of one end.
#[verifier::reject_recursive_types(T)]
pub struct Ledger<T> {
    site: Ghost<Site<T>>,
    calls: Ghost<Seq<Call<T>>>,
    unfiled: Ghost<int>,
}

/// Where the ledgers of one end are issued.
#[verifier::reject_recursive_types(T)]
pub struct Desk<T> {
    site: Ghost<Site<T>>,
    issued: Ghost<int>,
}

/// The right to keep records of what is done with one half of a joint. A new
/// joint comes with one for each half.
pub struct Charter {
    joint: Ghost<Joint<Inner>>,
}

impl Charter {
    /// The half of the joint that the records are about.
    pub closed spec fn joint(self) -> Joint<Inner> {
        self.joint@
    }

    /// A charter of which nothing is known.
    pub(super) fn blank() -> Self {
        Charter { joint: Ghost(arbitrary()) }
    }
}

impl<T> Journal<T> {
    /// The places that the calls are made on.
    pub closed spec fn site(self) -> Site<T> {
        self.site@
    }

    /// The calls that were made so far.
    pub closed spec fn calls(self) -> Seq<Call<T>> {
        self.calls@
    }

    /// A journal of which nothing is known.
    pub(super) fn blank() -> Self {
        Journal { site: Ghost(arbitrary()), calls: Ghost(arbitrary()) }
    }
}

impl<T> Ledger<T> {
    /// The places that the ledger is about.
    pub closed spec fn site(self) -> Site<T> {
        self.site@
    }

    /// The calls of all sessions that were filed.
    pub closed spec fn calls(self) -> Seq<Call<T>> {
        self.calls@
    }

    /// How many sessions were opened and not filed.
    pub closed spec fn unfiled(self) -> int {
        self.unfiled@
    }

    /// Adds the journal of a session that is over.
    pub(super) fn add(&mut self, journal: Journal<T>)
        requires
            journal.site() == old(self).site(),
        ensures
            final(self).calls() == old(self).calls() + journal.calls(),
            final(self).unfiled() == old(self).unfiled() - 1,
            final(self).site() == old(self).site(),
        opens_invariants none
        no_unwind
    {
        self.calls = Ghost(self.calls@ + journal.calls@);
        self.unfiled = Ghost(self.unfiled@ - 1);
    }
}

impl<T> Desk<T> {
    /// The places that the ledgers are about.
    pub closed spec fn site(self) -> Site<T> {
        self.site@
    }

    /// How many ledgers were issued.
    pub closed spec fn issued(self) -> int {
        self.issued@
    }

    /// A new desk, for what is done with this half of the joint and at this
    /// exchange.
    pub(super) fn new(charter: Charter, Ghost(exchange): Ghost<Mutex<Exchange<T>>>) -> (desk: Self)
        ensures
            desk.site() == (Site { joint: charter.joint(), exchange }),
            desk.issued() == 0,
    {
        let ghost joint = charter.joint@;
        Desk { site: Ghost(Site { joint, exchange }), issued: Ghost(0) }
    }

    /// A new ledger.
    pub(super) fn issue(&mut self) -> (ledger: Ledger<T>)
        ensures
            ledger.site() == old(self).site(),
            ledger.calls() == Seq::<Call<T>>::empty(),
            ledger.unfiled() == 0,
            final(self).site() == old(self).site(),
            final(self).issued() == old(self).issued() + 1,
        opens_invariants none
        no_unwind
    {
        self.issued = Ghost(self.issued@ + 1);
        Ledger { site: self.site, calls: Ghost(Seq::empty()), unfiled: Ghost(0) }
    }
}

/// A charter can be about any half of a joint.
pub proof fn law_charter_is_free(joint: Joint<Inner>)
    ensures
        exists|charter: Charter| #[trigger] charter.joint() == joint,
{
    let charter = Charter { joint: Ghost(joint) };
    assert(charter.joint() == joint);
}

/// A journal can have any calls at any site: what it says is up to the calls.
pub proof fn law_journal_is_free<T>(site: Site<T>, calls: Seq<Call<T>>)
    ensures
        exists|journal: Journal<T>| #[trigger]
            journal.calls() == calls && journal.site() == site,
{
    let journal = Journal { site: Ghost(site), calls: Ghost(calls) };
    assert(journal.calls() == calls && journal.site() == site);
}

/// A ledger can have any calls at any site, with any number of sessions that are
/// missing in it.
pub proof fn law_ledger_is_free<T>(site: Site<T>, calls: Seq<Call<T>>, unfiled: int)
    ensures
        exists|ledger: Ledger<T>| #[trigger]
            ledger.calls() == calls && ledger.site() == site && ledger.unfiled() == unfiled,
{
    let ledger = Ledger { site: Ghost(site), calls: Ghost(calls), unfiled: Ghost(unfiled) };
    assert(ledger.calls() == calls && ledger.site() == site && ledger.unfiled() == unfiled);
}

} // verus!

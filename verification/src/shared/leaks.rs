//! Which parcels were leaked.
use crate::shared::exchange::Parcel;
use vstd::prelude::*;

verus! {

/// The parcels of leaked sends that were found in a slot, and that were leaked
/// for good. It takes no memory.
#[verifier::reject_recursive_types(T)]
pub struct Leaks<T> {
    parcels: Ghost<Seq<Option<Parcel<T>>>>,
}

impl<T> View for Leaks<T> {
    type V = Seq<Option<Parcel<T>>>;

    /// What was leaked, in order.
    closed spec fn view(&self) -> Seq<Option<Parcel<T>>> {
        self.parcels@
    }
}

impl<T> Leaks<T> {
    /// Nothing was leaked so far.
    pub(crate) fn none() -> (leaks: Self)
        ensures
            leaks@ == Seq::<Option<Parcel<T>>>::empty(),
        opens_invariants none
        no_unwind
    {
        Leaks { parcels: Ghost(Seq::empty()) }
    }
}

/// Any parcels can have been leaked.
pub proof fn law_leaks_are_free<T>(parcels: Seq<Option<Parcel<T>>>)
    ensures
        exists|leaks: Leaks<T>| leaks@ == parcels,
{
    let leaks = Leaks { parcels: Ghost(parcels) };
    assert(leaks@ == parcels);
}

} // verus!

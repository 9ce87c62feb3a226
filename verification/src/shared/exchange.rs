//! The slot through which items change hands.
//!
//! A send puts its item into a [`Parcel`] and lends the parcel to the slot. The
//! receiver detaches the parcel, empties it and puts it back; the empty parcel
//! is the acknowledgement that the send is waiting for. Whoever holds the
//! parcel is the only one who can reach the item.
use crate::shared::leaks::Leaks;
use vstd::prelude::*;

verus! {

/// An item under way, marked with the number of the send that it belongs to.
///
/// A parcel without an item has been emptied by the receiver.
#[derive(Debug, PartialEq, Eq)]
pub struct Parcel<T> {
    /// The number of the send.
    pub ticket: u64,
    /// The item, until the receiver takes it.
    pub item: Option<T>,
}

/// What a send finds when it asks for its parcel back.
#[derive(Debug, PartialEq, Eq)]
pub enum Reclaim<T> {
    /// The parcel was in the slot and now belongs to the send again. This is
    /// what it held.
    Reclaimed(Option<T>),
    /// The slot is empty: the receiver is working with the parcel.
    InUse,
    /// The slot holds the parcel of another send.
    Foreign,
}

/// What became of an emptied parcel that the receiver wants to put back.
#[derive(Clone, Copy, Debug, PartialEq, Eq)]
pub enum Restore {
    /// The slot was still empty; it holds the parcel again.
    Restored,
    /// Another send has put its parcel into the slot meanwhile. The emptied
    /// parcel, for which nobody is waiting, is gone.
    Superseded,
    /// A parcel of the same send is in the slot already.
    Duplicate,
}

/// What a send with this ticket gets back from the slot, and what it leaves.
pub open spec fn reclaimed<T>(slot: Option<Parcel<T>>, ticket: u64) -> (
    Reclaim<T>,
    Option<Parcel<T>>,
) {
    match slot {
        Some(parcel) => if parcel.ticket == ticket {
            (Reclaim::Reclaimed(parcel.item), None)
        } else {
            (Reclaim::Foreign, slot)
        },
        None => (Reclaim::InUse, None),
    }
}

/// What happens when the emptied parcel with this ticket is put back, and what
/// the slot holds then.
pub open spec fn restored<T>(slot: Option<Parcel<T>>, ticket: u64) -> (Restore, Option<Parcel<T>>) {
    match slot {
        Some(parcel) => if parcel.ticket == ticket {
            (Restore::Duplicate, slot)
        } else {
            (Restore::Superseded, slot)
        },
        None => (Restore::Restored, Some(Parcel { ticket, item: None })),
    }
}

/// The slot between the two ends, which holds at most one parcel.
#[verifier::reject_recursive_types(T)]
pub struct Exchange<T> {
    slot: Option<Parcel<T>>,
    leaks: Leaks<T>,
}

impl<T> View for Exchange<T> {
    type V = Option<Parcel<T>>;

    closed spec fn view(&self) -> Option<Parcel<T>> {
        self.slot
    }
}

impl<T> Exchange<T> {
    /// An exchange with nothing in its slot.
    pub fn empty() -> (exchange: Self)
        ensures
            exchange@ == None::<Parcel<T>>,
    {
        Exchange { slot: None, leaks: Leaks::none() }
    }

    /// What was leaked when the exchange went away.
    pub closed spec fn leaked(self) -> Seq<Option<Parcel<T>>> {
        self.leaks@
    }

    /// Puts `next` into the slot and hands out what was there.
    pub fn swap(&mut self, next: Option<Parcel<T>>) -> (previous: Option<Parcel<T>>)
        ensures
            previous == old(self)@,
            final(self)@ == next,
    {
        let mut parcel = next;
        std::mem::swap(&mut self.slot, &mut parcel);
        parcel
    }

    /// The send with this ticket asks for its parcel, to regain exclusive
    /// access to its item. A slot that does not hold it stays as it is.
    pub fn reclaim(&mut self, ticket: u64) -> (found: Reclaim<T>)
        ensures
            (found, final(self)@) == reclaimed(old(self)@, ticket),
        opens_invariants none
        no_unwind
    {
        let mut held = None;
        std::mem::swap(&mut self.slot, &mut held);
        match held {
            Some(parcel) => {
                if parcel.ticket == ticket {
                    Reclaim::Reclaimed(parcel.item)
                } else {
                    self.slot = Some(parcel);
                    Reclaim::Foreign
                }
            },
            None => Reclaim::InUse,
        }
    }

    /// The receiver returns the parcel with this ticket, which it has emptied.
    /// A slot that holds a parcel already keeps it.
    pub fn restore(&mut self, ticket: u64) -> (outcome: Restore)
        ensures
            (outcome, final(self)@) == restored(old(self)@, ticket),
    {
        let outcome = match &self.slot {
            Some(parcel) => {
                if parcel.ticket == ticket {
                    Restore::Duplicate
                } else {
                    Restore::Superseded
                }
            },
            None => Restore::Restored,
        };
        if let Restore::Restored = outcome {
            self.slot = Some(Parcel { ticket, item: None });
        }
        outcome
    }
}

impl<T> Drop for Exchange<T> {
    /// A parcel that is still in the slot belongs to a send that was leaked,
    /// and its item stays leaked.
    fn drop(&mut self)
        ensures
            final(self)@ == None::<Parcel<T>>,
            final(self).leaked() == old(self).leaked().push(old(self)@),
        opens_invariants none
        no_unwind
    {
        let mut leaked = None;
        std::mem::swap(&mut self.slot, &mut leaked);
        leak(leaked, &mut self.leaks);
    }
}

/// `std::mem::forget` takes the parcel and does not run its destructor. The
/// parcel is entered among those that were leaked.
#[verifier::external_body]
pub(crate) fn leak<T>(parcel: Option<Parcel<T>>, leaks: &mut Leaks<T>)
    ensures
        final(leaks)@ == old(leaks)@.push(parcel),
    opens_invariants none
    no_unwind
{
    std::mem::forget(parcel)
}

} // verus!

//! What an end keeps for itself for a while: the locked exchange, or the lock on
//! the wakers.
use crate::shared::exchange::{Exchange, Parcel};
use crate::shared::signals::Inner;
use std::sync::{Mutex, MutexGuard};
use twinsies::JointLock;
use vstd::prelude::*;

verus! {

/// A locked exchange. What is known of it comes from the calls on its mutex.
#[verifier::reject_recursive_types(T)]
pub struct Held<'a, T> {
    guard: MutexGuard<'a, Exchange<T>>,
    place: Ghost<Mutex<Exchange<T>>>,
    before: Ghost<Option<Parcel<T>>>,
    value: Ghost<Exchange<T>>,
}

impl<'a, T> Held<'a, T> {
    /// The mutex that is locked.
    pub closed spec fn place(self) -> Mutex<Exchange<T>> {
        self.place@
    }

    /// What the slot held when the mutex was locked.
    pub closed spec fn before(self) -> Option<Parcel<T>> {
        self.before@
    }

    /// The exchange behind the guard.
    pub closed spec fn value(self) -> Exchange<T> {
        self.value@
    }

    /// An exchange that is locked by this guard, of which nothing else is known.
    pub(super) fn new(guard: MutexGuard<'a, Exchange<T>>) -> Self {
        Held {
            guard,
            place: Ghost(arbitrary()),
            before: Ghost(arbitrary()),
            value: Ghost(arbitrary()),
        }
    }

    /// The guard. Whoever gets it may change what is behind it, so that nothing
    /// is known of it afterwards.
    pub(super) fn guard(&mut self) -> &mut MutexGuard<'a, Exchange<T>> {
        self.place = Ghost(arbitrary());
        self.before = Ghost(arbitrary());
        self.value = Ghost(arbitrary());
        &mut self.guard
    }
}

/// What is behind a guard can be anything, whichever mutex is locked and whatever
/// its slot held before.
pub proof fn law_held_is_free<T>(
    held: Held<'_, T>,
    place: Mutex<Exchange<T>>,
    before: Option<Parcel<T>>,
    value: Exchange<T>,
)
    ensures
        exists|other: Held<'_, T>| #[trigger]
            other.value() == value && other.before() == before && other.place() == place,
{
    let other = Held {
        guard: held.guard,
        place: Ghost(place),
        before: Ghost(before),
        value: Ghost(value),
    };
    assert(other.value() == value && other.before() == before && other.place() == place);
}

/// What an end gives back when it is done.
#[verifier::reject_recursive_types(T)]
pub enum Guard<'a, T> {
    /// The locked exchange.
    Exchange(Held<'a, T>),
    /// The lock on the wakers.
    Wakers(JointLock<'a, Inner>),
}

} // verus!

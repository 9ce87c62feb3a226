//! The exchange as both ends reach it: every operation on it is atomic.
use crate::shared::exchange::{reclaimed, restored, Exchange, Parcel, Reclaim, Restore};
use crate::shared::held::{Guard, Held};
use crate::shared::journal::{outside, Call};
use crate::shared::record::Journal;
use crate::shared::signals::lock_value;
use std::sync::{Arc, Mutex, MutexGuard, PoisonError};
use vstd::prelude::*;

verus! {

/// `std::sync::Mutex`. Nothing is known of what a mutex holds: other threads
/// change it.
#[verifier::external_type_specification]
#[verifier::external_body]
#[verifier::reject_recursive_types(T)]
pub struct ExMutex<T: ?Sized>(Mutex<T>);

/// `std::sync::MutexGuard`, the access that one thread has to what a mutex
/// holds.
#[verifier::external_type_specification]
#[verifier::external_body]
#[verifier::reject_recursive_types(T)]
pub struct ExMutexGuard<'a, T: ?Sized + 'a>(MutexGuard<'a, T>);

/// `std::sync::Mutex::new` makes an unlocked mutex. Nothing is claimed of it.
pub assume_specification<T>[ Mutex::<T>::new ](value: T) -> (mutex: Mutex<T>)
;

/// `Mutex::new` was called with an exchange whose slot is empty, and this is a
/// mutex that it can have given.
pub open spec fn made_empty<T>(place: Mutex<Exchange<T>>) -> bool {
    exists|exchange: Exchange<T>|
        exchange@ is None && #[trigger] call_ensures(
            Mutex::<Exchange<T>>::new,
            (exchange,),
            place,
        )
}

/// A new exchange, whose slot is empty.
pub fn establish<T>() -> (place: Arc<Mutex<Exchange<T>>>)
    ensures
        made_empty(*place),
{
    let exchange = Exchange::empty();
    let ghost empty = exchange;
    let place = Mutex::new(exchange);
    assert(empty@ is None && call_ensures(Mutex::<Exchange<T>>::new, (empty,), place));
    Arc::new(place)
}

/// `std::sync::Mutex::lock` waits until no other thread holds the mutex and
/// then gives access to the value, also where a thread panicked while it held
/// the mutex. The call is entered in the journal. Nothing is claimed of the
/// value: other threads decide what it is.
///
/// A thread that holds the mutex must not lock it again, so the last entry must
/// not be that it was locked. No code of the item's type runs while it is.
#[verifier::external_body]
fn lock<'a, T>(mutex: &'a Mutex<Exchange<T>>, journal: &mut Journal<T>) -> (held: Held<'a, T>)
    requires
        old(journal).site().exchange == *mutex,
        outside(old(journal).calls()),
    ensures
        held.place() == *mutex,
        held.before() == held.value()@,
        final(journal).calls() == old(journal).calls().push(Call::Enter { exchange: *mutex }),
        final(journal).site() == old(journal).site(),
    opens_invariants none
    no_unwind
{
    Held::new(mutex.lock().unwrap_or_else(PoisonError::into_inner))
}

/// `std::sync::MutexGuard::deref_mut` lends the value behind the guard: what is
/// written through the reference is what is behind the guard afterwards.
#[verifier::external_body]
fn contents<'g, T>(held: &'g mut Held<'_, T>) -> (value: &'g mut Exchange<T>)
    ensures
        *value == old(held).value(),
        final(held).value() == *final(value),
        final(held).place() == old(held).place(),
        final(held).before() == old(held).before(),
    opens_invariants none
    no_unwind
{
    held.guard()
}

/// `std::mem::drop` on a guard. Dropping a `std::sync::MutexGuard` unlocks the
/// mutex, with the value that is behind the guard; what the slot held before and
/// holds now is entered in the journal. Dropping a `twinsies::JointLock` gives the
/// lock back, so that it keeps the shared value alive no longer; that is entered
/// too.
#[verifier::external_body]
pub(super) fn unlock<T>(guard: Guard<'_, T>, journal: &mut Journal<T>)
    requires
        guard matches Guard::Wakers(lock) ==> lock_value(lock) == old(journal).site().inner(),
    ensures
        final(journal).calls() == old(journal).calls().push(
            match guard {
                Guard::Exchange(held) => Call::Leave {
                    exchange: held.place(),
                    before: held.before(),
                    after: held.value()@,
                },
                Guard::Wakers(_) => Call::Part { joint: old(journal).site().joint },
            },
        ),
        final(journal).site() == old(journal).site(),
    opens_invariants none
    no_unwind
{
    drop(guard)
}

/// The calls of one visit to the exchange.
pub open spec fn visit_calls<T>(
    place: Mutex<Exchange<T>>,
    before: Option<Parcel<T>>,
    after: Option<Parcel<T>>,
) -> Seq<Call<T>> {
    seq![Call::Enter { exchange: place }, Call::Leave { exchange: place, before, after }]
}

/// [`Exchange::swap`] on the shared exchange.
pub fn swap<T>(
    place: &Mutex<Exchange<T>>,
    next: Option<Parcel<T>>,
    journal: &mut Journal<T>,
) -> (previous: Option<Parcel<T>>)
    requires
        old(journal).site().exchange == *place,
        outside(old(journal).calls()),
    ensures
        final(journal).calls() == old(journal).calls() + visit_calls(*place, previous, next),
        final(journal).site() == old(journal).site(),
{
    let mut held = lock(place, journal);
    let previous = contents(&mut held).swap(next);
    unlock(Guard::Exchange(held), journal);
    previous
}

/// [`Exchange::reclaim`] on the shared exchange. The visit found `before` in the
/// slot.
pub fn reclaim<T>(place: &Mutex<Exchange<T>>, ticket: u64, journal: &mut Journal<T>) -> (result: (
    Reclaim<T>,
    Ghost<Option<Parcel<T>>>,
))
    requires
        old(journal).site().exchange == *place,
        outside(old(journal).calls()),
    ensures
        result.0 == reclaimed(result.1@, ticket).0,
        final(journal).site() == old(journal).site(),
        final(journal).calls() == old(journal).calls() + visit_calls(
            *place,
            result.1@,
            reclaimed(result.1@, ticket).1,
        ),
    opens_invariants none
    no_unwind
{
    let mut held = lock(place, journal);
    let ghost before = held.before();
    let found = contents(&mut held).reclaim(ticket);
    unlock(Guard::Exchange(held), journal);
    (found, Ghost(before))
}

/// [`Exchange::restore`] on the shared exchange. The visit found `before` in the
/// slot.
pub fn restore<T>(place: &Mutex<Exchange<T>>, ticket: u64, journal: &mut Journal<T>) -> (result: (
    Restore,
    Ghost<Option<Parcel<T>>>,
))
    requires
        old(journal).site().exchange == *place,
        outside(old(journal).calls()),
    ensures
        result.0 == restored(result.1@, ticket).0,
        final(journal).site() == old(journal).site(),
        final(journal).calls() == old(journal).calls() + visit_calls(
            *place,
            result.1@,
            restored(result.1@, ticket).1,
        ),
{
    let mut held = lock(place, journal);
    let ghost before = held.before();
    let outcome = contents(&mut held).restore(ticket);
    unlock(Guard::Exchange(held), journal);
    (outcome, Ghost(before))
}

} // verus!

//! How the two ends wake each other and learn that the other one is gone.
use crate::shared::farewell::{lemma_concerns, prepare, Farewell};
use crate::shared::journal::Call;
use crate::shared::record::{Charter, Journal};
use futures::task::AtomicWaker;
use std::task::Waker;
use twinsies::{Joint, JointLock};
use vstd::prelude::*;

verus! {

/// `std::task::Waker`, the handle by which a task is woken.
#[verifier::external_type_specification]
#[verifier::external_body]
pub struct ExWaker(Waker);

/// `futures::task::AtomicWaker`, a place for one waker that both ends reach.
#[verifier::external_type_specification]
#[verifier::external_body]
pub struct ExAtomicWaker(AtomicWaker);

/// `twinsies::Joint`, one of two owners of a value that is dropped as soon as
/// either of them is.
#[verifier::external_type_specification]
#[verifier::external_body]
#[verifier::reject_recursive_types(T)]
pub struct ExJoint<T>(Joint<T>);

/// `twinsies::JointLock`, which keeps the value of a `Joint` alive.
#[verifier::external_type_specification]
#[verifier::external_body]
#[verifier::reject_recursive_types(T)]
pub struct ExJointLock<'a, T>(JointLock<'a, T>);

/// `AtomicWaker::new` makes a place in which no waker is stored. What is stored
/// is inside the `AtomicWaker`, where both ends change it, so no clause states
/// it.
pub assume_specification[ AtomicWaker::new ]() -> (place: AtomicWaker)
;

/// `AtomicWaker::register` stores the waker for the next `wake`, in place of
/// the one before; where a `wake` runs at the same time it wakes the task
/// itself. The effect is inside the `AtomicWaker`, so no clause states it. The
/// call is entered in the journal, with the place and the waker.
#[verifier::external_body]
pub(super) fn register<T>(place: &AtomicWaker, waker: &Waker, journal: &mut Journal<T>)
    requires
        old(journal).site().reaches(*place),
    ensures
        final(journal).calls() == old(journal).calls().push(
            Call::Register { place: *place, waker: *waker },
        ),
        final(journal).site() == old(journal).site(),
{
    place.register(waker)
}

/// `AtomicWaker::wake` removes the waker that was stored last and wakes its
/// task; without a waker it does nothing. The effect is inside the
/// `AtomicWaker`, so no clause states it. The call is entered in the journal,
/// with the place.
#[verifier::external_body]
pub(super) fn wake<T>(place: &AtomicWaker, journal: &mut Journal<T>)
    requires
        old(journal).site().reaches(*place),
    ensures
        final(journal).calls() == old(journal).calls().push(Call::Wake { place: *place }),
        final(journal).site() == old(journal).site(),
{
    place.wake()
}

/// `AtomicWaker::take` removes the waker that was stored last and hands it out.
/// Whether there is one, the other end may decide. The call is entered in the
/// journal, with the place.
#[verifier::external_body]
pub(super) fn take<T>(place: &AtomicWaker, journal: &mut Journal<T>) -> (waker: Option<Waker>)
    requires
        old(journal).site().reaches(*place),
    ensures
        final(journal).calls() == old(journal).calls().push(Call::Take { place: *place }),
        final(journal).site() == old(journal).site(),
    opens_invariants none
    no_unwind
{
    place.take()
}

/// `AtomicWaker::wake` in the destructor of [`Inner`], which enters the place.
///
/// Verus takes a destructor only if it does not unwind. `AtomicWaker::wake` runs
/// the code of the stored waker, so that holds where waking the task does not
/// unwind. Where it does, the panic leaves the destructor, and what the
/// destructor's contract says does not come about.
#[verifier::external_body]
fn wake_at_last(place: &AtomicWaker, farewell: &mut Farewell)
    requires
        old(farewell).concerns(*place),
    ensures
        final(farewell)@ == old(farewell)@.push(*place),
        forall|other: AtomicWaker| #[trigger]
            final(farewell).concerns(other) == old(farewell).concerns(other),
        forall|sender: AtomicWaker, receiver: AtomicWaker| #[trigger]
            final(farewell).is_for(sender, receiver) == old(farewell).is_for(sender, receiver),
    opens_invariants none
    no_unwind
{
    place.wake()
}

/// What the two ends share besides the exchange.
pub struct Inner {
    /// The waker of the task that sends. It is signalled when the receiver
    /// takes an item, or disconnects.
    sender_waker: AtomicWaker,
    /// The waker of the task that receives. It is signalled when the sender
    /// has an item to send, or disconnects.
    receiver_waker: AtomicWaker,
    /// Who was told that one end has disconnected.
    farewell: Farewell,
}

impl Inner {
    /// The farewell is for the tasks of the two places.
    #[verifier::type_invariant]
    spec fn tied(self) -> bool {
        self.farewell.is_for(self.sender_waker, self.receiver_waker)
    }

    /// The place for the waker of the task that sends.
    pub closed spec fn sender_place(self) -> AtomicWaker {
        self.sender_waker
    }

    /// The place for the waker of the task that receives.
    pub closed spec fn receiver_place(self) -> AtomicWaker {
        self.receiver_waker
    }

    /// The places whose tasks were told that one end has disconnected, in order.
    pub closed spec fn farewell(self) -> Seq<AtomicWaker> {
        self.farewell@
    }

    /// Both places are ones that `AtomicWaker::new` can have made, and nobody
    /// was told of a disconnection.
    pub open spec fn made_idle(self) -> bool {
        &&& call_ensures(AtomicWaker::new, (), self.sender_place())
        &&& call_ensures(AtomicWaker::new, (), self.receiver_place())
        &&& self.farewell() == Seq::<AtomicWaker>::empty()
    }

    /// No task is waiting yet.
    pub(crate) fn new() -> (inner: Inner)
        ensures
            inner.made_idle(),
    {
        let (sender_waker, receiver_waker, farewell) = prepare();
        Inner { sender_waker, receiver_waker, farewell }
    }

    /// The place for the waker of the task that sends.
    pub(super) fn sender_waker(&self) -> (place: &AtomicWaker)
        ensures
            *place == self.sender_place(),
        opens_invariants none
        no_unwind
    {
        &self.sender_waker
    }

    /// The place for the waker of the task that receives.
    pub(super) fn receiver_waker(&self) -> (place: &AtomicWaker)
        ensures
            *place == self.receiver_place(),
        opens_invariants none
        no_unwind
    {
        &self.receiver_waker
    }
}

/// The two places are separate parts of what is shared: whatever the one is, the
/// other one can be anything, and so can the farewell.
pub proof fn law_places_are_separate(sender: AtomicWaker, receiver: AtomicWaker, told: Farewell)
    ensures
        exists|inner: Inner| #[trigger]
            inner.sender_place() == sender && inner.receiver_place() == receiver
                && inner.farewell() == told@,
{
    let inner = Inner { sender_waker: sender, receiver_waker: receiver, farewell: told };
    assert(inner.sender_place() == sender && inner.receiver_place() == receiver
        && inner.farewell() == told@);
}

impl Drop for Inner {
    /// One end has disconnected: inform both (though one of them, of course, is
    /// being dropped anyway).
    ///
    /// That the destructor does not unwind rests on the wakers: where waking one
    /// of the two tasks panics, so does the destructor, and a task whose turn
    /// has not come is not woken.
    fn drop(&mut self)
        ensures
            final(self).farewell() == old(self).farewell().push(old(self).sender_place()).push(
                old(self).receiver_place(),
            ),
            final(self).sender_place() == old(self).sender_place(),
            final(self).receiver_place() == old(self).receiver_place(),
        opens_invariants none
        no_unwind
    {
        proof {
            use_type_invariant(&*self);
            lemma_concerns(self.farewell, self.sender_waker, self.receiver_waker);
        }
        wake_at_last(&self.sender_waker, &mut self.farewell);
        wake_at_last(&self.receiver_waker, &mut self.farewell);
    }
}

/// The value that a `Joint` shares with its partner.
pub uninterp spec fn joint_value(joint: Joint<Inner>) -> Inner;

/// The value that a `JointLock` keeps alive.
pub uninterp spec fn lock_value(lock: JointLock<'_, Inner>) -> Inner;

/// `Joint::new` makes two owners of one value. Each of them comes with the
/// charter for the records about it.
#[verifier::external_body]
pub(super) fn pair(inner: Inner) -> (ends: ((Joint<Inner>, Charter), (Joint<Inner>, Charter)))
    ensures
        joint_value(ends.0.0) == inner,
        joint_value(ends.1.0) == inner,
        ends.0.1.joint() == ends.0.0,
        ends.1.1.joint() == ends.1.0,
{
    let (first, second) = Joint::new(inner);
    ((first, Charter::blank()), (second, Charter::blank()))
}

/// `JointLock::deref` is a reference to the locked value.
#[verifier::external_body]
pub(super) fn shared<'a>(lock: &'a JointLock<'_, Inner>) -> (inner: &'a Inner)
    ensures
        *inner == lock_value(*lock),
    opens_invariants none
    no_unwind
{
    lock
}

/// The text that `Joint`'s implementation of `std::fmt::Debug` writes: whether
/// the partner exists. The other end decides that.
#[verifier::external_body]
pub fn debug_text(joint: &Joint<Inner>) -> (text: String)
    ensures
        text@ == "Joint(<paired>)"@ || text@ == "Joint(<unpaired>)"@,
{
    format!("{:?}", joint)
}

/// `Joint::alive` tells whether the partner exists. The other end decides.
pub assume_specification<T>[ Joint::<T>::alive ](joint: &Joint<T>) -> (alive: bool)
;

/// `Joint::alive` can answer this when it is asked about the joint.
pub open spec fn answers(joint: Joint<Inner>, alive: bool) -> bool {
    call_ensures(Joint::<Inner>::alive, (&joint,), alive)
}

/// Whether the partner exists.
pub fn partnered(joint: &Joint<Inner>) -> (alive: bool)
    ensures
        answers(*joint, alive),
{
    joint.alive()
}

/// The debug output of the joint can be this text.
pub open spec fn shows(joint: Joint<Inner>, text: String) -> bool {
    call_ensures(debug_text, (&joint,), text)
}

/// The debug output of the joint.
pub(crate) fn describe(joint: &Joint<Inner>) -> (text: String)
    ensures
        shows(*joint, text),
        text@ == "Joint(<paired>)"@ || text@ == "Joint(<unpaired>)"@,
{
    debug_text(joint)
}

} // verus!

//! What one end does to what it shares with the other.
use crate::shared::exchange::{Exchange, Parcel};
use crate::shared::signals::{joint_value, Inner};
use futures::task::AtomicWaker;
use std::sync::Mutex;
use std::task::Waker;
use twinsies::Joint;
use vstd::prelude::*;

verus! {

/// One call into the outside world, with the place that it was made on and what
/// came back.
#[verifier::reject_recursive_types(T)]
pub enum Call<T> {
    /// `Joint::lock`; the shared value was there or not.
    Join { joint: Joint<Inner>, connected: bool },
    /// `Mutex::lock`.
    Enter { exchange: Mutex<Exchange<T>> },
    /// The guard of the mutex was dropped. The slot held `before` when the mutex
    /// was locked, and `after` when it was unlocked.
    Leave { exchange: Mutex<Exchange<T>>, before: Option<Parcel<T>>, after: Option<Parcel<T>> },
    /// `AtomicWaker::register`.
    Register { place: AtomicWaker, waker: Waker },
    /// `AtomicWaker::wake`.
    Wake { place: AtomicWaker },
    /// `AtomicWaker::take`.
    Take { place: AtomicWaker },
    /// The lock that `Joint::lock` has given was dropped.
    Part { joint: Joint<Inner> },
}

/// The exchange is not locked after these calls.
pub open spec fn outside<T>(calls: Seq<Call<T>>) -> bool {
    calls.len() > 0 ==> !(calls.last() is Enter)
}

/// One atomic operation of an end, with what came back.
pub enum Op<T> {
    /// Asks whether the other end exists, and keeps the wakers alive if so.
    Lock { connected: bool },
    /// Finds `before` in the slot and leaves `after` there.
    Visit { before: Option<Parcel<T>>, after: Option<Parcel<T>> },
    /// Stores the waker of the sending task.
    RegisterSender(Waker),
    /// Wakes the sending task.
    WakeSender,
    /// Withdraws the waker of the sending task.
    TakeSenderWaker,
    /// Stores the waker of the receiving task.
    RegisterReceiver(Waker),
    /// Wakes the receiving task.
    WakeReceiver,
    /// Withdraws the waker of the receiving task.
    TakeReceiverWaker,
}

/// The places that one end of a channel reaches: its half of the joint, which
/// leads to the wakers, and the exchange.
#[verifier::reject_recursive_types(T)]
pub struct Site<T> {
    /// The end's half of the joint.
    pub joint: Joint<Inner>,
    /// The exchange.
    pub exchange: Mutex<Exchange<T>>,
}

impl<T> Site<T> {
    /// The wakers that the end reaches.
    pub open spec fn inner(self) -> Inner {
        joint_value(self.joint)
    }

    /// The end reaches this place for a waker.
    pub open spec fn reaches(self, place: AtomicWaker) -> bool {
        place == self.inner().sender_place() || place == self.inner().receiver_place()
    }

    /// The calls that an operation consists of at this site.
    pub open spec fn calls(self, op: Op<T>) -> Seq<Call<T>> {
        match op {
            Op::Lock { connected } => seq![Call::Join { joint: self.joint, connected }],
            Op::Visit { before, after } => seq![
                Call::Enter { exchange: self.exchange },
                Call::Leave { exchange: self.exchange, before, after },
            ],
            Op::RegisterSender(waker) => seq![
                Call::Register { place: self.inner().sender_place(), waker },
            ],
            Op::WakeSender => seq![Call::Wake { place: self.inner().sender_place() }],
            Op::TakeSenderWaker => seq![Call::Take { place: self.inner().sender_place() }],
            Op::RegisterReceiver(waker) => seq![
                Call::Register { place: self.inner().receiver_place(), waker },
            ],
            Op::WakeReceiver => seq![Call::Wake { place: self.inner().receiver_place() }],
            Op::TakeReceiverWaker => seq![Call::Take { place: self.inner().receiver_place() }],
        }
    }

    /// The calls that a sequence of operations consists of at this site.
    pub open spec fn all_calls(self, ops: Seq<Op<T>>) -> Seq<Call<T>>
        decreases ops.len(),
    {
        if ops.len() == 0 {
            Seq::empty()
        } else {
            self.all_calls(ops.drop_last()) + self.calls(ops.last())
        }
    }

    /// The calls by which a session ends that has done these operations: where
    /// it has got a lock, it gives the lock back.
    pub open spec fn closing(self, ops: Seq<Op<T>>) -> Seq<Call<T>> {
        if ops.len() > 0 && ops[0] == (Op::<T>::Lock { connected: true }) {
            seq![Call::Part { joint: self.joint }]
        } else {
            Seq::empty()
        }
    }

    /// The calls of a session with these operations, at this site.
    pub open spec fn session_calls(self, ops: Seq<Op<T>>) -> Seq<Call<T>> {
        self.all_calls(ops) + self.closing(ops)
    }

    /// Between the earlier and the later state of a journal the end has done
    /// these operations here, in one session if there are any, and nothing else.
    pub open spec fn did(
        self,
        earlier: Seq<Call<T>>,
        ops: Seq<Op<T>>,
        later: Seq<Call<T>>,
    ) -> bool {
        later == earlier + self.session_calls(ops)
    }
}

/// The calls of one more operation come after those of the operations before.
pub broadcast proof fn lemma_all_calls_push<T>(site: Site<T>, ops: Seq<Op<T>>, op: Op<T>)
    ensures
        #[trigger] site.all_calls(ops.push(op)) == site.all_calls(ops) + site.calls(op),
{
    assert(ops.push(op).drop_last() =~= ops);
}

/// After whole operations the exchange is not locked.
pub proof fn lemma_outside<T>(site: Site<T>, ops: Seq<Op<T>>)
    ensures
        outside(site.all_calls(ops)),
{
    if ops.len() > 0 {
        let last = site.calls(ops.last());
        assert(last.len() > 0 && !(last.last() is Enter));
        assert(site.all_calls(ops).last() == last.last());
    }
}

/// One more entry is a sequence of one entry behind the others.
pub broadcast proof fn lemma_one_call<T>(calls: Seq<Call<T>>, call: Call<T>)
    ensures
        #[trigger] calls.push(call) == calls + seq![call],
{
    assert(calls.push(call) =~= calls + seq![call]);
}

pub broadcast group group_calls {
    lemma_all_calls_push,
    lemma_one_call,
}

} // verus!

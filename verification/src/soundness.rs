//! What holds of a channel after every schedule.
use crate::receiving::RecvStage;
use crate::sending::{ItemState, ReleaseStage, SendStage};
use crate::shared::journal::Op;
use crate::system::{Event, Fate, ReceiverState, SenderState, System, WakerState};
use std::task::Waker;
use vstd::prelude::*;

verus! {

impl<T> SenderState<T> {
    /// The item that the send has in its hands.
    pub open spec fn holding(self) -> Option<T> {
        match self {
            SenderState::Resting { item: ItemState::Held(item), waiting: _ } => Some(item),
            SenderState::Polling { stage: SendStage::Start(ItemState::Held(item)), waker: _ } => {
                Some(item)
            },
            SenderState::Polling { stage: SendStage::Registering(item), waker: _ } => item,
            SenderState::Polling { stage: SendStage::Publishing(item), waker: _ } => item,
            _ => None,
        }
    }

    /// The send has lent its parcel.
    pub open spec fn lending(self) -> bool {
        match self {
            SenderState::Resting { item, waiting: _ } => item is Lent,
            SenderState::Polling { stage, waker: _ } => match stage {
                SendStage::Start(item) => item is Lent,
                SendStage::Looking { connected: _ } => true,
                SendStage::Notifying => true,
                _ => false,
            },
            SenderState::Releasing(_) => true,
            SenderState::Yielded => true,
            _ => false,
        }
    }

    /// The send is one that a poll or a release can have come to.
    pub open spec fn proper(self) -> bool {
        match self {
            SenderState::Resting { item, waiting } => waiting is Some ==> item is Lent,
            SenderState::Polling { stage, waker: _ } => match stage {
                SendStage::Start(item) => !(item is Finished),
                SendStage::Registering(item) => item is Some,
                SendStage::Publishing(item) => item is Some,
                _ => !(stage is Done),
            },
            SenderState::Releasing(ReleaseStage::Start(item)) => item is Lent,
            SenderState::Releasing(stage) => !(stage is Done),
            _ => true,
        }
    }

    /// The waker of a send that is waiting, or has only to report that it is.
    pub open spec fn expecting(self) -> Option<Waker> {
        match self {
            SenderState::Resting { item: _, waiting } => waiting,
            SenderState::Polling { stage, waker } => if stage is Notifying {
                Some(waker)
            } else {
                None
            },
            _ => None,
        }
    }

    /// The waker of a send that has stored it and is about to wait.
    pub open spec fn registered(self) -> Option<Waker> {
        match self {
            SenderState::Polling { stage, waker } => if stage is Publishing {
                Some(waker)
            } else {
                self.expecting()
            },
            _ => self.expecting(),
        }
    }
}

impl<T> ReceiverState<T> {
    /// The item that the receiver has in its hands.
    pub open spec fn holding(self) -> Option<T> {
        match self.stage() {
            Some(RecvStage::Restoring { last: _, ticket: _, item }) => item,
            Some(RecvStage::Waking { last: _, item }) => item,
            _ => None,
        }
    }

    /// The ticket of the parcel that the receiver is working with.
    pub open spec fn working(self) -> Option<u64> {
        match self.stage() {
            Some(RecvStage::Restoring { last: _, ticket, item: _ }) => Some(ticket),
            _ => None,
        }
    }

    /// The waker of a receiver that has stored it and is about to wait.
    pub open spec fn registered(self) -> Option<Waker> {
        match self {
            ReceiverState::Resting { waiting } => waiting,
            ReceiverState::Polling { stage, waker } => {
                let last = match stage {
                    RecvStage::Detaching { last } => last,
                    RecvStage::Restoring { last, ticket: _, item: _ } => last,
                    RecvStage::Waking { last, item: _ } => last,
                    _ => false,
                };
                if last {
                    Some(waker)
                } else {
                    None
                }
            },
            _ => None,
        }
    }

    /// The waker of a receiver that is waiting, or has only to report that it
    /// is.
    pub open spec fn expecting(self) -> Option<Waker> {
        match self {
            ReceiverState::Resting { waiting } => waiting,
            ReceiverState::Polling { stage: RecvStage::Waking { last, item }, waker } => if last
                && item is None {
                Some(waker)
            } else {
                None
            },
            _ => None,
        }
    }
}

impl WakerState {
    /// The waker is stored, or was woken since the last poll began.
    pub open spec fn serves(self, waker: Waker) -> bool {
        self.stored == Some(waker) || self.woken.contains(waker)
    }

    /// No other waker is stored.
    pub open spec fn only(self, waker: Waker) -> bool {
        self.stored matches Some(stored) ==> stored == waker
    }
}

impl<T> System<T> {
    /// The items that the receiver has taken, in order.
    pub open spec fn taken_items(self) -> Seq<T> {
        Seq::new(self.taken.len(), |i: int| self.sends[self.taken[i] as int])
    }

    /// The parcel in the slot still has its item.
    pub open spec fn offered(self) -> bool {
        self.slot matches Some(parcel) && parcel.item is Some
    }

    /// The sends and what was taken of them fit together.
    pub open spec fn history_inv(self) -> bool {
        &&& self.sends.len() <= u64::MAX
        &&& self.fates.len() == self.sends.len()
        &&& forall|i: int| 0 <= i < self.taken.len() ==> #[trigger] self.taken[i] < self.sends.len()
        &&& forall|i: int, j: int|
            0 <= i < j < self.taken.len() ==> #[trigger] self.taken[i] < #[trigger] self.taken[j]
        &&& self.taken_items() == (match self.receiver.holding() {
            Some(item) => self.received.push(item),
            None => self.received,
        })
        &&& self.fault is None
    }

    /// What has become of a send fits what was taken.
    pub open spec fn fate_inv(self, i: int) -> bool {
        match self.fates[i] {
            Fate::InFlight => i == self.sends.len() - 1 && (self.sender.holding() is Some
                || self.sender.lending()),
            Fate::Accepted => self.taken.contains(i as u64),
            Fate::Returned(item) => item == self.sends[i] && !self.taken.contains(i as u64)
                && self.receiver is Gone,
            Fate::Cancelled(Some(item)) => item == self.sends[i] && !self.taken.contains(i as u64),
            Fate::Cancelled(None) => self.taken.contains(i as u64),
            Fate::Leaked => true,
        }
    }

    /// The parcel in the slot belongs to a send, and is empty where its item
    /// was taken.
    pub open spec fn slot_inv(self) -> bool {
        match self.slot {
            Some(parcel) => {
                &&& parcel.ticket < self.sends.len()
                &&& match parcel.item {
                    Some(item) => {
                        &&& item == self.sends[parcel.ticket as int]
                        &&& forall|i: int|
                            0 <= i < self.taken.len() ==> #[trigger] self.taken[i] < parcel.ticket
                        &&& self.fates[parcel.ticket as int] is InFlight
                            || self.fates[parcel.ticket as int] is Leaked
                    },
                    None => self.taken.contains(parcel.ticket),
                }
                &&& self.receiver.working() matches Some(ticket) ==> ticket < parcel.ticket
            },
            None => true,
        }
    }

    /// The parcel that the receiver works with belongs to a send whose item was
    /// taken.
    pub open spec fn work_inv(self) -> bool {
        self.receiver.working() matches Some(ticket) ==> ticket < self.sends.len()
            && self.taken.contains(ticket)
    }

    /// The item of a send is with the send, or its parcel is in the slot or
    /// with the receiver.
    pub open spec fn custody_inv(self) -> bool {
        &&& self.sender.proper()
        &&& self.sender.holding() matches Some(item) ==> {
            &&& self.sends.len() > 0
            &&& item == self.sends.last()
            &&& self.fates.last() is InFlight
            &&& !self.taken.contains(self.ticket())
            &&& self.slot matches Some(parcel) ==> parcel.ticket != self.ticket()
        }
        &&& self.sender.lending() ==> {
            &&& self.sends.len() > 0
            &&& self.fates.last() is InFlight
            &&& match self.slot {
                Some(parcel) => parcel.ticket == self.ticket(),
                None => self.receiver.working() == Some(self.ticket()),
            }
        }
        &&& self.sender is Resting ==> self.sends.len() > 0
        &&& self.sender is Yielded ==> self.taken.contains(self.ticket())
        &&& self.sender.stage() == Some(SendStage::<T>::Looking { connected: false })
            ==> self.receiver is Gone
    }

    /// Nobody waits without being woken in time, and nobody else is.
    pub open spec fn wake_inv(self) -> bool {
        &&& !(self.hang_up is Ahead) ==> self.abandoned()
        &&& !(self.receiver.stage() matches Some(stage) && stage is Done)
        &&& self.sender.registered() matches Some(waker) ==> {
            &&& self.sender_waker.serves(waker)
            &&& self.sender_waker.only(waker) || self.receiver.waking()
        }
        &&& self.sender.expecting() matches Some(waker) ==> {
            &&& self.slot is Some && !self.offered() ==> self.sender_waker.woken.contains(waker)
                || self.receiver.waking()
            &&& self.sender is Resting && !(self.hang_up is Ahead)
                ==> self.sender_waker.woken.contains(waker)
        }
        &&& self.receiver.registered() matches Some(waker) ==> {
            &&& self.receiver_waker.serves(waker)
            &&& self.receiver_waker.only(waker) || self.sender.waking()
        }
        &&& self.receiver.expecting() matches Some(waker) ==> {
            &&& self.offered() ==> self.receiver_waker.woken.contains(waker)
                || self.sender.waking()
            &&& self.receiver is Resting && self.hang_up is Over
                ==> self.receiver_waker.woken.contains(waker)
        }
    }

    /// What holds after every schedule.
    pub open spec fn inv(self) -> bool {
        &&& self.history_inv()
        &&& forall|i: int| 0 <= i < self.sends.len() ==> #[trigger] self.fate_inv(i)
        &&& self.slot_inv()
        &&& self.work_inv()
        &&& self.custody_inv()
        &&& self.wake_inv()
    }
}

/// What is in a sequence after one more was put behind it.
pub broadcast proof fn lemma_push_contains<A>(all: Seq<A>, one: A, other: A)
    ensures
        #[trigger] all.push(one).contains(other) == (all.contains(other) || one == other),
{
    if all.contains(other) {
        let i = choose|i: int| 0 <= i < all.len() && all[i] == other;
        assert(all.push(one)[i] == other);
    }
    assert(all.push(one)[all.len() as int] == one);
    if all.push(one).contains(other) {
        let i = choose|i: int| 0 <= i < all.push(one).len() && all.push(one)[i] == other;
        if i < all.len() {
            assert(all[i] == other);
        }
    }
}

/// A channel that was made just now satisfies the invariant.
pub proof fn lemma_initial<T>()
    ensures
        System::<T>::initial().inv(),
{
    assert(System::<T>::initial().taken_items() =~= Seq::empty());
}

/// Whatever the sending end begins keeps the invariant.
pub proof fn lemma_sender_begins<T>(s: System<T>, event: Event<T>)
    requires
        s.inv(),
        s.next(event) is Some,
        event.of_sender(),
        !(event is SenderOp),
    ensures
        s.next(event)->0.inv(),
{
    broadcast use lemma_push_contains;

    let t = s.next(event)->0;
    assert(t.taken_items() =~= s.taken_items());
    assert forall|i: int| 0 <= i < t.sends.len() implies #[trigger] t.fate_inv(i) by {
        if i < s.sends.len() {
            assert(s.fate_inv(i));
        }
    }
}

/// Whatever the receiving end begins keeps the invariant, and so does the
/// dropping of the wakers.
pub proof fn lemma_receiver_begins<T>(s: System<T>, event: Event<T>)
    requires
        s.inv(),
        s.next(event) is Some,
        !event.of_sender(),
        !(event is ReceiverOp),
    ensures
        s.next(event)->0.inv(),
{
    broadcast use lemma_push_contains;

    let t = s.next(event)->0;
    assert(t.taken_items() =~= s.taken_items());
    assert forall|i: int| 0 <= i < t.sends.len() implies #[trigger] t.fate_inv(i) by {
        assert(s.fate_inv(i));
    }
}

/// Every operation of a poll of a send keeps the invariant.
pub proof fn lemma_poll_op<T>(s: System<T>, op: Op<T>, busy: bool)
    requires
        s.inv(),
        s.sender is Polling,
        s.sender_op(op, busy) is Some,
    ensures
        s.sender_op(op, busy)->0.inv(),
{
    broadcast use lemma_push_contains;

    let t = s.sender_op(op, busy)->0;
    assert(t.taken_items() =~= s.taken_items());
    assert(t.sends == s.sends && t.taken == s.taken);
    if s.sends.len() > 0 {
        assert(s.fate_inv(s.sends.len() - 1));
    }
    assert forall|i: int| 0 <= i < t.sends.len() implies #[trigger] t.fate_inv(i) by {
        assert(s.fate_inv(i));
    }
}

/// Every operation of the giving up of a send keeps the invariant.
pub proof fn lemma_release_op<T>(s: System<T>, op: Op<T>, busy: bool)
    requires
        s.inv(),
        s.sender is Releasing,
        s.sender_op(op, busy) is Some,
    ensures
        s.sender_op(op, busy)->0.inv(),
{
    broadcast use lemma_push_contains;

    let t = s.sender_op(op, busy)->0;
    assert(t.taken_items() =~= s.taken_items());
    assert(t.sends == s.sends && t.taken == s.taken);
    assert(s.fate_inv(s.sends.len() - 1));
    assert forall|i: int| 0 <= i < t.sends.len() implies #[trigger] t.fate_inv(i) by {
        assert(s.fate_inv(i));
    }
}

/// Every operation by which the receiver withdraws its waker keeps the
/// invariant.
pub proof fn lemma_forget_op<T>(s: System<T>, op: Op<T>, busy: bool)
    requires
        s.inv(),
        s.receiver is Forgetting,
        s.receiver_op(op, busy) is Some,
    ensures
        s.receiver_op(op, busy)->0.inv(),
{
    broadcast use lemma_push_contains;

    let t = s.receiver_op(op, busy)->0;
    assert(t.taken_items() =~= s.taken_items());
    assert(t.sends == s.sends && t.taken == s.taken);
    assert forall|i: int| 0 <= i < t.sends.len() implies #[trigger] t.fate_inv(i) by {
        assert(s.fate_inv(i));
    }
}

/// Every operation of a poll of the receiver keeps the invariant.
pub proof fn lemma_recv_op<T>(s: System<T>, op: Op<T>, busy: bool)
    requires
        s.inv(),
        s.receiver is Polling,
        s.receiver_op(op, busy) is Some,
    ensures
        s.receiver_op(op, busy)->0.inv(),
{
    broadcast use lemma_push_contains;

    let t = s.receiver_op(op, busy)->0;
    let takes = s.receiver.stage() matches Some(stage) && stage is Detaching;
    if takes && s.offered() {
        let parcel = s.slot->0;
        assert(t.taken == s.taken.push(parcel.ticket));
        assert forall|x: u64|
            t.taken.contains(x) == (s.taken.contains(x) || x == parcel.ticket) by {
            if s.taken.contains(x) {
                let i = choose|i: int| 0 <= i < s.taken.len() && s.taken[i] == x;
                assert(t.taken[i] == x);
            }
            assert(t.taken[s.taken.len() as int] == parcel.ticket);
        }
        assert(t.taken_items() =~= s.taken_items().push(s.sends[parcel.ticket as int]));
        assert(s.fate_inv(parcel.ticket as int));
    } else {
        assert(t.taken == s.taken);
        assert(t.taken_items() =~= s.taken_items());
    }
    assert forall|i: int| 0 <= i < t.sends.len() implies #[trigger] t.fate_inv(i) by {
        assert(s.fate_inv(i));
    }
}

/// Every event keeps the invariant.
pub proof fn lemma_next<T>(s: System<T>, event: Event<T>)
    requires
        s.inv(),
        s.next(event) is Some,
    ensures
        s.next(event)->0.inv(),
{
    match event {
        Event::SenderOp { op, busy } => {
            if s.sender is Polling {
                lemma_poll_op(s, op, busy);
            } else {
                lemma_release_op(s, op, busy);
            }
        },
        Event::ReceiverOp { op, busy } => {
            if s.receiver is Polling {
                lemma_recv_op(s, op, busy);
            } else {
                lemma_forget_op(s, op, busy);
            }
        },
        _ => {
            if event.of_sender() {
                lemma_sender_begins(s, event);
            } else {
                lemma_receiver_begins(s, event);
            }
        },
    }
}

/// The invariant holds after every schedule.
pub proof fn lemma_run<T>(s: System<T>, schedule: Seq<Event<T>>)
    requires
        s.inv(),
        s.run(schedule) is Some,
    ensures
        s.run(schedule)->0.inv(),
    decreases schedule.len(),
{
    if schedule.len() > 0 {
        lemma_run(s, schedule.drop_last());
        lemma_next(s.run(schedule.drop_last())->0, schedule.last());
    }
}

/// An event leads on from wherever a schedule leads to.
pub proof fn lemma_leads_on<T>(s: System<T>, t: System<T>, event: Event<T>)
    requires
        s.leads_to(t),
        t.next(event) is Some,
    ensures
        s.leads_to(t.next(event)->0),
{
    let schedule = choose|schedule: Seq<Event<T>>| #[trigger] s.run(schedule) == Some(t);
    assert(schedule.push(event).drop_last() =~= schedule);
    assert(s.run(schedule.push(event)) == t.next(event));
}

/// The invariant holds in every reachable state.
pub proof fn lemma_reachable<T>(s: System<T>)
    requires
        s.reachable(),
    ensures
        s.inv(),
{
    let schedule = choose|schedule: Seq<Event<T>>| #[trigger]
        System::initial().run(schedule) == Some(s);
    lemma_initial::<T>();
    lemma_run(System::initial(), schedule);
}

} // verus!

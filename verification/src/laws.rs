//! What a channel promises, whatever the two ends do and however their
//! operations interleave.
use crate::receiving::RecvStage;
use crate::sending::{ItemState, ReleaseStage, SendStage};
use crate::shared::exchange::{reclaimed, restored, Parcel};
use crate::shared::journal::Op;
use crate::soundness::{lemma_leads_on, lemma_push_contains, lemma_reachable};
use crate::system::{Event, Fate, ReceiverState, SenderState, System};
use std::task::Waker;
use vstd::prelude::*;

verus! {

/// The receiver hands out items that were sent, each at most once, and in the
/// order in which they were sent.
pub proof fn law_order<T>(s: System<T>)
    requires
        s.reachable(),
    ensures
        s.received.len() <= s.taken.len() <= s.received.len() + 1,
        forall|i: int|
            0 <= i < s.received.len() ==> s.taken[i] < s.sends.len() && #[trigger] s.received[i]
                == s.sends[s.taken[i] as int],
        forall|i: int, j: int|
            0 <= i < j < s.taken.len() ==> #[trigger] s.taken[i] < #[trigger] s.taken[j],
{
    lemma_reachable(s);
    assert(s.taken_items().len() == s.taken.len());
    assert forall|i: int| 0 <= i < s.received.len() implies s.taken[i] < s.sends.len()
        && #[trigger] s.received[i] == s.sends[s.taken[i] as int] by {
        assert(s.taken_items()[i] == s.received[i]);
    }
}

/// A send succeeds only after the receiver has taken its item.
pub proof fn law_rendezvous<T>(s: System<T>, i: int)
    requires
        s.reachable(),
        0 <= i < s.sends.len(),
        s.fates[i] is Accepted,
    ensures
        s.taken.contains(i as u64),
{
    lemma_reachable(s);
    assert(s.fate_inv(i));
}

/// A send fails only because the receiver is gone. It gives back the very item
/// that was to be sent, and the receiver does not have it.
pub proof fn law_error_returns_item<T>(s: System<T>, i: int)
    requires
        s.reachable(),
        0 <= i < s.sends.len(),
        s.fates[i] is Returned,
    ensures
        s.receiver is Gone,
        s.fates[i] == Fate::Returned(s.sends[i]),
        !s.taken.contains(i as u64),
{
    lemma_reachable(s);
    assert(s.fate_inv(i));
}

/// A send that is dropped gets its item back unless the receiver has taken it,
/// and the receiver does not take it later.
pub proof fn law_cancellation<T>(s: System<T>, i: int)
    requires
        s.reachable(),
        0 <= i < s.sends.len(),
        s.fates[i] is Cancelled,
    ensures
        s.fates[i] == Fate::Cancelled(
            if s.taken.contains(i as u64) {
                None
            } else {
                Some(s.sends[i])
            },
        ),
{
    lemma_reachable(s);
    assert(s.fate_inv(i));
}

/// The item of a send that is over, and was not leaked, has ended in exactly one
/// place: the receiver has taken it, or the owner of the send has it back, in an
/// error or by dropping the send.
pub proof fn law_one_place<T>(s: System<T>, i: int)
    requires
        s.reachable(),
        0 <= i < s.sends.len(),
        !(s.fates[i] is InFlight),
        !(s.fates[i] is Leaked),
    ensures
        s.taken.contains(i as u64) != (s.fates[i] == Fate::Returned(s.sends[i]) || s.fates[i]
            == Fate::Cancelled(Some(s.sends[i]))),
        forall|j: int, k: int|
            0 <= j < s.taken.len() && 0 <= k < s.taken.len() && #[trigger] s.taken[j]
                == #[trigger] s.taken[k] ==> j == k,
{
    lemma_reachable(s);
    assert(s.fate_inv(i));
    assert forall|j: int, k: int|
        0 <= j < s.taken.len() && 0 <= k < s.taken.len() && #[trigger] s.taken[j]
            == #[trigger] s.taken[k] implies j == k by {
        if j < k {
            assert(s.taken[j] < s.taken[k]);
        }
        if k < j {
            assert(s.taken[k] < s.taken[j]);
        }
    }
}

/// The later state has the history of the earlier one: its sends, what was taken
/// and received of them, and what has become of those that were over.
pub open spec fn continues<T>(later: System<T>, earlier: System<T>) -> bool {
    &&& earlier.sends.is_prefix_of(later.sends)
    &&& earlier.taken.is_prefix_of(later.taken)
    &&& earlier.received.is_prefix_of(later.received)
    &&& forall|i: int|
        0 <= i < earlier.sends.len() && !(earlier.fates[i] is InFlight)
            ==> #[trigger] later.fates[i] == earlier.fates[i]
}

/// What has become of a send is final, and what was sent, taken and received
/// stays so.
pub proof fn law_history_is_kept<T>(s: System<T>, event: Event<T>)
    requires
        s.reachable(),
        s.next(event) is Some,
    ensures
        continues(s.next(event)->0, s),
{
    lemma_reachable(s);
    match event {
        Event::SenderOp { op, busy } => lemma_sender_op_continues(s, op, busy),
        Event::ReceiverOp { op, busy } => lemma_receiver_op_continues(s, op, busy),
        _ => lemma_begin_continues(s, event),
    }
}

/// An operation of the sending end keeps the history.
proof fn lemma_sender_op_continues<T>(s: System<T>, op: Op<T>, busy: bool)
    requires
        s.history_inv(),
        s.custody_inv(),
        s.sender_op(op, busy) is Some,
    ensures
        continues(s.sender_op(op, busy)->0, s),
{
    let t = s.sender_op(op, busy)->0;
    assert(t.sends == s.sends && t.taken == s.taken && t.received == s.received);
    if s.sender is Polling {
        assert(s.sender.holding() is Some || s.sender.lending());
    }
}

/// An operation of the receiving end keeps the history.
proof fn lemma_receiver_op_continues<T>(s: System<T>, op: Op<T>, busy: bool)
    requires
        s.receiver_op(op, busy) is Some,
    ensures
        continues(s.receiver_op(op, busy)->0, s),
{
    let t = s.receiver_op(op, busy)->0;
    assert(t.sends == s.sends && t.fates == s.fates);
    assert(s.taken.is_prefix_of(t.taken));
    assert(s.received.is_prefix_of(t.received));
}

/// Whatever an end begins keeps the history.
proof fn lemma_begin_continues<T>(s: System<T>, event: Event<T>)
    requires
        s.history_inv(),
        s.custody_inv(),
        s.next(event) is Some,
        !(event is SenderOp || event is ReceiverOp),
    ensures
        continues(s.next(event)->0, s),
{
    let t = s.next(event)->0;
    assert(t.taken == s.taken && t.received == s.received);
}

/// Where every send has succeeded and the receiver is at rest, the receiver has
/// handed out exactly the items that were sent, in order.
pub proof fn law_lossless<T>(s: System<T>)
    requires
        s.reachable(),
        forall|i: int| 0 <= i < s.sends.len() ==> #[trigger] s.fates[i] is Accepted,
        s.receiver is Resting,
    ensures
        s.received == s.sends,
{
    lemma_reachable(s);
    assert forall|i: int| 0 <= i < s.sends.len() implies #[trigger] s.taken.contains(i as u64) by {
        assert(s.fates[i] is Accepted);
        assert(s.fate_inv(i));
    }
    lemma_full_range(s.taken, s.sends.len() as int);
    assert(s.taken_items() =~= s.sends);
}

/// Strictly increasing numbers below `n`, of which none is missing, are the
/// numbers from 0 on.
proof fn lemma_full_range(numbers: Seq<u64>, n: int)
    requires
        0 <= n <= u64::MAX,
        forall|i: int| 0 <= i < numbers.len() ==> #[trigger] numbers[i] < n,
        forall|i: int, j: int|
            0 <= i < j < numbers.len() ==> #[trigger] numbers[i] < #[trigger] numbers[j],
        forall|k: int| 0 <= k < n ==> #[trigger] numbers.contains(k as u64),
    ensures
        numbers.len() == n,
        forall|i: int| 0 <= i < numbers.len() ==> #[trigger] numbers[i] == i,
    decreases n,
{
    if n == 0 {
        if numbers.len() > 0 {
            assert(numbers[0] < n);
        }
    } else {
        assert(numbers.contains((n - 1) as u64));
        let at = choose|i: int| 0 <= i < numbers.len() && numbers[i] == (n - 1) as u64;
        if at < numbers.len() - 1 {
            assert(numbers[at] < numbers[numbers.len() - 1]);
        }
        let rest = numbers.drop_last();
        assert forall|k: int| 0 <= k < n - 1 implies #[trigger] rest.contains(k as u64) by {
            assert(numbers.contains(k as u64));
            let i = choose|i: int| 0 <= i < numbers.len() && numbers[i] == k as u64;
            assert(rest[i] == k as u64);
        }
        lemma_full_range(rest, n - 1);
        assert forall|i: int| 0 <= i < numbers.len() implies #[trigger] numbers[i] == i by {
            if i < rest.len() {
                assert(rest[i] == i);
            }
        }
    }
}

/// No schedule leads to a fault.
pub proof fn law_no_fault<T>(s: System<T>)
    requires
        s.reachable(),
    ensures
        s.fault is None,
{
    lemma_reachable(s);
}

/// The item of a send that is under way is in one place only: with the send, in
/// the slot, or taken by the receiver.
pub proof fn law_custody<T>(s: System<T>)
    requires
        s.reachable(),
        s.sends.len() > 0,
        s.fates.last() is InFlight,
    ensures
        ({
            let held = s.sender.holding() is Some;
            let offered = s.offered() && s.slot->0.ticket == s.ticket();
            let taken = s.taken.contains(s.ticket());
            &&& held || offered || taken
            &&& !(held && offered)
            &&& !(held && taken)
            &&& !(offered && taken)
        }),
{
    lemma_reachable(s);
    assert(s.fate_inv(s.sends.len() - 1));
}

/// A send that waits is woken once its item was taken: where the empty parcel
/// is back in the slot, the task has been woken, or the receiver is just about
/// to do it.
pub proof fn law_sender_is_woken<T>(s: System<T>)
    requires
        s.reachable(),
        s.sender.waiting() is Some,
        s.slot == Some(Parcel { ticket: s.ticket(), item: None::<T> }),
    ensures
        s.sender_waker.woken.contains(s.sender.waiting()->0) || (s.next(
            Event::ReceiverOp { op: Op::WakeSender, busy: false },
        ) matches Some(t) && t.sender_waker.woken.contains(s.sender.waiting()->0)),
{
    broadcast use lemma_push_contains;

    lemma_reachable(s);
}

/// A receiver that waits is woken once there is an item: where a parcel in the
/// slot has an item, the task has been woken, or the sender is just about to do
/// it.
pub proof fn law_receiver_is_woken<T>(s: System<T>)
    requires
        s.reachable(),
        s.receiver.waiting() is Some,
        s.offered(),
    ensures
        s.receiver_waker.woken.contains(s.receiver.waiting()->0) || (s.next(
            Event::SenderOp { op: Op::WakeReceiver, busy: false },
        ) matches Some(t) && t.receiver_waker.woken.contains(s.receiver.waiting()->0)),
{
    broadcast use lemma_push_contains;

    lemma_reachable(s);
}

/// Whoever waits is woken when the other end is dropped: where the wakers were
/// dropped, both tasks were woken.
pub proof fn law_disconnect_wakes<T>(s: System<T>)
    requires
        s.reachable(),
    ensures
        !(s.hang_up is Ahead) ==> (s.sender.waiting() matches Some(waker)
            ==> s.sender_waker.woken.contains(waker)),
        s.hang_up is Over ==> (s.receiver.waiting() matches Some(waker)
            ==> s.receiver_waker.woken.contains(waker)),
{
    lemma_reachable(s);
}

/// The wakers are dropped after one end is gone, as soon as the other one does
/// not keep them alive: nothing else has to happen first, and nothing prevents
/// it.
pub proof fn law_hang_up_follows<T>(s: System<T>)
    requires
        s.reachable(),
    ensures
        !(s.hang_up is Over) && s.abandoned() <==> s.next(Event::HangUp) is Some,
        s.next(Event::HangUp) matches Some(t) ==> if s.hang_up is Ahead {
            &&& t.hang_up is SenderTold
            &&& t.sender_waker == s.sender_waker.wake()
            &&& t.receiver_waker == s.receiver_waker
        } else {
            &&& t.hang_up is Over
            &&& t.sender_waker == s.sender_waker
            &&& t.receiver_waker == s.receiver_waker.wake()
        },
        s.hang_up is SenderTold ==> s.abandoned(),
{
    lemma_reachable(s);
}

/// The waker that is stored for a task that waits is that of its last poll, and
/// no earlier one: it is there until it is woken. So it is the one that the next
/// wake is for.
pub proof fn law_last_waker_is_stored<T>(s: System<T>)
    requires
        s.reachable(),
    ensures
        s.sender.waiting() matches Some(waker) ==> {
            &&& s.sender_waker.stored == Some(waker) || s.sender_waker.woken.contains(waker)
            &&& !s.receiver.waking() ==> (s.sender_waker.stored matches Some(stored) ==> stored
                == waker)
        },
        s.receiver.waiting() matches Some(waker) ==> {
            &&& s.receiver_waker.stored == Some(waker) || s.receiver_waker.woken.contains(waker)
            &&& !s.sender.waking() ==> (s.receiver_waker.stored matches Some(stored) ==> stored
                == waker)
        },
{
    lemma_reachable(s);
}

/// The event stores no waker for the sending task, and is not the beginning of
/// a poll of that task.
pub open spec fn leaves_sender_unregistered<T>(event: Event<T>) -> bool {
    match event {
        Event::SenderOp { op, busy: _ } => !(op is RegisterSender),
        Event::BeginPoll(_) => false,
        _ => true,
    }
}

/// The event stores no waker for the receiving task, and is not the beginning
/// of a poll of that task.
pub open spec fn leaves_receiver_unregistered<T>(event: Event<T>) -> bool {
    match event {
        Event::ReceiverOp { op, busy: _ } => !(op is RegisterReceiver),
        Event::BeginRecv(_) => false,
        _ => true,
    }
}

/// Where no waker of the sending task is stored, the task is not woken by
/// anything that happens before it stores one.
pub proof fn law_withdrawn_sender_is_not_woken<T>(
    s: System<T>,
    schedule: Seq<Event<T>>,
    t: System<T>,
)
    requires
        s.sender_waker.stored is None,
        s.run(schedule) == Some(t),
        forall|i: int|
            0 <= i < schedule.len() ==> leaves_sender_unregistered(#[trigger] schedule[i]),
    ensures
        t.sender_waker == s.sender_waker,
    decreases schedule.len(),
{
    if schedule.len() > 0 {
        let rest = schedule.drop_last();
        assert forall|i: int| 0 <= i < rest.len() implies leaves_sender_unregistered(
            #[trigger] rest[i],
        ) by {
            assert(rest[i] == schedule[i]);
        }
        law_withdrawn_sender_is_not_woken(s, rest, s.run(rest)->0);
        assert(leaves_sender_unregistered(schedule[schedule.len() - 1]));
    }
}

/// Where no waker of the receiving task is stored, the task is not woken by
/// anything that happens before it stores one.
pub proof fn law_withdrawn_receiver_is_not_woken<T>(
    s: System<T>,
    schedule: Seq<Event<T>>,
    t: System<T>,
)
    requires
        s.receiver_waker.stored is None,
        s.run(schedule) == Some(t),
        forall|i: int|
            0 <= i < schedule.len() ==> leaves_receiver_unregistered(#[trigger] schedule[i]),
    ensures
        t.receiver_waker == s.receiver_waker,
    decreases schedule.len(),
{
    if schedule.len() > 0 {
        let rest = schedule.drop_last();
        assert forall|i: int| 0 <= i < rest.len() implies leaves_receiver_unregistered(
            #[trigger] rest[i],
        ) by {
            assert(rest[i] == schedule[i]);
        }
        law_withdrawn_receiver_is_not_woken(s, rest, s.run(rest)->0);
        assert(leaves_receiver_unregistered(schedule[schedule.len() - 1]));
    }
}

/// An end is gone only by being dropped. In particular no send makes the sender
/// go, whatever becomes of it.
pub proof fn law_only_a_drop_disconnects<T>(s: System<T>, event: Event<T>)
    requires
        s.next(event) is Some,
    ensures
        s.next(event)->0.sender is Gone ==> s.sender is Gone || event is DropSender,
        s.next(event)->0.receiver is Gone ==> s.receiver is Gone || event is DropReceiver,
{
}

/// Once an end is gone it stays gone.
pub proof fn law_disconnect_is_final<T>(s: System<T>, event: Event<T>)
    requires
        s.next(event) is Some,
    ensures
        s.sender is Gone ==> s.next(event)->0.sender is Gone,
        s.receiver is Gone ==> s.next(event)->0.receiver is Gone,
{
}

/// While a send asks in vain for its parcel, the receiver is about to put it
/// back: its next operation does so.
pub proof fn law_yield_is_short<T>(s: System<T>)
    requires
        s.reachable(),
        s.sender.lending(),
        s.slot is None,
    ensures
        s.receiver_op(
            Op::Visit {
                before: None,
                after: Some(Parcel { ticket: s.ticket(), item: None::<T> }),
            },
            false,
        ) is Some,
{
    lemma_reachable(s);
}

/// An end that has begun something can always do its next operation: neither
/// end waits for the other inside of a poll.
pub proof fn law_never_stuck<T>(s: System<T>)
    requires
        s.reachable(),
    ensures
        s.sender is Polling || s.sender is Releasing ==> exists|op: Op<T>|
            (#[trigger] s.sender_op(op, false)) is Some,
        s.receiver is Polling || s.receiver is Forgetting ==> exists|op: Op<T>|
            (#[trigger] s.receiver_op(op, false)) is Some,
{
    lemma_reachable(s);
    let ticket = s.ticket();
    let send_lock: Op<T> = Op::Lock { connected: !(s.receiver is Gone) };
    let reclaim = Op::Visit { before: s.slot, after: reclaimed(s.slot, ticket).1 };
    match s.sender {
        SenderState::Polling { stage, waker } => match stage {
            SendStage::Start(_) => assert(s.sender_op(send_lock, false) is Some),
            SendStage::Looking { connected: _ } => assert(s.sender_op(reclaim, false) is Some),
            SendStage::Registering(_) => {
                assert(s.sender_op(Op::RegisterSender(waker), false) is Some);
            },
            SendStage::Publishing(item) => {
                let after = Some(Parcel { ticket, item });
                assert(s.sender_op(Op::Visit { before: s.slot, after }, false) is Some);
            },
            SendStage::Notifying => assert(s.sender_op(Op::WakeReceiver, false) is Some),
            SendStage::Done(_, _) => {},
        },
        SenderState::Releasing(stage) => match stage {
            ReleaseStage::Start(_) => assert(s.sender_op(send_lock, false) is Some),
            ReleaseStage::Withdrawing => assert(s.sender_op(Op::TakeSenderWaker, false) is Some),
            ReleaseStage::Reclaiming { connected: _ } => {
                assert(s.sender_op(reclaim, false) is Some);
            },
            ReleaseStage::Done(_, _) => {},
        },
        _ => {},
    }
    let recv_lock: Op<T> = Op::Lock { connected: !(s.sender is Gone) };
    match s.receiver {
        ReceiverState::Polling { stage, waker } => match stage {
            RecvStage::Start => assert(s.receiver_op(recv_lock, false) is Some),
            RecvStage::Detaching { last: _ } => {
                assert(s.receiver_op(Op::Visit { before: s.slot, after: None }, false) is Some);
            },
            RecvStage::Restoring { last: _, ticket, item: _ } => {
                let after = restored(s.slot, ticket).1;
                assert(s.receiver_op(Op::Visit { before: s.slot, after }, false) is Some);
            },
            RecvStage::Waking { last: _, item: _ } => {
                assert(s.receiver_op(Op::WakeSender, false) is Some);
            },
            RecvStage::Registering => {
                assert(s.receiver_op(Op::RegisterReceiver(waker), false) is Some);
            },
            RecvStage::Done(_) => {},
        },
        ReceiverState::Forgetting { locked, leaving: _ } => {
            if locked {
                assert(s.receiver_op(Op::TakeReceiverWaker, false) is Some);
            } else {
                assert(s.receiver_op(recv_lock, false) is Some);
            }
        },
        _ => {},
    }
}

/// A send can always be received: from every state in which both ends are
/// there and at rest, a schedule leads to the receiver having handed out the
/// item next, and to the success of the send.
pub proof fn law_handoff<T>(s: System<T>, waker: Waker, item: T)
    requires
        s.reachable(),
        s.sender is Idle,
        s.receiver is Resting,
        s.sends.len() < u64::MAX,
    ensures
        exists|t: System<T>|
            {
                &&& #[trigger] s.leads_to(t)
                &&& t.sends == s.sends.push(item)
                &&& t.received == s.received.push(item)
                &&& t.fates == s.fates.push(Fate::Accepted)
            },
{
    lemma_reachable(s);
    assert(s.run(Seq::empty()) == Some(s));
    let started = advance(s, s, Event::Send(item));
    let offered = lemma_offer(s, started, waker, item);
    let received = lemma_receive(s, offered, waker, item);
    let done = lemma_succeed(s, received, waker);
    assert(done.fates =~= s.fates.push(Fate::Accepted));
}

/// The state after one more event.
proof fn advance<T>(s: System<T>, t: System<T>, event: Event<T>) -> (later: System<T>)
    requires
        s.leads_to(t),
        t.next(event) is Some,
    ensures
        s.leads_to(later),
        Some(later) == t.next(event),
{
    lemma_leads_on(s, t, event);
    t.next(event)->0
}

/// The state after one more operation of the sending end.
proof fn send_on<T>(s: System<T>, t: System<T>, op: Op<T>) -> (later: System<T>)
    requires
        s.leads_to(t),
        t.sender_op(op, false) is Some,
    ensures
        s.leads_to(later),
        Some(later) == t.sender_op(op, false),
{
    advance(s, t, Event::SenderOp { op, busy: false })
}

/// The state after one more operation of the receiving end.
proof fn receive_on<T>(s: System<T>, t: System<T>, op: Op<T>) -> (later: System<T>)
    requires
        s.leads_to(t),
        t.receiver_op(op, false) is Some,
    ensures
        s.leads_to(later),
        Some(later) == t.receiver_op(op, false),
{
    advance(s, t, Event::ReceiverOp { op, busy: false })
}

/// A send that has its item can offer it.
proof fn lemma_offer<T>(s: System<T>, t: System<T>, waker: Waker, item: T) -> (later: System<T>)
    requires
        s.leads_to(t),
        t.sender == (SenderState::Resting { item: ItemState::Held(item), waiting: None }),
        !(t.receiver is Gone),
    ensures
        s.leads_to(later),
        later.slot == Some(Parcel { ticket: t.ticket(), item: Some(item) }),
        later.sender == (SenderState::<T>::Resting { item: ItemState::Lent, waiting: Some(waker) }),
        later.receiver == t.receiver,
        later.sends == t.sends,
        later.fates == t.fates,
        later.received == t.received,
{
    let polled = advance(s, t, Event::BeginPoll(waker));
    let connected = send_on(s, polled, Op::Lock { connected: true });
    let registered = send_on(s, connected, Op::RegisterSender(waker));
    let after = Some(Parcel { ticket: t.ticket(), item: Some(item) });
    let offered = send_on(s, registered, Op::Visit { before: t.slot, after });
    send_on(s, offered, Op::WakeReceiver)
}

/// A receiver at rest can take an item that is offered.
proof fn lemma_receive<T>(s: System<T>, t: System<T>, waker: Waker, item: T) -> (later: System<T>)
    requires
        s.leads_to(t),
        t.slot == Some(Parcel { ticket: t.ticket(), item: Some(item) }),
        t.receiver is Resting,
        !(t.sender is Gone),
    ensures
        s.leads_to(later),
        later.slot == Some(Parcel { ticket: t.ticket(), item: None::<T> }),
        later.sender == t.sender,
        later.receiver is Resting,
        later.sends == t.sends,
        later.fates == t.fates,
        later.received == t.received.push(item),
{
    let asked = advance(s, t, Event::BeginRecv(waker));
    let connected = receive_on(s, asked, Op::Lock { connected: true });
    let taken = receive_on(s, connected, Op::Visit { before: t.slot, after: None });
    let after = Some(Parcel { ticket: t.ticket(), item: None::<T> });
    let back = receive_on(s, taken, Op::Visit { before: None, after });
    receive_on(s, back, Op::WakeSender)
}

/// A send whose item was taken can report its success.
proof fn lemma_succeed<T>(s: System<T>, t: System<T>, waker: Waker) -> (later: System<T>)
    requires
        s.leads_to(t),
        t.slot == Some(Parcel { ticket: t.ticket(), item: None::<T> }),
        t.sender == (SenderState::<T>::Resting { item: ItemState::Lent, waiting: Some(waker) }),
        !(t.receiver is Gone),
    ensures
        s.leads_to(later),
        later.sends == t.sends,
        later.fates == t.fates.update(t.sends.len() - 1, Fate::Accepted),
        later.received == t.received,
{
    let polled = advance(s, t, Event::BeginPoll(waker));
    let looking = send_on(s, polled, Op::Lock { connected: true });
    send_on(s, looking, Op::Visit { before: t.slot, after: None })
}

} // verus!

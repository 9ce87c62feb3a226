//! What the calls of an end touch, and what they leave behind.
//!
//! These laws read the entries that a call adds to the journal of its end, one
//! by one: on which place each of them is, and what it does there.
use crate::channel::{Receiver, SendFut, Sender};
use crate::progress::{Fault, Progress, SendError};
use crate::receiving::{forgetting, recv_ran, RecvStage};
use crate::sending::{
    release_ran, release_start, send_ran, ItemState, ReleaseStage, SendStage,
};
use crate::shared::exchange::{Exchange, Parcel};
use crate::shared::journal::{lemma_all_calls_push, Call, Op, Site};
use crate::shared::signals::{debug_text, Inner};
use crate::shared::slot::made_empty;
use futures::task::AtomicWaker;
use std::sync::Mutex;
use std::task::Waker;
use twinsies::Joint;
use vstd::prelude::*;

verus! {

/// How many of the locks that were given were not given back.
pub open spec fn live_locks<T>(calls: Seq<Call<T>>) -> int
    decreases calls.len(),
{
    if calls.len() == 0 {
        0
    } else {
        live_locks(calls.drop_last()) + match calls.last() {
            Call::Join { joint: _, connected: true } => 1int,
            Call::Part { joint: _ } => -1int,
            _ => 0int,
        }
    }
}

/// The locks of two sequences of calls add up.
proof fn lemma_live_locks_add<T>(first: Seq<Call<T>>, second: Seq<Call<T>>)
    ensures
        live_locks(first + second) == live_locks(first) + live_locks(second),
    decreases second.len(),
{
    if second.len() == 0 {
        assert(first + second =~= first);
    } else {
        assert((first + second).drop_last() =~= first + second.drop_last());
        lemma_live_locks_add(first, second.drop_last());
    }
}

/// The first operation, and no other one, asks whether the other end is there.
pub open spec fn locks_once<T>(ops: Seq<Op<T>>) -> bool {
    forall|j: int| 0 <= j < ops.len() ==> (#[trigger] ops[j] is Lock <==> j == 0)
}

/// Operations that ask once take one lock where the other end is there.
proof fn lemma_one_lock<T>(site: Site<T>, ops: Seq<Op<T>>)
    requires
        locks_once(ops),
    ensures
        live_locks(site.all_calls(ops)) == (if ops.len() > 0 && ops[0] == (Op::<T>::Lock {
            connected: true,
        }) {
            1int
        } else {
            0int
        }),
    decreases ops.len(),
{
    reveal_with_fuel(live_locks, 3);
    if ops.len() > 0 {
        let rest = ops.drop_last();
        assert forall|j: int| 0 <= j < rest.len() implies (#[trigger] rest[j] is Lock <==> j
            == 0) by {
            assert(rest[j] == ops[j]);
        }
        lemma_one_lock(site, rest);
        lemma_live_locks_add(site.all_calls(rest), site.calls(ops.last()));
        assert(ops.last() == ops[ops.len() - 1]);
        let last = site.calls(ops.last());
        if last.len() == 2 {
            assert(last.drop_last().len() == 1);
        } else {
            assert(last.drop_last() =~= Seq::empty());
        }
    }
}

/// A session that asks once gives back the lock that it takes.
proof fn lemma_lock_is_given_back<T>(
    site: Site<T>,
    earlier: Seq<Call<T>>,
    ops: Seq<Op<T>>,
    later: Seq<Call<T>>,
)
    requires
        locks_once(ops),
        site.did(earlier, ops, later),
    ensures
        live_locks(later) == live_locks(earlier),
{
    reveal_with_fuel(live_locks, 2);
    lemma_one_lock(site, ops);
    lemma_live_locks_add(site.all_calls(ops), site.closing(ops));
    lemma_live_locks_add(earlier, site.session_calls(ops));
    assert(site.closing(ops).len() == 1 ==> site.closing(ops).drop_last() =~= Seq::empty());
}

/// Every call of a sequence of operations is a call of one of them.
proof fn lemma_call_of_op<T>(site: Site<T>, ops: Seq<Op<T>>, i: int)
    requires
        0 <= i < site.all_calls(ops).len(),
    ensures
        exists|j: int, k: int|
            0 <= j < ops.len() && 0 <= k < site.calls(ops[j]).len() && site.all_calls(ops)[i]
                == #[trigger] site.calls(ops[j])[k],
    decreases ops.len(),
{
    let rest = ops.drop_last();
    let last = ops.len() - 1;
    if i < site.all_calls(rest).len() {
        lemma_call_of_op(site, rest, i);
        let (j, k) = choose|j: int, k: int|
            0 <= j < rest.len() && 0 <= k < site.calls(rest[j]).len() && site.all_calls(rest)[i]
                == #[trigger] site.calls(rest[j])[k];
        assert(rest[j] == ops[j]);
        assert(site.all_calls(ops)[i] == site.calls(ops[j])[k]);
    } else {
        let k = i - site.all_calls(rest).len();
        assert(site.all_calls(ops)[i] == site.calls(ops[last])[k]);
    }
}

/// What the calls are that each operation of an end consists of: one call, on
/// the place that the operation is about, or for a visit the locking and the
/// unlocking of the exchange.
pub proof fn law_calls_of_operations<T>(
    site: Site<T>,
    waker: Waker,
    connected: bool,
    before: Option<Parcel<T>>,
    after: Option<Parcel<T>>,
)
    ensures
        site.calls(Op::Lock { connected }) == seq![
            Call::<T>::Join { joint: site.joint, connected },
        ],
        site.calls(Op::Visit { before, after }) == seq![
            Call::Enter { exchange: site.exchange },
            Call::Leave { exchange: site.exchange, before, after },
        ],
        site.calls(Op::RegisterSender(waker)) == seq![
            Call::<T>::Register { place: site.inner().sender_place(), waker },
        ],
        site.calls(Op::WakeSender) == seq![Call::<T>::Wake { place: site.inner().sender_place() }],
        site.calls(Op::TakeSenderWaker) == seq![
            Call::<T>::Take { place: site.inner().sender_place() },
        ],
        site.calls(Op::RegisterReceiver(waker)) == seq![
            Call::<T>::Register { place: site.inner().receiver_place(), waker },
        ],
        site.calls(Op::WakeReceiver) == seq![
            Call::<T>::Wake { place: site.inner().receiver_place() },
        ],
        site.calls(Op::TakeReceiverWaker) == seq![
            Call::<T>::Take { place: site.inner().receiver_place() },
        ],
{
}

/// A visit changes nothing in the slot but the parcel of this send: it leaves
/// what it found, or takes or puts the parcel with this ticket.
pub open spec fn about_ticket<T>(
    ticket: u64,
    before: Option<Parcel<T>>,
    after: Option<Parcel<T>>,
) -> bool {
    ||| after == before
    ||| after is None && (before matches Some(parcel) && parcel.ticket == ticket)
    ||| after matches Some(parcel) && parcel.ticket == ticket
}

/// A call that a poll of a send with this ticket and this waker can make.
pub open spec fn call_in_poll<T>(site: Site<T>, ticket: u64, waker: Waker, call: Call<T>) -> bool {
    match call {
        Call::Join { joint, connected: _ } => joint == site.joint,
        Call::Enter { exchange } => exchange == site.exchange,
        Call::Leave { exchange, before, after } => exchange == site.exchange && about_ticket(
            ticket,
            before,
            after,
        ),
        Call::Register { place, waker: stored } => place == site.inner().sender_place() && stored
            == waker,
        Call::Wake { place } => place == site.inner().receiver_place(),
        Call::Take { place: _ } => false,
        Call::Part { joint } => joint == site.joint,
    }
}

/// A call that giving up a send with this ticket can make.
pub open spec fn call_in_release<T>(site: Site<T>, ticket: u64, call: Call<T>) -> bool {
    match call {
        Call::Join { joint, connected: _ } => joint == site.joint,
        Call::Enter { exchange } => exchange == site.exchange,
        Call::Leave { exchange, before, after } => {
            &&& exchange == site.exchange
            &&& after == before || (after is None && (before matches Some(parcel) && parcel.ticket
                == ticket))
        },
        Call::Register { place: _, waker: _ } => false,
        Call::Wake { place: _ } => false,
        Call::Take { place } => place == site.inner().sender_place(),
        Call::Part { joint } => joint == site.joint,
    }
}

/// A call that a poll of the receiver with this waker can make. A visit takes
/// what it finds, leaves it, or puts an empty parcel into an empty slot.
pub open spec fn call_in_receive<T>(site: Site<T>, waker: Waker, call: Call<T>) -> bool {
    match call {
        Call::Join { joint, connected: _ } => joint == site.joint,
        Call::Enter { exchange } => exchange == site.exchange,
        Call::Leave { exchange, before, after } => exchange == site.exchange && (after is None
            || after == before || (before is None && (after matches Some(parcel)
            && parcel.item is None))),
        Call::Register { place, waker: stored } => place == site.inner().receiver_place() && stored
            == waker,
        Call::Wake { place } => place == site.inner().sender_place(),
        Call::Take { place: _ } => false,
        Call::Part { joint } => joint == site.joint,
    }
}

/// An operation that a poll of a send can do.
spec fn op_in_poll<T>(ticket: u64, waker: Waker, op: Op<T>) -> bool {
    match op {
        Op::Lock { connected: _ } => true,
        Op::Visit { before, after } => about_ticket(ticket, before, after),
        Op::RegisterSender(stored) => stored == waker,
        Op::WakeReceiver => true,
        _ => false,
    }
}

/// The operations of a poll of a send that has come to this stage.
proof fn lemma_poll_ops<T>(
    state: ItemState<T>,
    ticket: u64,
    waker: Waker,
    ops: Seq<Op<T>>,
    stage: SendStage<T>,
)
    requires
        send_ran(SendStage::Start(state), ticket, waker, ops) == Some(stage),
    ensures
        locks_once(ops),
        forall|j: int| 0 <= j < ops.len() ==> op_in_poll(ticket, waker, #[trigger] ops[j]),
        stage is Start <==> ops.len() == 0,
        (match stage {
            SendStage::Publishing(_) => true,
            SendStage::Notifying => true,
            SendStage::Done(_, progress) => progress is Pending,
            _ => false,
        }) || forall|j: int|
            0 <= j < ops.len() ==> !(#[trigger] ops[j] is RegisterSender || ops[j] is WakeReceiver),
    decreases ops.len(),
{
    if ops.len() > 0 {
        let rest = ops.drop_last();
        let reached = send_ran(SendStage::Start(state), ticket, waker, rest)->0;
        lemma_poll_ops(state, ticket, waker, rest, reached);
        assert forall|j: int| 0 <= j < rest.len() implies #[trigger] ops[j] == rest[j] by {}
        assert(ops.last() == ops[ops.len() - 1]);
    }
}

/// What a poll of a send leaves as it was: its channel, its number, and the count
/// of open sessions and of locks. Its entries come after the earlier ones.
pub proof fn law_poll_leaves_nothing_open<T>(
    before: SendFut<'_, T>,
    after: SendFut<'_, T>,
    waker: Waker,
    progress: Progress<Result<(), SendError<T>>>,
    ops: Seq<Op<T>>,
)
    requires
        after.polled(before, waker, progress, ops),
    ensures
        after.site() == before.site(),
        after.ticket() == before.ticket(),
        after.ledger().unfiled() == before.ledger().unfiled(),
        before.ledger().calls().is_prefix_of(after.ledger().calls()),
        before.ledger().calls().len() < after.ledger().calls().len(),
        live_locks(after.ledger().calls()) == live_locks(before.ledger().calls()),
{
    lemma_poll_ops(
        before.state(),
        before.ticket(),
        waker,
        ops,
        SendStage::Done(after.state(), progress),
    );
    lemma_lock_is_given_back(
        before.site(),
        before.ledger().calls(),
        ops,
        after.ledger().calls(),
    );
    reveal_with_fuel(Site::all_calls, 1);
    assert(before.site().calls(ops.last()).len() > 0);
}

/// What a poll of a send touches: its own channel, in the ways of a send. It
/// stores no waker but its own, in the place of the sending task, it withdraws
/// none, it wakes nobody but the receiving task, and it changes no parcel in the
/// slot but its own. Only a poll that waits stores a waker and wakes.
pub proof fn law_poll_touches<T>(
    before: SendFut<'_, T>,
    after: SendFut<'_, T>,
    waker: Waker,
    progress: Progress<Result<(), SendError<T>>>,
    ops: Seq<Op<T>>,
    i: int,
)
    requires
        after.polled(before, waker, progress, ops),
        before.ledger().calls().len() <= i < after.ledger().calls().len(),
    ensures
        call_in_poll(before.site(), before.ticket(), waker, after.ledger().calls()[i]),
        !(progress is Pending) ==> !(after.ledger().calls()[i] is Register)
            && !(after.ledger().calls()[i] is Wake),
{
    let site = before.site();
    lemma_poll_ops(
        before.state(),
        before.ticket(),
        waker,
        ops,
        SendStage::Done(after.state(), progress),
    );
    let k = i - before.ledger().calls().len();
    if k < site.all_calls(ops).len() {
        lemma_call_of_op(site, ops, k);
    }
}

/// Where a session with a lock ends with a visit and the waking of the receiving
/// task, the visit is third from the end in the journal.
pub proof fn lemma_last_visit<T>(
    site: Site<T>,
    earlier: Seq<Call<T>>,
    ops: Seq<Op<T>>,
    later: Seq<Call<T>>,
    before: Option<Parcel<T>>,
    after: Option<Parcel<T>>,
)
    requires
        site.did(earlier, ops, later),
        ops.len() > 2,
        ops[0] == (Op::<T>::Lock { connected: true }),
        ops[ops.len() - 2] == (Op::Visit { before, after }),
        ops.last() is WakeReceiver,
    ensures
        later.len() > 3,
        later[later.len() - 3] == (Call::Leave { exchange: site.exchange, before, after }),
{
    broadcast use lemma_all_calls_push;

    let one = ops.drop_last();
    let two = one.drop_last();
    assert(ops =~= one.push(ops.last()));
    assert(one =~= two.push(one.last()));
    assert(one.last() == ops[ops.len() - 2]);
    lemma_first_call(site, two);
}

/// A poll of a send that waits has stored its waker, has then offered its
/// parcel, has then woken the receiving task, and has given its lock back; these
/// are the last things that it has done. The item is the one that the send held,
/// or the one that came back in its parcel; a send that was over offers none.
pub proof fn law_waiting_poll_has_offered<T>(
    before: SendFut<'_, T>,
    after: SendFut<'_, T>,
    waker: Waker,
    ops: Seq<Op<T>>,
)
    requires
        after.polled(before, waker, Progress::Pending, ops),
    ensures
        ({
            let calls = after.ledger().calls();
            let n = calls.len() as int;
            let site = before.site();
            &&& n == before.ledger().calls().len() + (if before.state() is Lent {
                8int
            } else {
                6int
            })
            &&& calls[before.ledger().calls().len() as int] == (Call::<T>::Join {
                joint: site.joint,
                connected: true,
            })
            &&& calls[n - 5] == (Call::<T>::Register {
                place: site.inner().sender_place(),
                waker,
            })
            &&& calls[n - 3] matches Call::Leave { exchange, before: _, after: Some(parcel) }
            &&& exchange == site.exchange
            &&& calls[n - 2] == (Call::<T>::Wake { place: site.inner().receiver_place() })
            &&& calls[n - 1] == (Call::<T>::Part { joint: site.joint })
            &&& after.state() is Lent
            &&& parcel.ticket == before.ticket()
            &&& match before.state() {
                ItemState::Held(item) => parcel.item == Some(item),
                ItemState::Lent => parcel.item is Some && calls[n - 6] == (Call::Leave {
                    exchange: site.exchange,
                    before: Some(parcel),
                    after: None,
                }),
                ItemState::Finished => parcel.item is None,
            }
        }),
{
    broadcast use lemma_all_calls_push;

    let site = before.site();
    let one = ops.drop_last();
    let two = one.drop_last();
    let three = two.drop_last();
    let four = three.drop_last();
    reveal_with_fuel(send_ran, 7);
    lemma_poll_ops(
        before.state(),
        before.ticket(),
        waker,
        ops,
        SendStage::Done(after.state(), Progress::Pending),
    );
    assert(ops =~= one.push(ops.last()));
    assert(one =~= two.push(one.last()));
    assert(two =~= three.push(two.last()));
    assert(three =~= four.push(three.last()));
    assert(ops[0] == three[0]);
    lemma_first_call(site, ops);
    if before.state() is Lent {
        let five = four.drop_last();
        assert(four =~= five.push(four.last()));
        assert(five.len() == 0);
        assert(site.all_calls(four) =~= site.calls(four.last()));
    } else {
        assert(four.len() == 0);
    }
}

/// A send that reports success has found its parcel in the slot, empty, and has
/// taken it out; or it was over before and the receiver is gone.
pub proof fn law_success_was_acknowledged<T>(
    before: SendFut<'_, T>,
    after: SendFut<'_, T>,
    waker: Waker,
    ops: Seq<Op<T>>,
)
    requires
        after.polled(before, waker, Progress::Ready(Ok(())), ops),
    ensures
        ({
            let calls = after.ledger().calls();
            let m = before.ledger().calls().len() as int;
            let site = before.site();
            &&& after.state() is Finished
            &&& match before.state() {
                ItemState::Held(_) => false,
                ItemState::Lent => {
                    &&& calls[m] matches Call::Join { joint, connected }
                    &&& joint == site.joint
                    &&& calls.len() == m + (if connected {
                        4int
                    } else {
                        3int
                    })
                    &&& calls[m + 2] == (Call::Leave {
                        exchange: site.exchange,
                        before: Some(Parcel { ticket: before.ticket(), item: None::<T> }),
                        after: None,
                    })
                },
                ItemState::Finished => calls.len() == m + 1 && calls[m] == (Call::<T>::Join {
                    joint: site.joint,
                    connected: false,
                }),
            }
        }),
{
    broadcast use lemma_all_calls_push;

    let site = before.site();
    let one = ops.drop_last();
    reveal_with_fuel(send_ran, 4);
    lemma_poll_ops(
        before.state(),
        before.ticket(),
        waker,
        ops,
        SendStage::Done(after.state(), Progress::Ready(Ok(()))),
    );
    assert(ops =~= one.push(ops.last()));
    if before.state() is Lent {
        let two = one.drop_last();
        assert(one =~= two.push(one.last()));
        assert(two.len() == 0);
        assert(ops[0] == one.last());
    } else {
        assert(one.len() == 0);
    }
}

/// A send that reports an error has found the receiver gone, and the error has
/// the item that the send held, or the one that came back in its parcel.
pub proof fn law_failure_has_the_item<T>(
    before: SendFut<'_, T>,
    after: SendFut<'_, T>,
    waker: Waker,
    ops: Seq<Op<T>>,
    error: SendError<T>,
)
    requires
        after.polled(before, waker, Progress::Ready(Err(error)), ops),
    ensures
        ({
            let calls = after.ledger().calls();
            let m = before.ledger().calls().len() as int;
            let site = before.site();
            &&& after.state() is Finished
            &&& calls[m] == (Call::<T>::Join { joint: site.joint, connected: false })
            &&& match before.state() {
                ItemState::Held(item) => error.0 == item && calls.len() == m + 1,
                ItemState::Lent => calls.len() == m + 3 && calls[m + 2] == (Call::Leave {
                    exchange: site.exchange,
                    before: Some(Parcel { ticket: before.ticket(), item: Some(error.0) }),
                    after: None,
                }),
                ItemState::Finished => false,
            }
        }),
{
    broadcast use lemma_all_calls_push;

    let site = before.site();
    let one = ops.drop_last();
    reveal_with_fuel(send_ran, 4);
    lemma_poll_ops(
        before.state(),
        before.ticket(),
        waker,
        ops,
        SendStage::Done(after.state(), Progress::Ready(Err(error))),
    );
    assert(ops =~= one.push(ops.last()));
    if before.state() is Lent {
        let two = one.drop_last();
        assert(one =~= two.push(one.last()));
        assert(two.len() == 0);
        assert(ops[0] == one.last());
    } else {
        assert(one.len() == 0);
        assert(ops[0] == ops.last());
    }
}

/// A poll of a send that has to try again has found its parcel away, with the
/// receiver; one that reports a fault has found the parcel of another send. Both
/// leave the slot and the send as they were, and whatever the receiver's end is
/// up to, they tell nobody.
pub proof fn law_poll_without_parcel<T>(
    before: SendFut<'_, T>,
    after: SendFut<'_, T>,
    waker: Waker,
    progress: Progress<Result<(), SendError<T>>>,
    ops: Seq<Op<T>>,
)
    requires
        after.polled(before, waker, progress, ops),
        progress is Yield || progress is Fault,
    ensures
        ({
            let calls = after.ledger().calls();
            let m = before.ledger().calls().len() as int;
            let site = before.site();
            &&& before.state() is Lent
            &&& after.state() is Lent
            &&& calls[m] matches Call::Join { joint, connected }
            &&& joint == site.joint
            &&& calls.len() == m + (if connected {
                4int
            } else {
                3int
            })
            &&& calls[m + 2] matches Call::Leave { exchange, before: found, after: left }
            &&& exchange == site.exchange
            &&& left == found
            &&& match found {
                None => progress is Yield,
                Some(parcel) => parcel.ticket != before.ticket() && progress == (Progress::<
                    Result<(), SendError<T>>,
                >::Fault(Fault::ForeignItem)),
            }
        }),
{
    broadcast use lemma_all_calls_push;

    let one = ops.drop_last();
    let two = one.drop_last();
    reveal_with_fuel(send_ran, 4);
    lemma_poll_ops(
        before.state(),
        before.ticket(),
        waker,
        ops,
        SendStage::Done(after.state(), progress),
    );
    assert(ops =~= one.push(ops.last()));
    assert(one =~= two.push(one.last()));
    assert(two.len() == 0);
    assert(ops[0] == one.last());
}

/// The operations of the giving up of a send that has come to this stage.
proof fn lemma_release_ops<T>(
    state: ItemState<T>,
    ticket: u64,
    ops: Seq<Op<T>>,
    stage: ReleaseStage<T>,
)
    requires
        release_ran(release_start(state), ticket, ops) == Some(stage),
    ensures
        locks_once(ops),
        !(state is Lent) ==> ops.len() == 0 && stage == release_start(state),
        state is Lent ==> (stage is Start <==> ops.len() == 0),
        forall|j: int|
            0 <= j < ops.len() ==> match #[trigger] ops[j] {
                Op::Lock { connected: _ } => true,
                Op::TakeSenderWaker => true,
                Op::Visit { before, after } => after == before || (after is None && (
                before matches Some(parcel) && parcel.ticket == ticket)),
                _ => false,
            },
    decreases ops.len(),
{
    if ops.len() > 0 {
        let rest = ops.drop_last();
        let reached = release_ran(release_start(state), ticket, rest)->0;
        lemma_release_ops(state, ticket, rest, reached);
        assert forall|j: int| 0 <= j < rest.len() implies #[trigger] ops[j] == rest[j] by {}
        assert(ops.last() == ops[ops.len() - 1]);
    }
}

/// Giving up a send that has not lent its item, or that is over, does nothing to
/// what the two ends share: it makes no call and opens no session. The item that
/// the send holds is handed out.
pub proof fn law_unlent_release_does_nothing<T>(
    before: SendFut<'_, T>,
    after: SendFut<'_, T>,
    progress: Progress<Option<T>>,
    ops: Seq<Op<T>>,
)
    requires
        after.released(before, progress, ops),
        !(before.state() is Lent),
    ensures
        ops.len() == 0,
        after.ledger().calls() == before.ledger().calls(),
        after.ledger().unfiled() == before.ledger().unfiled(),
        after.site() == before.site(),
        after.ticket() == before.ticket(),
        after.state() is Finished,
        progress == (match before.state() {
            ItemState::Held(item) => Progress::Ready(Some(item)),
            _ => Progress::Ready(None),
        }),
{
    lemma_release_ops(
        before.state(),
        before.ticket(),
        ops,
        ReleaseStage::Done(after.state(), progress),
    );
    assert(before.site().session_calls(ops) =~= Seq::empty());
    assert(after.ledger().calls() =~= before.ledger().calls());
}

/// What giving up a send leaves as it was: its channel, its number, and the count
/// of open sessions and of locks. Its entries come after the earlier ones.
pub proof fn law_release_leaves_nothing_open<T>(
    before: SendFut<'_, T>,
    after: SendFut<'_, T>,
    progress: Progress<Option<T>>,
    ops: Seq<Op<T>>,
)
    requires
        after.released(before, progress, ops),
    ensures
        after.site() == before.site(),
        after.ticket() == before.ticket(),
        after.ledger().unfiled() == before.ledger().unfiled(),
        before.ledger().calls().is_prefix_of(after.ledger().calls()),
        live_locks(after.ledger().calls()) == live_locks(before.ledger().calls()),
{
    lemma_release_ops(
        before.state(),
        before.ticket(),
        ops,
        ReleaseStage::Done(after.state(), progress),
    );
    lemma_lock_is_given_back(
        before.site(),
        before.ledger().calls(),
        ops,
        after.ledger().calls(),
    );
}

/// What giving up a send touches: it stores no waker and wakes nobody, it
/// withdraws no waker but that of the sending task, and it takes no parcel out of
/// the slot but its own.
pub proof fn law_release_touches<T>(
    before: SendFut<'_, T>,
    after: SendFut<'_, T>,
    progress: Progress<Option<T>>,
    ops: Seq<Op<T>>,
    i: int,
)
    requires
        after.released(before, progress, ops),
        before.ledger().calls().len() <= i < after.ledger().calls().len(),
    ensures
        call_in_release(before.site(), before.ticket(), after.ledger().calls()[i]),
{
    let site = before.site();
    lemma_release_ops(
        before.state(),
        before.ticket(),
        ops,
        ReleaseStage::Done(after.state(), progress),
    );
    let k = i - before.ledger().calls().len();
    if k < site.all_calls(ops).len() {
        lemma_call_of_op(site, ops, k);
    }
}

/// Giving up a send that has lent its item asks whether the receiver is there,
/// withdraws the waker of the sending task if so, looks for the parcel, and gives
/// its lock back. What it reports is what it finds: the content of its parcel,
/// which it takes along, or that the parcel is away, or that it is not its own.
pub proof fn law_lent_release<T>(
    before: SendFut<'_, T>,
    after: SendFut<'_, T>,
    progress: Progress<Option<T>>,
    ops: Seq<Op<T>>,
)
    requires
        after.released(before, progress, ops),
        before.state() is Lent,
    ensures
        ({
            let calls = after.ledger().calls();
            let n = calls.len() as int;
            let m = before.ledger().calls().len() as int;
            let site = before.site();
            &&& calls[m] matches Call::Join { joint, connected }
            &&& joint == site.joint
            &&& n == m + (if connected {
                5int
            } else {
                3int
            })
            &&& connected ==> calls[m + 1] == (Call::<T>::Take {
                place: site.inner().sender_place(),
            })
            &&& connected ==> calls[n - 1] == (Call::<T>::Part { joint: site.joint })
            &&& calls[if connected {
                m + 3
            } else {
                m + 2
            }] matches Call::Leave { exchange, before: found, after: left }
            &&& exchange == site.exchange
            &&& match found {
                None => left is None && progress is Yield && after.state() is Lent,
                Some(parcel) => if parcel.ticket == before.ticket() {
                    left is None && progress == Progress::Ready(parcel.item)
                        && after.state() is Finished
                } else {
                    left == found && progress == (Progress::<Option<T>>::Fault(Fault::ForeignItem))
                        && after.state() is Lent
                },
            }
        }),
{
    broadcast use lemma_all_calls_push;

    let one = ops.drop_last();
    let two = one.drop_last();
    let three = two.drop_last();
    reveal_with_fuel(release_ran, 5);
    lemma_release_ops(
        before.state(),
        before.ticket(),
        ops,
        ReleaseStage::Done(after.state(), progress),
    );
    assert(ops =~= one.push(ops.last()));
    assert(one =~= two.push(one.last()));
    if ops[0] == (Op::<T>::Lock { connected: true }) {
        assert(two =~= three.push(two.last()));
        assert(three.len() == 0);
        assert(ops[0] == two.last());
    } else {
        assert(two.len() == 0);
        assert(ops[0] == one.last());
    }
}

/// The receiver carries this item, or has reported it or a fault.
spec fn carries<T>(stage: RecvStage<T>) -> bool {
    match stage {
        RecvStage::Restoring { last: _, ticket: _, item } => item is Some,
        RecvStage::Waking { last: _, item } => item is Some,
        RecvStage::Done(progress) => match progress {
            Progress::Ready(item) => item is Some,
            Progress::Fault(_) => true,
            _ => false,
        },
        _ => false,
    }
}

/// The operations of a poll of the receiver that has come to this stage.
proof fn lemma_receive_ops<T>(waker: Waker, ops: Seq<Op<T>>, stage: RecvStage<T>)
    requires
        recv_ran(RecvStage::Start, waker, ops) == Some(stage),
    ensures
        locks_once(ops),
        stage is Start <==> ops.len() == 0,
        ops.len() > 0 ==> (ops[0] == (Op::<T>::Lock { connected: false }) <==> stage
            == RecvStage::Done(Progress::Ready(None::<T>))),
        ops.len() > 0 && ops[0] == (Op::<T>::Lock { connected: false }) ==> ops.len() == 1,
        forall|j: int|
            0 <= j < ops.len() ==> match #[trigger] ops[j] {
                Op::Lock { connected: _ } => true,
                Op::WakeSender => true,
                Op::RegisterReceiver(stored) => stored == waker,
                Op::Visit { before, after } => after is None || after == before || (before is None
                    && (after matches Some(parcel) && parcel.item is None)),
                _ => false,
            },
        carries(stage) || forall|j: int|
            0 <= j < ops.len() ==> match #[trigger] ops[j] {
                Op::Visit { before: Some(parcel), after: None } => parcel.item is None,
                _ => true,
            },
    decreases ops.len(),
{
    if ops.len() > 0 {
        let rest = ops.drop_last();
        let reached = recv_ran(RecvStage::<T>::Start, waker, rest)->0;
        lemma_receive_ops(waker, rest, reached);
        assert forall|j: int| 0 <= j < rest.len() implies #[trigger] ops[j] == rest[j] by {}
        assert(ops.last() == ops[ops.len() - 1]);
    }
}

/// What a poll of the receiver leaves as it was: its channel, and the count of
/// ledgers, of open sessions and of locks. Its entries come after the earlier
/// ones.
pub proof fn law_receive_leaves_nothing_open<T>(
    before: Receiver<T>,
    after: Receiver<T>,
    waker: Waker,
    progress: Progress<Option<T>>,
    ops: Seq<Op<T>>,
)
    requires
        after.polled(before, waker, progress, ops),
    ensures
        after.site() == before.site(),
        after.port().issued() == before.port().issued(),
        after.ledger().unfiled() == before.ledger().unfiled(),
        before.ledger().calls().is_prefix_of(after.ledger().calls()),
        before.ledger().calls().len() < after.ledger().calls().len(),
        live_locks(after.ledger().calls()) == live_locks(before.ledger().calls()),
{
    lemma_receive_ops(waker, ops, RecvStage::Done(progress));
    lemma_lock_is_given_back(
        before.site(),
        before.ledger().calls(),
        ops,
        after.ledger().calls(),
    );
    reveal_with_fuel(Site::all_calls, 1);
    assert(before.site().calls(ops.last()).len() > 0);
}

/// What a poll of the receiver touches: it stores no waker but its own, in the
/// place of the receiving task, it withdraws none, and it wakes nobody but the
/// sending task. What it puts into the slot is what it found there, or an empty
/// parcel. Unless it reports an item or a fault, it takes no item out.
pub proof fn law_receive_touches<T>(
    before: Receiver<T>,
    after: Receiver<T>,
    waker: Waker,
    progress: Progress<Option<T>>,
    ops: Seq<Op<T>>,
    i: int,
)
    requires
        after.polled(before, waker, progress, ops),
        before.ledger().calls().len() <= i < after.ledger().calls().len(),
    ensures
        call_in_receive(before.site(), waker, after.ledger().calls()[i]),
        match (progress, after.ledger().calls()[i]) {
            (
                Progress::Pending | Progress::Yield | Progress::Ready(None),
                Call::Leave { exchange: _, before: Some(parcel), after: None },
            ) => parcel.item is None,
            _ => true,
        },
{
    let site = before.site();
    lemma_receive_ops(waker, ops, RecvStage::Done(progress));
    let k = i - before.ledger().calls().len();
    if k < site.all_calls(ops).len() {
        lemma_call_of_op(site, ops, k);
    }
}

/// What a poll of the receiver reports is what it finds.
///
/// It reports the end where the sender is gone; then it only asks. It reports an
/// item that it has taken out of the slot in a parcel, and that parcel is back in
/// the slot, empty, with the sending task woken, or a newer one is there. It waits
/// where its waker was stored before it looked for the last time, and it found no
/// parcel, or one that it had emptied and has put back, with the sending task
/// woken. It tries again where it held an empty parcel and a newer one came, and
/// reports a fault where the parcel that it held came twice.
pub proof fn law_receive_reports_what_it_finds<T>(
    before: Receiver<T>,
    after: Receiver<T>,
    waker: Waker,
    progress: Progress<Option<T>>,
    ops: Seq<Op<T>>,
)
    requires
        after.polled(before, waker, progress, ops),
    ensures
        ({
            let calls = after.ledger().calls();
            let n = calls.len() as int;
            let m = before.ledger().calls().len() as int;
            let site = before.site();
            let over = progress == Progress::Ready(None::<T>);
            let took = |ticket: u64, item: Option<T>|
                Call::Leave {
                    exchange: site.exchange,
                    before: Some(Parcel { ticket, item }),
                    after: None,
                };
            let woke = Call::<T>::Wake { place: site.inner().sender_place() };
            let stored = Call::<T>::Register { place: site.inner().receiver_place(), waker };
            &&& calls[m] == (Call::<T>::Join { joint: site.joint, connected: !over })
            &&& over ==> n == m + 1
            &&& !over ==> {
                &&& calls[n - 1] == (Call::<T>::Part { joint: site.joint })
                &&& match calls[n - 2] {
                    Call::Wake { place } => {
                        &&& n >= m + 7
                        &&& calls[n - 2] == woke
                        &&& calls[n - 3] matches Call::Leave {
                            exchange,
                            before: None,
                            after: Some(emptied),
                        }
                        &&& exchange == site.exchange
                        &&& emptied.item is None
                        &&& match progress {
                            Progress::Ready(item) => calls[n - 5] == took(emptied.ticket, item),
                            Progress::Pending => calls[n - 5] == took(emptied.ticket, None)
                                && calls[n - 7] == stored,
                            _ => false,
                        }
                    },
                    Call::Leave { exchange, before: None, after: left } => {
                        &&& exchange == site.exchange
                        &&& left is None
                        &&& progress is Pending
                        &&& n >= m + 7
                        &&& calls[n - 4] == stored
                    },
                    Call::Leave { exchange, before: Some(newer), after: left } => {
                        &&& exchange == site.exchange
                        &&& left == Some(newer)
                        &&& n >= m + 6
                        &&& calls[n - 4] matches Call::Leave {
                            exchange: from,
                            before: Some(parcel),
                            after: None,
                        }
                        &&& from == site.exchange
                        &&& progress == (if parcel.ticket == newer.ticket {
                            Progress::Fault(Fault::DuplicateItem)
                        } else if parcel.item is Some {
                            Progress::Ready(parcel.item)
                        } else {
                            Progress::Yield
                        })
                    },
                    _ => false,
                }
            }
        }),
{
    broadcast use lemma_all_calls_push;

    let site = before.site();
    let one = ops.drop_last();
    let two = one.drop_last();
    let three = two.drop_last();
    let four = three.drop_last();
    reveal_with_fuel(recv_ran, 6);
    lemma_receive_ops(waker, ops, RecvStage::Done(progress));
    assert(ops =~= one.push(ops.last()));
    if one.len() > 0 {
        assert(one =~= two.push(one.last()));
        assert(two =~= three.push(two.last()));
        lemma_first_call(site, two);
        assert(two[0] == ops[0]);
        if three.len() > 0 {
            assert(three =~= four.push(three.last()));
            lemma_first_call(site, three);
            assert(three[0] == ops[0]);
        }
    } else {
        assert(ops[0] == ops.last());
    }
}

/// The calls of a sequence of operations begin with those of the first one.
proof fn lemma_first_call<T>(site: Site<T>, ops: Seq<Op<T>>)
    requires
        ops.len() > 0,
    ensures
        site.all_calls(ops).len() >= ops.len(),
        site.all_calls(ops)[0] == site.calls(ops[0])[0],
    decreases ops.len(),
{
    let rest = ops.drop_last();
    assert(site.calls(ops.last()).len() > 0);
    if rest.len() > 0 {
        lemma_first_call(site, rest);
        assert(rest[0] == ops[0]);
    } else {
        assert(ops[0] == ops.last());
        assert(site.all_calls(rest) =~= Seq::empty());
    }
}

/// These operations are one attempt to receive. Either the slot is empty, and
/// that is all. Or the attempt takes a parcel, and then puts it back, empty, into
/// the slot, which is still empty, and wakes the sending task; or it finds another
/// parcel in the slot, which stays there.
pub open spec fn is_attempt<T>(ops: Seq<Op<T>>) -> bool {
    ||| ops == seq![Op::Visit { before: None::<Parcel<T>>, after: None }]
    ||| exists|parcel: Parcel<T>|
        ops == #[trigger] seq![
            Op::Visit { before: Some(parcel), after: None },
            Op::Visit {
                before: None,
                after: Some(Parcel { ticket: parcel.ticket, item: None }),
            },
            Op::WakeSender,
        ]
    ||| exists|parcel: Parcel<T>, other: Parcel<T>|
        ops == #[trigger] seq![
            Op::Visit { before: Some(parcel), after: None },
            Op::Visit { before: Some(other), after: Some(other) },
        ]
}

/// An attempt begins at this place in the operations of a poll: the first one
/// after the lock, and the last one after the first one and the storing of the
/// waker.
spec fn attempt_begins<T>(waker: Waker, last: bool, ops: Seq<Op<T>>, start: int) -> bool {
    &&& 1 <= start <= ops.len()
    &&& if last {
        &&& start >= 2
        &&& ops[start - 1] == Op::<T>::RegisterReceiver(waker)
        &&& is_attempt(ops.subrange(1, start - 1))
    } else {
        start == 1
    }
}

/// The operations of a poll that has come to this stage.
spec fn poll_shape<T>(waker: Waker, stage: RecvStage<T>, ops: Seq<Op<T>>) -> bool {
    let n = ops.len() as int;
    match stage {
        RecvStage::Start => n == 0,
        RecvStage::Detaching { last } => attempt_begins(waker, last, ops, n),
        RecvStage::Restoring { last, ticket, item } => {
            &&& attempt_begins(waker, last, ops, n - 1)
            &&& ops[n - 1] == (Op::Visit { before: Some(Parcel { ticket, item }), after: None })
        },
        RecvStage::Waking { last, item } => {
            &&& attempt_begins(waker, last, ops, n - 2)
            &&& ops[n - 2] matches Op::Visit { before: Some(parcel), after: None }
            &&& parcel.item == item
            &&& ops[n - 1] == (Op::Visit {
                before: None,
                after: Some(Parcel { ticket: parcel.ticket, item: None::<T> }),
            })
        },
        RecvStage::Registering => n >= 1 && is_attempt(ops.subrange(1, n)),
        RecvStage::Done(progress) => n == 1 || exists|last: bool, start: int| #[trigger]
            attempt_begins(waker, last, ops, start) && is_attempt(ops.subrange(start, n)),
    }
}

/// A poll has the operations of its stage.
proof fn lemma_poll_shape<T>(waker: Waker, ops: Seq<Op<T>>, stage: RecvStage<T>)
    requires
        recv_ran(RecvStage::Start, waker, ops) == Some(stage),
    ensures
        poll_shape(waker, stage, ops),
    decreases ops.len(),
{
    if ops.len() > 0 {
        let rest = ops.drop_last();
        let n = ops.len() as int;
        let reached = recv_ran(RecvStage::<T>::Start, waker, rest)->0;
        lemma_poll_shape(waker, rest, reached);
        assert forall|i: int| 0 <= i < n - 1 implies #[trigger] rest[i] == ops[i] by {}
        assert forall|last: bool, start: int|
            attempt_begins(waker, last, rest, start) implies #[trigger] attempt_begins(
            waker,
            last,
            ops,
            start,
        ) by {
            if last {
                assert(rest.subrange(1, start - 1) =~= ops.subrange(1, start - 1));
            }
        }
        match reached {
            RecvStage::Detaching { last } => {
                assert(attempt_begins(waker, last, ops, n - 1));
                if ops.last() == (Op::Visit { before: None::<Parcel<T>>, after: None }) {
                    assert(ops.subrange(n - 1, n) =~= seq![ops.last()]);
                    assert(is_attempt(ops.subrange(n - 1, n)));
                }
            },
            RecvStage::Restoring { last, ticket, item } => {
                assert(attempt_begins(waker, last, ops, n - 2));
                if let Op::Visit { before: Some(other), after: _ } = ops.last() {
                    let parcel = Parcel { ticket, item };
                    assert(ops.subrange(n - 2, n) =~= seq![
                        Op::Visit { before: Some(parcel), after: None },
                        Op::Visit { before: Some(other), after: Some(other) },
                    ]);
                    assert(is_attempt(ops.subrange(n - 2, n)));
                }
            },
            RecvStage::Waking { last, item } => {
                assert(attempt_begins(waker, last, ops, n - 3));
                let parcel = ops[n - 3]->before->0;
                assert(ops.subrange(n - 3, n) =~= seq![
                    Op::Visit { before: Some(parcel), after: None },
                    Op::Visit {
                        before: None,
                        after: Some(Parcel { ticket: parcel.ticket, item: None }),
                    },
                    Op::WakeSender,
                ]);
                assert(is_attempt(ops.subrange(n - 3, n)));
            },
            RecvStage::Registering => {
                assert(rest.subrange(1, n - 1) =~= ops.subrange(1, n - 1));
            },
            _ => {},
        }
    }
}

/// A poll of the receiver asks whether the sender is there, and if so makes an
/// attempt to receive, which is all, or which is followed by the storing of the
/// waker and by one more attempt.
pub proof fn law_receive_is_one_or_two_attempts<T>(
    before: Receiver<T>,
    after: Receiver<T>,
    waker: Waker,
    progress: Progress<Option<T>>,
    ops: Seq<Op<T>>,
)
    requires
        after.polled(before, waker, progress, ops),
    ensures
        ({
            let n = ops.len() as int;
            ||| n == 1 && ops[0] == (Op::<T>::Lock { connected: false })
            ||| ops[0] == (Op::<T>::Lock { connected: true }) && (is_attempt(ops.subrange(1, n))
                || exists|start: int|
                2 <= start <= n && ops[start - 1] == (Op::<T>::RegisterReceiver(waker))
                    && is_attempt(ops.subrange(1, start - 1)) && is_attempt(
                    #[trigger] ops.subrange(start, n),
                ))
        }),
{
    lemma_poll_shape(waker, ops, RecvStage::Done(progress));
    lemma_receive_ops(waker, ops, RecvStage::Done(progress));
}

/// What the receiver does to withdraw its waker: it asks whether the sender is
/// there, and if so withdraws the waker of the receiving task and gives the lock
/// back. It wakes nobody, stores no waker and does not enter the exchange.
pub proof fn law_forget_touches<T>(before: Receiver<T>, after: Receiver<T>, connected: bool)
    requires
        after.forgot(before, connected),
    ensures
        after.ledger().calls() == before.ledger().calls() + (if connected {
            seq![
                Call::<T>::Join { joint: before.site().joint, connected: true },
                Call::Take { place: before.site().inner().receiver_place() },
                Call::Part { joint: before.site().joint },
            ]
        } else {
            seq![Call::<T>::Join { joint: before.site().joint, connected: false }]
        }),
        after.site() == before.site(),
        after.port().issued() == before.port().issued(),
        after.ledger().unfiled() == before.ledger().unfiled(),
        live_locks(after.ledger().calls()) == live_locks(before.ledger().calls()),
{
    let site = before.site();
    let ops = forgetting::<T>(connected);
    lemma_lock_is_given_back(site, before.ledger().calls(), ops, after.ledger().calls());
    reveal_with_fuel(Site::all_calls, 3);
    if connected {
        assert(ops.drop_last() =~= seq![ops[0]]);
        assert(ops.drop_last().drop_last() =~= Seq::empty());
        assert(site.session_calls(ops) =~= seq![
            Call::<T>::Join { joint: site.joint, connected: true },
            Call::Take { place: site.inner().receiver_place() },
            Call::Part { joint: site.joint },
        ]);
    } else {
        assert(ops.drop_last() =~= Seq::empty());
        assert(site.session_calls(ops) =~= seq![
            Call::<T>::Join { joint: site.joint, connected: false },
        ]);
    }
}

/// The answer of an end that is asked whether the other one is there is the
/// answer of `Joint::alive` for its own half of the joint, and nothing else.
pub proof fn law_answer_is_the_joints<T>(send: SendFut<'_, T>, receiver: Receiver<T>, present: bool)
    ensures
        send.may_find_receiver(present) == call_ensures(
            Joint::<Inner>::alive,
            (&send.port().site().joint,),
            present,
        ),
        receiver.may_find_sender(present) == call_ensures(
            Joint::<Inner>::alive,
            (&receiver.port().site().joint,),
            present,
        ),
{
}

/// The debug output of an end is that of its own half of the joint.
pub proof fn law_text_is_the_joints<T>(
    sender: Sender<T>,
    send: SendFut<'_, T>,
    receiver: Receiver<T>,
    text: String,
)
    ensures
        sender.may_show(text) == call_ensures(debug_text, (&sender.port().site().joint,), text),
        send.may_show(text) == call_ensures(debug_text, (&send.port().site().joint,), text),
        receiver.may_show(text) == call_ensures(debug_text, (&receiver.port().site().joint,), text),
{
}

/// The exchange of a new channel was made with an empty slot, and its places for
/// wakers were made with nothing stored in them; nobody was told of a
/// disconnection.
pub proof fn law_new_channel_is_idle<T>(place: Mutex<Exchange<T>>, inner: Inner)
    requires
        made_empty(place),
        inner.made_idle(),
    ensures
        exists|exchange: Exchange<T>|
            exchange@ == None::<Parcel<T>> && #[trigger] call_ensures(
                Mutex::<Exchange<T>>::new,
                (exchange,),
                place,
            ),
        call_ensures(AtomicWaker::new, (), inner.sender_place()),
        call_ensures(AtomicWaker::new, (), inner.receiver_place()),
        inner.farewell().len() == 0,
{
}

} // verus!

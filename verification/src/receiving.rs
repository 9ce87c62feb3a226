//! What the receiver decides when it is polled.
use crate::progress::{Fault, Progress};
use crate::shared::exchange::{restored, Restore};
use crate::shared::journal::Op;
use std::task::Waker;
use vstd::prelude::*;

verus! {

/// The outcome of one attempt to receive.
#[derive(Debug, PartialEq, Eq)]
pub enum Attempt<T> {
    /// An item was taken.
    Received(T),
    /// There is nothing to take.
    Empty,
    /// The parcel was empty, but the parcel of a newer send is there now: try
    /// again.
    Retry,
    /// The exchange is corrupt.
    Fault(Fault),
}

/// What an attempt comes to that found this in a parcel and had this outcome
/// when it put the parcel back.
pub open spec fn concluded<T>(item: Option<T>, outcome: Restore) -> Attempt<T> {
    match (outcome, item) {
        (Restore::Duplicate, _) => Attempt::Fault(Fault::DuplicateItem),
        (_, Some(item)) => Attempt::Received(item),
        (Restore::Restored, None) => Attempt::Empty,
        (Restore::Superseded, None) => Attempt::Retry,
    }
}

/// What a poll reports that ends with this attempt.
pub open spec fn reported<T>(attempt: Attempt<T>) -> Progress<Option<T>> {
    match attempt {
        Attempt::Received(item) => Progress::Ready(Some(item)),
        Attempt::Empty => Progress::Pending,
        Attempt::Retry => Progress::Yield,
        Attempt::Fault(fault) => Progress::Fault(fault),
    }
}

/// What a poll reports that found the other end connected or not, from its two
/// attempts. The second one is made where the first one finds nothing, after
/// the waker has been stored.
pub open spec fn recv_polled<T>(connected: bool, first: Attempt<T>, second: Attempt<T>) -> Progress<
    Option<T>,
> {
    if !connected {
        Progress::Ready(None)
    } else if first is Empty {
        reported(second)
    } else {
        reported(first)
    }
}

/// How far the poll of a receiver has come.
///
/// The poll makes up to two attempts: `last` tells that the waker has been
/// stored and that this attempt is the second one.
pub enum RecvStage<T> {
    /// It has not begun.
    Start,
    /// It is about to take what is in the slot.
    Detaching { last: bool },
    /// It holds the parcel with this ticket, has emptied it, and is about to
    /// return it.
    Restoring { last: bool, ticket: u64, item: Option<T> },
    /// It has returned the parcel and is about to tell the sender.
    Waking { last: bool, item: Option<T> },
    /// It is about to store the waker.
    Registering,
    /// It is over: this is what it reports.
    Done(Progress<Option<T>>),
}

/// The stage of a poll after an attempt. Where the first attempt finds nothing
/// there is a second one.
pub open spec fn attempted<T>(last: bool, attempt: Attempt<T>) -> RecvStage<T> {
    if attempt is Empty && !last {
        RecvStage::Registering
    } else {
        RecvStage::Done(reported(attempt))
    }
}

/// The stage of a poll on behalf of the task with this waker, after its next
/// operation; `None` where the poll does something else at this stage.
pub open spec fn recv_step<T>(stage: RecvStage<T>, waker: Waker, op: Op<T>) -> Option<
    RecvStage<T>,
> {
    match (stage, op) {
        (RecvStage::Start, Op::Lock { connected }) => if connected {
            Some(RecvStage::Detaching { last: false })
        } else {
            Some(RecvStage::Done(Progress::Ready(None)))
        },
        (RecvStage::Detaching { last }, Op::Visit { before, after: None }) => match before {
            Some(parcel) => Some(
                RecvStage::Restoring { last, ticket: parcel.ticket, item: parcel.item },
            ),
            None => Some(attempted(last, Attempt::Empty)),
        },
        (RecvStage::Restoring { last, ticket, item }, Op::Visit { before, after }) => if after
            != restored(before, ticket).1 {
            None
        } else if restored(before, ticket).0 is Restored {
            Some(RecvStage::Waking { last, item })
        } else {
            Some(attempted(last, concluded(item, restored(before, ticket).0)))
        },
        (RecvStage::Waking { last, item }, Op::WakeSender) => Some(
            attempted(last, concluded(item, Restore::Restored)),
        ),
        (RecvStage::Registering, Op::RegisterReceiver(stored)) => if stored == waker {
            Some(RecvStage::Detaching { last: true })
        } else {
            None
        },
        _ => None,
    }
}

/// The stage of a poll that began at `stage`, after these operations; `None`
/// where they are not what the poll does.
pub open spec fn recv_ran<T>(stage: RecvStage<T>, waker: Waker, ops: Seq<Op<T>>) -> Option<
    RecvStage<T>,
>
    decreases ops.len(),
{
    if ops.len() == 0 {
        Some(stage)
    } else {
        match recv_ran(stage, waker, ops.drop_last()) {
            Some(reached) => recv_step(reached, waker, ops.last()),
            None => None,
        }
    }
}

/// The operations by which the receiver withdraws its waker, where it finds the
/// other end connected or not. There is a waker only as long as the other end
/// is connected.
pub open spec fn forgetting<T>(connected: bool) -> Seq<Op<T>> {
    if connected {
        seq![Op::Lock { connected }, Op::TakeReceiverWaker]
    } else {
        seq![Op::Lock { connected }]
    }
}

/// One more operation moves a poll on by one step.
pub broadcast proof fn lemma_recv_ran_push<T>(
    stage: RecvStage<T>,
    waker: Waker,
    ops: Seq<Op<T>>,
    op: Op<T>,
)
    ensures
        #[trigger] recv_ran(stage, waker, ops.push(op)) == (match recv_ran(stage, waker, ops) {
            Some(reached) => recv_step(reached, waker, op),
            None => None,
        }),
{
    assert(ops.push(op).drop_last() =~= ops);
}

/// What an attempt comes to, from what was in the parcel and what became of
/// the parcel.
pub fn conclude<T>(item: Option<T>, outcome: Restore) -> (attempt: Attempt<T>)
    ensures
        attempt == concluded(item, outcome),
{
    match (outcome, item) {
        (Restore::Duplicate, _) => Attempt::Fault(Fault::DuplicateItem),
        (_, Some(item)) => Attempt::Received(item),
        (Restore::Restored, None) => Attempt::Empty,
        (Restore::Superseded, None) => Attempt::Retry,
    }
}

/// What a poll reports that ends with this attempt.
pub fn report<T>(attempt: Attempt<T>) -> (progress: Progress<Option<T>>)
    ensures
        progress == reported(attempt),
{
    match attempt {
        Attempt::Received(item) => Progress::Ready(Some(item)),
        Attempt::Empty => Progress::Pending,
        Attempt::Retry => Progress::Yield,
        Attempt::Fault(fault) => Progress::Fault(fault),
    }
}

/// The bounds on the number of items still to come, where the sender is there
/// or not.
pub fn size_bounds(alive: bool) -> (bounds: (usize, Option<usize>))
    ensures
        bounds == (0usize, if alive {
            None
        } else {
            Some(0usize)
        }),
{
    (
        0,
        if alive {
            None
        } else {
            Some(0)
        },
    )
}

/// Whether no item will come any more, where the sender is there or not.
pub fn ended(alive: bool) -> (over: bool)
    ensures
        over == !alive,
{
    !alive
}

} // verus!

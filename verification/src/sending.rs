//! What a send decides when it is polled.
use crate::progress::{Fault, Progress, SendError};
use crate::shared::exchange::{reclaimed, Parcel, Reclaim};
use crate::shared::journal::Op;
use std::task::Waker;
use vstd::prelude::*;

verus! {

/// Where the item of a send is, as the send knows it between two polls.
#[derive(Debug, PartialEq, Eq)]
pub enum ItemState<T> {
    /// The send has the item.
    Held(T),
    /// The item was offered in a parcel. The send has to get the parcel back
    /// before it knows whether the item was taken.
    Lent,
    /// The send has reported its outcome, and has nothing left.
    Finished,
}

/// Where the item of a send is, once the send has looked.
#[derive(Debug, PartialEq, Eq)]
pub enum Sighting<T> {
    /// The item was never offered.
    Held(T),
    /// The parcel is back: with the item, or without it where the receiver has
    /// taken it.
    Returned(Option<T>),
    /// The receiver is working with the parcel.
    InUse,
    /// The slot holds a parcel of another send.
    Foreign,
    /// The send was finished before.
    Finished,
}

/// What a send does after it has looked.
#[derive(Debug)]
pub enum Resolution<T> {
    /// Offer the item to the receiver and wait. A send that has nothing left
    /// offers an empty parcel.
    Offer(Option<T>),
    /// Stop here, with this state and this result of the poll.
    Settle(ItemState<T>, Progress<Result<(), SendError<T>>>),
}

/// What the outcome of a reclaim tells of the item.
pub open spec fn recognized<T>(found: Reclaim<T>) -> Sighting<T> {
    match found {
        Reclaim::Reclaimed(item) => Sighting::Returned(item),
        Reclaim::InUse => Sighting::InUse,
        Reclaim::Foreign => Sighting::Foreign,
    }
}

/// What a send does about what it sees. An item that nobody has taken is
/// offered while the receiver exists, and returned in an error when it does
/// not. A send whose item is gone has succeeded. A send that is polled again
/// after it has reported its outcome has no item; as long as the receiver exists
/// it waits for its empty parcel to come back.
pub open spec fn resolved<T>(sighting: Sighting<T>, connected: bool) -> Resolution<T> {
    match sighting {
        Sighting::Held(item) | Sighting::Returned(Some(item)) => if connected {
            Resolution::Offer(Some(item))
        } else {
            Resolution::Settle(ItemState::Finished, Progress::Ready(Err(SendError(item))))
        },
        Sighting::Returned(None) => {
            Resolution::Settle(ItemState::Finished, Progress::Ready(Ok(())))
        },
        Sighting::InUse => Resolution::Settle(ItemState::Lent, Progress::Yield),
        Sighting::Foreign => {
            Resolution::Settle(ItemState::Lent, Progress::Fault(Fault::ForeignItem))
        },
        Sighting::Finished => if connected {
            Resolution::Offer(None)
        } else {
            Resolution::Settle(ItemState::Finished, Progress::Ready(Ok(())))
        },
    }
}

/// Where the item is after a poll, and what the poll reports, where it found
/// the other end connected or not. A send that has lent its parcel has asked
/// for it, with this outcome.
pub open spec fn send_polled<T>(state: ItemState<T>, connected: bool, found: Reclaim<T>) -> (
    ItemState<T>,
    Progress<Result<(), SendError<T>>>,
) {
    let sighting = match state {
        ItemState::Held(item) => Sighting::Held(item),
        ItemState::Lent => recognized(found),
        ItemState::Finished => Sighting::Finished,
    };
    match resolved(sighting, connected) {
        Resolution::Offer(_) => (ItemState::Lent, Progress::Pending),
        Resolution::Settle(next, progress) => (next, progress),
    }
}

/// Where the item is after a send was given up, and whether that is done and the
/// item came back, where a send that has lent its parcel has asked for it, with
/// this outcome.
pub open spec fn send_released<T>(state: ItemState<T>, found: Reclaim<T>) -> (
    ItemState<T>,
    Progress<Option<T>>,
) {
    match state {
        ItemState::Held(item) => (ItemState::Finished, Progress::Ready(Some(item))),
        ItemState::Lent => match found {
            Reclaim::Reclaimed(item) => (ItemState::Finished, Progress::Ready(item)),
            Reclaim::InUse => (ItemState::Lent, Progress::Yield),
            Reclaim::Foreign => (ItemState::Lent, Progress::Fault(Fault::ForeignItem)),
        },
        ItemState::Finished => (ItemState::Finished, Progress::Ready(None)),
    }
}

/// How far the poll of a send has come.
pub enum SendStage<T> {
    /// It has not begun; this is where the item is.
    Start(ItemState<T>),
    /// It is about to ask for the parcel that it has lent.
    Looking { connected: bool },
    /// It is about to store the waker, so that it can offer this item.
    Registering(Option<T>),
    /// It is about to offer this item.
    Publishing(Option<T>),
    /// It is about to tell the receiver.
    Notifying,
    /// It is over: where the item is now, and what the poll reports.
    Done(ItemState<T>, Progress<Result<(), SendError<T>>>),
}

/// The stage of a poll after it has seen where its item is.
pub open spec fn resolving<T>(sighting: Sighting<T>, connected: bool) -> SendStage<T> {
    match resolved(sighting, connected) {
        Resolution::Offer(item) => SendStage::Registering(item),
        Resolution::Settle(state, progress) => SendStage::Done(state, progress),
    }
}

/// The stage of the poll of the send with this ticket, on behalf of the task
/// with this waker, after its next operation; `None` where the poll does
/// something else at this stage.
pub open spec fn send_step<T>(
    stage: SendStage<T>,
    ticket: u64,
    waker: Waker,
    op: Op<T>,
) -> Option<SendStage<T>> {
    match (stage, op) {
        (SendStage::Start(ItemState::Held(item)), Op::Lock { connected }) => Some(
            resolving(Sighting::Held(item), connected),
        ),
        (SendStage::Start(ItemState::Lent), Op::Lock { connected }) => Some(
            SendStage::Looking { connected },
        ),
        (SendStage::Start(ItemState::Finished), Op::Lock { connected }) => Some(
            resolving(Sighting::Finished, connected),
        ),
        (SendStage::Looking { connected }, Op::Visit { before, after }) => if after == reclaimed(
            before,
            ticket,
        ).1 {
            Some(resolving(recognized(reclaimed(before, ticket).0), connected))
        } else {
            None
        },
        (SendStage::Registering(item), Op::RegisterSender(stored)) => if stored == waker {
            Some(SendStage::Publishing(item))
        } else {
            None
        },
        (SendStage::Publishing(item), Op::Visit { before: _, after }) => if after == Some(
            Parcel { ticket, item },
        ) {
            Some(SendStage::Notifying)
        } else {
            None
        },
        (SendStage::Notifying, Op::WakeReceiver) => Some(
            SendStage::Done(ItemState::Lent, Progress::Pending),
        ),
        _ => None,
    }
}

/// The stage of a poll that began at `stage`, after these operations; `None`
/// where they are not what the poll does.
pub open spec fn send_ran<T>(
    stage: SendStage<T>,
    ticket: u64,
    waker: Waker,
    ops: Seq<Op<T>>,
) -> Option<SendStage<T>>
    decreases ops.len(),
{
    if ops.len() == 0 {
        Some(stage)
    } else {
        match send_ran(stage, ticket, waker, ops.drop_last()) {
            Some(reached) => send_step(reached, ticket, waker, ops.last()),
            None => None,
        }
    }
}

/// How far the giving up of a send has come.
pub enum ReleaseStage<T> {
    /// It has not begun; this is where the item is.
    Start(ItemState<T>),
    /// It is about to withdraw the waker.
    Withdrawing,
    /// It is about to ask for the parcel.
    Reclaiming { connected: bool },
    /// It is over: where the item is now, and whether the send is given up and
    /// the item came back.
    Done(ItemState<T>, Progress<Option<T>>),
}

/// The stage of the giving up of the send with this ticket after its next
/// operation; `None` where it does something else at this stage. Only a lent
/// parcel has to come back.
pub open spec fn release_step<T>(stage: ReleaseStage<T>, ticket: u64, op: Op<T>) -> Option<
    ReleaseStage<T>,
> {
    match (stage, op) {
        (ReleaseStage::Start(ItemState::Lent), Op::Lock { connected }) => if connected {
            Some(ReleaseStage::Withdrawing)
        } else {
            Some(ReleaseStage::Reclaiming { connected })
        },
        (ReleaseStage::Withdrawing, Op::TakeSenderWaker) => Some(
            ReleaseStage::Reclaiming { connected: true },
        ),
        (ReleaseStage::Reclaiming { connected: _ }, Op::Visit { before, after }) => if after
            == reclaimed(before, ticket).1 {
            let (state, progress) = send_released(ItemState::Lent, reclaimed(before, ticket).0);
            Some(ReleaseStage::Done(state, progress))
        } else {
            None
        },
        _ => None,
    }
}

/// The stage of a giving up that began at `stage`, after these operations;
/// `None` where they are not what it does.
pub open spec fn release_ran<T>(stage: ReleaseStage<T>, ticket: u64, ops: Seq<Op<T>>) -> Option<
    ReleaseStage<T>,
>
    decreases ops.len(),
{
    if ops.len() == 0 {
        Some(stage)
    } else {
        match release_ran(stage, ticket, ops.drop_last()) {
            Some(reached) => release_step(reached, ticket, ops.last()),
            None => None,
        }
    }
}

/// The giving up of a send whose item is not lent needs no operation.
pub open spec fn release_start<T>(state: ItemState<T>) -> ReleaseStage<T> {
    match state {
        ItemState::Held(item) => ReleaseStage::Done(
            ItemState::Finished,
            Progress::Ready(Some(item)),
        ),
        ItemState::Lent => ReleaseStage::Start(state),
        ItemState::Finished => ReleaseStage::Done(ItemState::Finished, Progress::Ready(None)),
    }
}

/// One more operation moves a poll on by one step.
pub broadcast proof fn lemma_send_ran_push<T>(
    stage: SendStage<T>,
    ticket: u64,
    waker: Waker,
    ops: Seq<Op<T>>,
    op: Op<T>,
)
    ensures
        #[trigger] send_ran(stage, ticket, waker, ops.push(op)) == (match send_ran(
            stage,
            ticket,
            waker,
            ops,
        ) {
            Some(reached) => send_step(reached, ticket, waker, op),
            None => None,
        }),
{
    assert(ops.push(op).drop_last() =~= ops);
}

/// One more operation moves the giving up of a send on by one step.
pub broadcast proof fn lemma_release_ran_push<T>(
    stage: ReleaseStage<T>,
    ticket: u64,
    ops: Seq<Op<T>>,
    op: Op<T>,
)
    ensures
        #[trigger] release_ran(stage, ticket, ops.push(op)) == (match release_ran(
            stage,
            ticket,
            ops,
        ) {
            Some(reached) => release_step(reached, ticket, op),
            None => None,
        }),
{
    assert(ops.push(op).drop_last() =~= ops);
}

/// What the outcome of a reclaim tells of the item.
pub fn recognize<T>(found: Reclaim<T>) -> (sighting: Sighting<T>)
    ensures
        sighting == recognized(found),
{
    match found {
        Reclaim::Reclaimed(item) => Sighting::Returned(item),
        Reclaim::InUse => Sighting::InUse,
        Reclaim::Foreign => Sighting::Foreign,
    }
}

/// What a send does about what it sees.
pub fn resolve<T>(sighting: Sighting<T>, connected: bool) -> (resolution: Resolution<T>)
    ensures
        resolution == resolved(sighting, connected),
{
    match sighting {
        Sighting::Held(item) | Sighting::Returned(Some(item)) => {
            if connected {
                Resolution::Offer(Some(item))
            } else {
                Resolution::Settle(ItemState::Finished, Progress::Ready(Err(SendError(item))))
            }
        },
        Sighting::Returned(None) => {
            Resolution::Settle(ItemState::Finished, Progress::Ready(Ok(())))
        },
        Sighting::InUse => Resolution::Settle(ItemState::Lent, Progress::Yield),
        Sighting::Foreign => {
            Resolution::Settle(ItemState::Lent, Progress::Fault(Fault::ForeignItem))
        },
        Sighting::Finished => {
            if connected {
                Resolution::Offer(None)
            } else {
                Resolution::Settle(ItemState::Finished, Progress::Ready(Ok(())))
            }
        },
    }
}

} // verus!

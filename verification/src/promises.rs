//! What the calls of a channel promise, whatever the other end does meanwhile,
//! and what they come to where it does nothing.
use crate::channel::{Receiver, SendFut};
use crate::conduct::{
    forget_happens, lemma_forget_alone, lemma_forget_stages, lemma_recv_alone, lemma_recv_stages,
    lemma_release_alone, lemma_release_stages, lemma_rest, lemma_run_on, lemma_send_alone,
    lemma_send_stages, lemma_send_to_nobody, lemma_taken_is_not_offered, receive_happens,
    received_at_rest, receiver_alone, receiver_goes_on, receiver_ops, release_happens, send_happens,
    sender_alone, sender_goes_on, sender_ops,
};
use crate::footprint::law_unlent_release_does_nothing;
use crate::laws::{law_disconnect_is_final, law_order};
use crate::progress::{Progress, SendError};
use crate::receiving::{forgetting, lemma_recv_ran_push, recv_ran, RecvStage};
use crate::sending::{ItemState, ReleaseStage, SendStage};
use crate::shared::exchange::Parcel;
use crate::shared::journal::Op;
use crate::soundness::{lemma_leads_on, lemma_push_contains, lemma_reachable};
use crate::system::{Event, Fate, ReceiverState, SenderState, System, WakerState};
use std::task::Waker;
use vstd::prelude::*;

verus! {

/// A poll of a send appears in the schedule of its channel: its contract says
/// that the poll has happened as the schedule tells, with the operations that
/// are in the journal of the send.
pub proof fn law_poll_appears_in_schedule<T>(
    before: SendFut<'_, T>,
    after: SendFut<'_, T>,
    waker: Waker,
    progress: Progress<Result<(), SendError<T>>>,
    ops: Seq<Op<T>>,
    s: System<T>,
    schedule: Seq<Event<T>>,
    t: System<T>,
)
    requires
        after.polled(before, waker, progress, ops),
        s.sender == (SenderState::Polling { stage: SendStage::Start(before.state()), waker }),
        s.ticket() == before.ticket(),
        s.run(schedule) == Some(t),
        sender_goes_on(schedule),
        sender_ops(schedule) == ops,
    ensures
        send_happens(s, waker, schedule, t, after.state(), progress),
        t.sender == (SenderState::Resting {
            item: after.state(),
            waiting: if progress is Pending {
                Some(waker)
            } else {
                None
            },
        }),
{
    lemma_send_stages(s, before.state(), waker, schedule, t);
}

/// A poll of the receiver appears in the schedule of its channel: its contract
/// says that the poll has happened as the schedule tells, with the operations
/// that are in the journal of the receiver.
pub proof fn law_receive_appears_in_schedule<T>(
    before: Receiver<T>,
    after: Receiver<T>,
    waker: Waker,
    progress: Progress<Option<T>>,
    ops: Seq<Op<T>>,
    s: System<T>,
    schedule: Seq<Event<T>>,
    t: System<T>,
)
    requires
        after.polled(before, waker, progress, ops),
        s.receiver == (ReceiverState::<T>::Polling { stage: RecvStage::Start, waker }),
        s.run(schedule) == Some(t),
        receiver_goes_on(schedule),
        receiver_ops(schedule) == ops,
    ensures
        receive_happens(s, waker, schedule, t, progress),
        t.receiver == (ReceiverState::<T>::Resting {
            waiting: if progress is Pending {
                Some(waker)
            } else {
                None
            },
        }),
{
    lemma_recv_stages(s, waker, schedule, t);
}

/// The giving up of a send appears in the schedule of its channel: its contract
/// says that it has happened as the schedule tells, with the operations that are
/// in the journal of the send.
pub proof fn law_release_appears_in_schedule<T>(
    before: SendFut<'_, T>,
    after: SendFut<'_, T>,
    progress: Progress<Option<T>>,
    ops: Seq<Op<T>>,
    s: System<T>,
    schedule: Seq<Event<T>>,
    t: System<T>,
)
    requires
        after.released(before, progress, ops),
        before.state() is Lent,
        s.sender == SenderState::<T>::Releasing(ReleaseStage::Start(ItemState::Lent)),
        s.ticket() == before.ticket(),
        s.run(schedule) == Some(t),
        sender_goes_on(schedule),
        sender_ops(schedule) == ops,
    ensures
        release_happens(s, schedule, t, after.state(), progress),
{
}

/// The giving up of a send that has not lent its item, or that is over, is one
/// event of the channel: it changes nothing of what the two ends share and
/// nothing of the receiving end, and the send gets the item back that it holds.
pub proof fn law_unlent_release_appears_in_schedule<T>(
    before: SendFut<'_, T>,
    after: SendFut<'_, T>,
    progress: Progress<Option<T>>,
    ops: Seq<Op<T>>,
    s: System<T>,
)
    requires
        s.reachable(),
        after.released(before, progress, ops),
        !(before.state() is Lent),
        s.sender is Resting,
        s.sender->item == before.state(),
    ensures
        ops.len() == 0,
        after.ledger().calls() == before.ledger().calls(),
        after.ledger().unfiled() == before.ledger().unfiled(),
        s.next(Event::BeginRelease) matches Some(t) && {
            &&& t.sender is Idle
            &&& t.slot == s.slot
            &&& t.sender_waker == s.sender_waker
            &&& t.receiver_waker == s.receiver_waker
            &&& t.hang_up == s.hang_up
            &&& t.receiver == s.receiver
            &&& t.sends == s.sends
            &&& t.taken == s.taken
            &&& t.received == s.received
            &&& t.fault == s.fault
            &&& match before.state() {
                ItemState::Held(item) => {
                    &&& progress == Progress::Ready(Some(item))
                    &&& t.fates == s.fates.update(
                        s.sends.len() - 1,
                        Fate::Cancelled(Some(item)),
                    )
                    &&& s.sends.last() == item
                    &&& !s.taken.contains(s.ticket())
                },
                _ => progress == Progress::Ready(None::<T>) && t.fates == s.fates,
            }
        },
{
    lemma_reachable(s);
    law_unlent_release_does_nothing(before, after, progress, ops);
}

/// The event is a visit to the slot that finds `before` there and leaves `after`.
pub open spec fn visits<T>(
    event: Event<T>,
    before: Option<Parcel<T>>,
    after: Option<Parcel<T>>,
) -> bool {
    match event {
        Event::SenderOp { op, busy: _ } => op == (Op::Visit { before, after }),
        Event::ReceiverOp { op, busy: _ } => op == (Op::Visit { before, after }),
        _ => false,
    }
}

/// No event of the schedule is a visit to the slot.
pub open spec fn stays_out<T>(schedule: Seq<Event<T>>) -> bool {
    forall|i: int, before: Option<Parcel<T>>, after: Option<Parcel<T>>|
        0 <= i < schedule.len() ==> !#[trigger] visits(schedule[i], before, after)
}

/// The slot stays as it is while nobody visits it.
proof fn lemma_slot_stays<T>(s: System<T>, schedule: Seq<Event<T>>, t: System<T>)
    requires
        s.run(schedule) == Some(t),
        stays_out(schedule),
    ensures
        t.slot == s.slot,
    decreases schedule.len(),
{
    if schedule.len() > 0 {
        let rest = schedule.drop_last();
        let last = schedule.last();
        let m = s.run(rest)->0;
        assert forall|i: int, before: Option<Parcel<T>>, after: Option<Parcel<T>>|
            0 <= i < rest.len() implies !#[trigger] visits(rest[i], before, after) by {
            assert(rest[i] == schedule[i]);
            assert(!visits(schedule[i], before, after));
        }
        lemma_slot_stays(s, rest, m);
        assert(last == schedule[schedule.len() - 1]);
        match last {
            Event::SenderOp { op: Op::Visit { before, after }, busy: _ } => {
                assert(visits(last, before, after));
            },
            Event::ReceiverOp { op: Op::Visit { before, after }, busy: _ } => {
                assert(visits(last, before, after));
            },
            _ => {},
        }
    }
}

/// What a visit leaves in the slot is what the next visit finds there, whichever
/// ends make the two and whatever happens between them. The first visit of all
/// finds the slot empty.
pub proof fn law_next_visit_finds_what_was_left<T>(
    s: System<T>,
    first: Event<T>,
    before: Option<Parcel<T>>,
    left: Option<Parcel<T>>,
    schedule: Seq<Event<T>>,
    t: System<T>,
    last: Event<T>,
    found: Option<Parcel<T>>,
    after: Option<Parcel<T>>,
)
    requires
        stays_out(schedule),
        visits(last, found, after),
        t.next(last) is Some,
    ensures
        visits(first, before, left) && s.next(first) is Some && s.next(first)->0.run(schedule)
            == Some(t) ==> found == left,
        System::<T>::initial().run(schedule) == Some(t) ==> found is None,
{
    if visits(first, before, left) && s.next(first) is Some && s.next(first)->0.run(schedule)
        == Some(t) {
        lemma_slot_stays(s.next(first)->0, schedule, t);
    }
    if System::<T>::initial().run(schedule) == Some(t) {
        lemma_slot_stays(System::initial(), schedule, t);
    }
}

/// What a poll of a send reports holds of the channel, whatever the receiving
/// end does meanwhile. It reports success only after the receiver has taken the
/// item; it reports an error only after the receiver has left without the item,
/// and the error has the very item; where it reports that it waits, the waker
/// is stored or was woken already. It never reports a fault.
pub proof fn law_send_outcome<T>(
    s: System<T>,
    waker: Waker,
    schedule: Seq<Event<T>>,
    t: System<T>,
    after: ItemState<T>,
    progress: Progress<Result<(), SendError<T>>>,
)
    requires
        s.reachable(),
        send_happens(s, waker, schedule, t, after, progress),
    ensures
        match progress {
            Progress::Ready(Ok(_)) => {
                &&& after is Finished
                &&& t.taken.contains(s.ticket())
                &&& t.fates.last() is Accepted
            },
            Progress::Ready(Err(error)) => {
                &&& after is Finished
                &&& error.0 == s.sends.last()
                &&& t.receiver is Gone
                &&& !t.taken.contains(s.ticket())
                &&& t.fates.last() == Fate::Returned(error.0)
            },
            Progress::Pending => {
                &&& after is Lent
                &&& t.sender.waiting() == Some(waker)
                &&& t.sender_waker.serves(waker)
            },
            Progress::Yield => after is Lent,
            Progress::Fault(_) => false,
        },
{
    let before = s.sender.stage()->0->Start_0;
    lemma_send_stages(s, before, waker, schedule, t);
    lemma_run_on(System::initial(), s, schedule, t);
    lemma_reachable(s);
    lemma_reachable(t);
    assert(s.fate_inv(s.sends.len() - 1));
    assert(t.fate_inv(t.sends.len() - 1));
}

/// A poll of a send that begins after the receiver has taken the item reports
/// success, whatever the receiving end does meanwhile, or that the receiver is
/// just about to return the parcel. It neither waits nor fails.
pub proof fn law_taken_item_succeeds<T>(
    s: System<T>,
    waker: Waker,
    schedule: Seq<Event<T>>,
    t: System<T>,
    after: ItemState<T>,
    progress: Progress<Result<(), SendError<T>>>,
)
    requires
        s.reachable(),
        s.taken.contains(s.ticket()),
        send_happens(s, waker, schedule, t, after, progress),
    ensures
        progress == Progress::<Result<(), SendError<T>>>::Ready(Ok(())) || progress is Yield,
{
    let before = s.sender.stage()->0->Start_0;
    lemma_reachable(s);
    lemma_taken_is_not_offered(s, before, waker, schedule, t);
}

/// What a poll of the receiver reports holds of the channel, whatever the
/// sending end does meanwhile. An item that it reports is the item of one send,
/// which is later than all sends whose items were handed out before; it reports
/// the end only after the sender has gone; where it reports that it waits, the
/// waker is stored or was woken already. It never reports a fault.
pub proof fn law_receive_outcome<T>(
    s: System<T>,
    waker: Waker,
    schedule: Seq<Event<T>>,
    t: System<T>,
    progress: Progress<Option<T>>,
)
    requires
        s.reachable(),
        receive_happens(s, waker, schedule, t, progress),
    ensures
        match progress {
            Progress::Ready(Some(item)) => {
                let n = s.received.len() as int;
                &&& t.received == s.received.push(item)
                &&& t.taken.len() == n + 1
                &&& t.taken[n] < t.sends.len()
                &&& item == t.sends[t.taken[n] as int]
                &&& forall|i: int| 0 <= i < n ==> #[trigger] t.taken[i] < t.taken[n]
            },
            Progress::Ready(None) => t.sender is Gone && t.received == s.received,
            Progress::Pending => {
                &&& t.received == s.received
                &&& t.receiver.waiting() == Some(waker)
                &&& t.receiver_waker.serves(waker)
            },
            Progress::Yield => t.received == s.received,
            Progress::Fault(_) => false,
        },
{
    lemma_recv_stages(s, waker, schedule, t);
    lemma_run_on(System::initial(), s, schedule, t);
    lemma_reachable(t);
    law_order(t);
    if let Progress::Ready(Some(item)) = progress {
        assert(t.taken_items().len() == t.taken.len());
        assert(t.received[s.received.len() as int] == item);
    }
}

/// What a poll of a send comes to that nobody disturbs, while the receiver is
/// not in the middle of something: success exactly where the receiver has taken
/// the item, an error exactly where the receiver has left without it, and else
/// it waits. It never has to be repeated.
pub open spec fn sent_at_rest<T>(s: System<T>) -> Progress<Result<(), SendError<T>>> {
    if s.taken.contains(s.ticket()) {
        Progress::Ready(Ok(()))
    } else if s.receiver is Gone {
        Progress::Ready(Err(SendError(s.sends.last())))
    } else {
        Progress::Pending
    }
}

/// The result of a poll of a send that nobody disturbs is settled by whether the
/// receiver has taken the item and whether it is there.
pub proof fn law_send_at_rest<T>(
    s: System<T>,
    waker: Waker,
    schedule: Seq<Event<T>>,
    t: System<T>,
    after: ItemState<T>,
    progress: Progress<Result<(), SendError<T>>>,
)
    requires
        s.reachable(),
        send_happens(s, waker, schedule, t, after, progress),
        sender_alone(schedule),
        !(s.receiver is Polling),
    ensures
        progress == sent_at_rest(s),
{
    let before = s.sender.stage()->0->Start_0;
    lemma_reachable(s);
    lemma_send_alone(s, before, waker, schedule, t);
}

/// The receiver has handed out the item of the send exactly where it has taken
/// it, unless it is in the middle of a poll.
pub proof fn law_taken_is_handed_out<T>(s: System<T>, ticket: u64)
    requires
        s.reachable(),
        !(s.receiver is Polling),
    ensures
        s.taken.len() == s.received.len(),
        s.taken.contains(ticket) == exists|i: int|
            0 <= i < s.received.len() && #[trigger] s.taken[i] == ticket,
{
    lemma_reachable(s);
    assert(s.taken_items().len() == s.taken.len());
}

/// A poll of a send that nobody disturbs, and that reports that it waits, has
/// offered the item, has stored its waker in place of any other, and has woken
/// the receiving task if a waker of that was stored. Its own task is not woken.
pub proof fn law_pending_send_has_offered<T>(
    s: System<T>,
    waker: Waker,
    schedule: Seq<Event<T>>,
    t: System<T>,
    after: ItemState<T>,
)
    requires
        s.reachable(),
        send_happens(s, waker, schedule, t, after, Progress::Pending),
        sender_alone(schedule),
        !(s.receiver is Polling),
    ensures
        t.slot == Some(Parcel { ticket: s.ticket(), item: Some(s.sends.last()) }),
        t.sender_waker == (WakerState { stored: Some(waker), woken: s.sender_waker.woken }),
        t.receiver_waker == s.receiver_waker.wake(),
        t.receiver == s.receiver,
        t.taken == s.taken,
        t.received == s.received,
        t.sends == s.sends,
        t.fates == s.fates,
{
    let before = s.sender.stage()->0->Start_0;
    lemma_reachable(s);
    lemma_send_alone(s, before, waker, schedule, t);
    lemma_send_stages(s, before, waker, schedule, t);
}

/// The result of a poll of the receiver that nobody disturbs is settled by what
/// is in the slot and whether the sender is there.
pub proof fn law_receive_at_rest<T>(
    s: System<T>,
    waker: Waker,
    schedule: Seq<Event<T>>,
    t: System<T>,
    progress: Progress<Option<T>>,
)
    requires
        s.reachable(),
        receive_happens(s, waker, schedule, t, progress),
        receiver_alone(schedule),
        !(s.sender is Polling || s.sender is Releasing),
    ensures
        progress == received_at_rest(s),
{
    lemma_reachable(s);
    lemma_recv_alone(s, waker, schedule, t);
}

/// What is in the slot, where no send was leaked: the item of the live send that
/// waits and whose item was not taken, and no other item.
pub proof fn law_offered_item_is_pending<T>(s: System<T>)
    requires
        s.reachable(),
        forall|i: int| 0 <= i < s.fates.len() ==> !(#[trigger] s.fates[i] is Leaked),
    ensures
        s.sender.lending() && !s.taken.contains(s.ticket()) ==> s.slot == Some(
            Parcel { ticket: s.ticket(), item: Some(s.sends.last()) },
        ),
        s.offered() ==> s.sender.lending() && !s.taken.contains(s.ticket()) && s.slot->0.ticket
            == s.ticket(),
{
    lemma_reachable(s);
    if s.offered() {
        let ticket = s.slot->0.ticket;
        assert(s.fates[ticket as int] is InFlight || s.fates[ticket as int] is Leaked);
        assert(s.fate_inv(ticket as int));
    }
}

/// A poll of the receiver that nobody disturbs, and that hands out an item, has
/// emptied the parcel and has woken the waker that was stored for the sending
/// task, once, and nobody else.
pub proof fn law_receive_wakes_sender<T>(
    s: System<T>,
    waker: Waker,
    schedule: Seq<Event<T>>,
    t: System<T>,
    item: T,
)
    requires
        s.reachable(),
        receive_happens(s, waker, schedule, t, Progress::Ready(Some(item))),
        receiver_alone(schedule),
        !(s.sender is Polling || s.sender is Releasing),
    ensures
        s.slot matches Some(parcel) && parcel.item == Some(item) && t.slot == Some(
            Parcel { ticket: parcel.ticket, item: None::<T> },
        ) && t.taken == s.taken.push(parcel.ticket),
        t.sender == s.sender,
        t.receiver_waker == s.receiver_waker,
        t.sender_waker == s.sender_waker.wake(),
        s.sender.waiting() matches Some(last) ==> !s.sender_waker.woken.contains(last)
            ==> t.sender_waker == (WakerState {
            stored: None,
            woken: s.sender_waker.woken.push(last),
        }),
{
    lemma_reachable(s);
    lemma_recv_alone(s, waker, schedule, t);
}

/// An offer that nobody disturbs wakes the receiver's waker of its last poll,
/// once, and nobody else, where the receiver waits and was not woken before.
pub proof fn law_offer_wakes_receiver<T>(
    s: System<T>,
    waker: Waker,
    schedule: Seq<Event<T>>,
    t: System<T>,
    after: ItemState<T>,
    last: Waker,
)
    requires
        s.reachable(),
        send_happens(s, waker, schedule, t, after, Progress::Pending),
        sender_alone(schedule),
        s.receiver.waiting() == Some(last),
        !s.receiver_waker.woken.contains(last),
    ensures
        t.receiver_waker == (WakerState { stored: None, woken: s.receiver_waker.woken.push(last) }),
        t.sender_waker.woken == s.sender_waker.woken,
{
    lemma_reachable(s);
    law_pending_send_has_offered(s, waker, schedule, t, after);
}

/// The drop of the sender wakes the receiver's waker of its last poll, once,
/// where the receiver waits and was not woken before: the sender's half of the
/// joint is dropped, and with it the wakers.
pub proof fn law_sender_drop_wakes_receiver<T>(s: System<T>, last: Waker)
    requires
        s.reachable(),
        s.sender is Idle,
        s.receiver.waiting() == Some(last),
        !s.receiver_waker.woken.contains(last),
    ensures
        s.next(Event::DropSender) matches Some(gone) && gone.next(Event::HangUp) matches Some(told)
            && told.next(Event::HangUp) matches Some(t) && {
            &&& t.sender is Gone
            &&& t.receiver == s.receiver
            &&& t.slot == s.slot
            &&& t.receiver_waker == (WakerState {
                stored: None,
                woken: s.receiver_waker.woken.push(last),
            })
        },
{
    lemma_reachable(s);
}

/// A poll of a send that waits changes nothing but the wakers, where nobody
/// disturbs it and the receiver has not taken the item: the item is offered as
/// before.
pub proof fn law_spurious_send<T>(
    s: System<T>,
    waker: Waker,
    schedule: Seq<Event<T>>,
    t: System<T>,
    after: ItemState<T>,
    progress: Progress<Result<(), SendError<T>>>,
)
    requires
        s.reachable(),
        send_happens(s, waker, schedule, t, after, progress),
        sender_alone(schedule),
        s.sender.lending(),
        s.receiver is Resting,
        !s.taken.contains(s.ticket()),
    ensures
        progress is Pending,
        after is Lent,
        t.slot == s.slot,
        t.receiver == s.receiver,
        t.taken == s.taken,
        t.received == s.received,
        t.sends == s.sends,
        t.fates == s.fates,
        t.fault == s.fault,
        t.hang_up == s.hang_up,
{
    law_send_at_rest(s, waker, schedule, t, after, progress);
    law_pending_send_has_offered(s, waker, schedule, t, after);
    law_send_outcome(s, waker, schedule, t, after, progress);
    lemma_reachable(s);
    lemma_run_on(System::initial(), s, schedule, t);
    lemma_reachable(t);
}

/// A poll of the receiver that finds nothing changes nothing but the wakers,
/// where nobody disturbs it.
pub proof fn law_spurious_receive<T>(
    s: System<T>,
    waker: Waker,
    schedule: Seq<Event<T>>,
    t: System<T>,
    progress: Progress<Option<T>>,
)
    requires
        s.reachable(),
        receive_happens(s, waker, schedule, t, progress),
        receiver_alone(schedule),
        !(s.sender is Polling || s.sender is Releasing || s.sender is Gone),
        !s.offered(),
    ensures
        progress is Pending,
        t.slot == s.slot,
        t.sender == s.sender,
        t.taken == s.taken,
        t.received == s.received,
        t.sends == s.sends,
        t.fates == s.fates,
        t.fault == s.fault,
        t.hang_up == s.hang_up,
        t.receiver_waker.stored == Some(waker),
        t.receiver_waker.woken == s.receiver_waker.woken,
{
    lemma_reachable(s);
    lemma_recv_alone(s, waker, schedule, t);
    lemma_recv_stages(s, waker, schedule, t);
    lemma_run_on(System::initial(), s, schedule, t);
    lemma_reachable(t);
}

/// A send that is given up while nobody disturbs it takes its item back unless
/// the receiver has taken it; the slot is empty then. Its waker is withdrawn,
/// and nobody is woken.
pub proof fn law_release_at_rest<T>(
    s: System<T>,
    schedule: Seq<Event<T>>,
    t: System<T>,
    after: ItemState<T>,
    progress: Progress<Option<T>>,
)
    requires
        s.reachable(),
        release_happens(s, schedule, t, after, progress),
        sender_alone(schedule),
        !(s.receiver is Polling),
    ensures
        progress == Progress::Ready(
            if s.taken.contains(s.ticket()) {
                None
            } else {
                Some(s.sends.last())
            },
        ),
        after is Finished,
        t.sender is Idle,
        t.slot is None,
        t.fates.last() == Fate::Cancelled(progress->Ready_0),
        t.sender_waker.woken == s.sender_waker.woken,
        t.receiver_waker == s.receiver_waker,
        !(s.receiver is Gone) ==> t.sender_waker.stored is None,
{
    lemma_reachable(s);
    lemma_release_alone(s, schedule, t);
}

/// What the giving up of a send comes to holds of the channel, whatever the
/// receiving end does meanwhile. It hands out the very item unless the receiver
/// has taken it, and the receiver does not take it later. It has to wait only
/// where the receiver has taken the item. It never reports a fault.
pub proof fn law_release_outcome<T>(
    s: System<T>,
    schedule: Seq<Event<T>>,
    t: System<T>,
    after: ItemState<T>,
    progress: Progress<Option<T>>,
)
    requires
        s.reachable(),
        release_happens(s, schedule, t, after, progress),
    ensures
        match progress {
            Progress::Ready(back) => {
                &&& after is Finished
                &&& t.sender is Idle
                &&& t.fates.last() == Fate::Cancelled(back)
                &&& back == if t.taken.contains(s.ticket()) {
                    None
                } else {
                    Some(s.sends.last())
                }
            },
            Progress::Yield => after is Lent && t.sender is Yielded && t.taken.contains(s.ticket()),
            _ => false,
        },
{
    lemma_release_stages(s, schedule, t);
    lemma_run_on(System::initial(), s, schedule, t);
    lemma_reachable(s);
    lemma_reachable(t);
    assert(t.fate_inv(t.sends.len() - 1));
}

/// A send that goes away while the receiver is working with its parcel does not
/// get its item back: the receiver has it.
pub proof fn law_vanished_item_is_taken<T>(s: System<T>)
    requires
        s.reachable(),
        s.sender is Yielded,
    ensures
        s.taken.contains(s.ticket()),
        s.next(Event::Vanish) matches Some(t) && t.fates.last() == Fate::<T>::Cancelled(None)
            && t.taken == s.taken && t.slot == s.slot,
{
    lemma_reachable(s);
}

/// The withdrawal of the receiver's waker appears in the schedule of its
/// channel, with the operations that are in the journal of the receiver.
pub proof fn law_forget_appears_in_schedule<T>(
    before: Receiver<T>,
    after: Receiver<T>,
    connected: bool,
    leaving: bool,
    s: System<T>,
    schedule: Seq<Event<T>>,
    t: System<T>,
)
    requires
        after.forgot(before, connected),
        s.receiver == (ReceiverState::<T>::Forgetting { locked: false, leaving }),
        s.run(schedule) == Some(t),
        receiver_goes_on(schedule),
        receiver_ops(schedule) == forgetting::<T>(connected),
    ensures
        forget_happens(s, leaving, schedule, t),
        t.receiver == (if leaving {
            ReceiverState::<T>::Leaving
        } else {
            ReceiverState::Resting { waiting: None }
        }),
{
    lemma_forget_stages(s, leaving, schedule, t);
}

/// A receiver that is not being polled can withdraw its waker at any time: the
/// operations of its contract are possible one after the other, and they come to
/// an end.
pub proof fn law_forget_can_happen<T>(s: System<T>, leaving: bool)
    requires
        s.receiver is Resting,
    ensures
        ({
            let connected = !(s.sender is Gone);
            let ops = forgetting::<T>(connected);
            &&& s.next(Event::BeginForget { leaving }) matches Some(begun)
            &&& begun.next(Event::ReceiverOp { op: ops[0], busy: false }) matches Some(asked)
            &&& if connected {
                &&& ops.len() == 2
                &&& asked.next(Event::ReceiverOp { op: ops[1], busy: false }) matches Some(done)
                &&& done.receiver_waker.stored is None
                &&& if leaving {
                    done.receiver is Leaving
                } else {
                    done.receiver is Resting
                }
            } else {
                &&& ops.len() == 1
                &&& if leaving {
                    asked.receiver is Leaving
                } else {
                    asked.receiver is Resting
                }
            }
        }),
{
}

/// A receiver that withdraws its waker while nobody disturbs it, because it or a
/// future that it has made goes away, changes nothing else: nobody is woken, an
/// item on offer stays on offer, and the ends are connected as before. No waker
/// of the receiver is stored afterwards, where the sender is there.
pub proof fn law_forget_at_rest<T>(
    s: System<T>,
    leaving: bool,
    schedule: Seq<Event<T>>,
    t: System<T>,
)
    requires
        s.reachable(),
        forget_happens(s, leaving, schedule, t),
        receiver_alone(schedule),
        !(s.sender is Polling || s.sender is Releasing),
    ensures
        t == (System {
            receiver: if leaving {
                ReceiverState::<T>::Leaving
            } else {
                ReceiverState::Resting { waiting: None }
            },
            receiver_waker: if s.sender is Gone {
                s.receiver_waker
            } else {
                WakerState { stored: None, woken: s.receiver_waker.woken }
            },
            ..s
        }),
{
    lemma_forget_alone(s, leaving, schedule, t);
}

/// The drop of the receiver, from the withdrawal of its waker on, wakes the
/// waker of the last poll of a send that waits, once, where the send was not
/// woken before. The next poll of that send then reports the error with the very
/// item, unless the receiver has taken it.
pub proof fn law_receiver_drop_wakes_sender<T>(
    s: System<T>,
    schedule: Seq<Event<T>>,
    left: System<T>,
    last: Waker,
    waker: Waker,
    polling: Seq<Event<T>>,
    end: System<T>,
    after: ItemState<T>,
    progress: Progress<Result<(), SendError<T>>>,
)
    requires
        s.reachable(),
        s.sender.waiting() == Some(last),
        !s.sender_waker.woken.contains(last),
        forget_happens(s, true, schedule, left),
        receiver_alone(schedule),
        send_happens(
            dropped(left).next(Event::BeginPoll(waker))->0,
            waker,
            polling,
            end,
            after,
            progress,
        ),
    ensures
        dropped(left).receiver is Gone,
        dropped(left).sender == s.sender,
        dropped(left).slot == s.slot,
        dropped(left).sender_waker == (WakerState {
            stored: None,
            woken: s.sender_waker.woken.push(last),
        }),
        progress == if s.taken.contains(s.ticket()) {
            Progress::Ready(Ok(()))
        } else {
            Progress::Ready(Err(SendError(s.sends.last())))
        },
{
    lemma_reachable(s);
    law_forget_at_rest(s, true, schedule, left);
    lemma_run_on(System::initial(), s, schedule, left);
    let gone = left.next(Event::DropReceiver)->0;
    let told = gone.next(Event::HangUp)->0;
    lemma_leads_on(System::initial(), left, Event::DropReceiver);
    lemma_leads_on(System::initial(), gone, Event::HangUp);
    lemma_leads_on(System::initial(), told, Event::HangUp);
    let over = dropped(left);
    lemma_leads_on(System::initial(), over, Event::BeginPoll(waker));
    law_send_after_disconnect(
        over.next(Event::BeginPoll(waker))->0,
        waker,
        polling,
        end,
        after,
        progress,
    );
}

/// The channel after the receiver's half of the joint was dropped, and with it
/// the wakers.
pub open spec fn dropped<T>(s: System<T>) -> System<T> {
    s.next(Event::DropReceiver)->0.next(Event::HangUp)->0.next(Event::HangUp)->0
}

/// A poll of a send that begins after the receiver has gone comes to an end: it
/// reports success where the receiver has taken the item, and else the error
/// with the very item. That is so at the first poll of every later send.
pub proof fn law_send_after_disconnect<T>(
    s: System<T>,
    waker: Waker,
    schedule: Seq<Event<T>>,
    t: System<T>,
    after: ItemState<T>,
    progress: Progress<Result<(), SendError<T>>>,
)
    requires
        s.reachable(),
        s.receiver is Gone,
        send_happens(s, waker, schedule, t, after, progress),
    ensures
        progress == if s.taken.contains(s.ticket()) {
            Progress::Ready(Ok(()))
        } else {
            Progress::Ready(Err(SendError(s.sends.last())))
        },
{
    let before = s.sender.stage()->0->Start_0;
    lemma_reachable(s);
    lemma_send_to_nobody(s, before, waker, schedule, t);
}

/// A send that is made after the receiver has gone fails at its first poll, with
/// the very item.
pub proof fn law_later_send_fails<T>(
    s: System<T>,
    item: T,
    waker: Waker,
    schedule: Seq<Event<T>>,
    t: System<T>,
    after: ItemState<T>,
    progress: Progress<Result<(), SendError<T>>>,
)
    requires
        s.reachable(),
        s.sender is Idle,
        s.receiver is Gone,
        s.sends.len() < u64::MAX,
        send_happens(
            s.next(Event::Send(item))->0.next(Event::BeginPoll(waker))->0,
            waker,
            schedule,
            t,
            after,
            progress,
        ),
    ensures
        progress == Progress::<Result<(), SendError<T>>>::Ready(Err(SendError(item))),
{
    let sent = s.next(Event::Send(item))->0;
    let polled = sent.next(Event::BeginPoll(waker))->0;
    lemma_leads_on(System::initial(), s, Event::Send(item));
    lemma_leads_on(System::initial(), sent, Event::BeginPoll(waker));
    lemma_reachable(polled);
    law_send_after_disconnect(polled, waker, schedule, t, after, progress);
}

/// The answer to the question whether the sender is there is what the next poll
/// of the receiver would show: a receiver is terminated, and its bounds say that
/// nothing is to come, exactly where the poll reports the end.
pub proof fn law_answer_agrees_with_poll<T>(s: System<T>, present: bool)
    requires
        s.next(Event::Ask { present }) is Some,
    ensures
        s.next(Event::Ask { present }) == Some(s),
        present == !(s.sender is Gone),
        present <==> received_at_rest(s) != Progress::<Option<T>>::Ready(None),
{
}

/// The answer to the question whether the sender is there is the one that the
/// next poll of the receiver gets when it asks.
pub proof fn law_answer_agrees_with_lock<T>(
    s: System<T>,
    present: bool,
    waker: Waker,
    connected: bool,
    busy: bool,
)
    requires
        s.next(Event::Ask { present }) is Some,
    ensures
        s.next(Event::BeginRecv(waker)) matches Some(begun) && (begun.next(
            Event::ReceiverOp { op: Op::Lock { connected }, busy },
        ) is Some <==> connected == present && !busy),
{
}

/// Once the answer was that the sender is gone, it is so ever after, and every
/// later poll reports the end.
pub proof fn law_answer_is_final<T>(
    s: System<T>,
    schedule: Seq<Event<T>>,
    t: System<T>,
    present: bool,
    waker: Waker,
    polling: Seq<Event<T>>,
    end: System<T>,
    progress: Progress<Option<T>>,
)
    requires
        s.next(Event::Ask { present: false }) is Some,
        s.run(schedule) == Some(t),
    ensures
        t.next(Event::Ask { present }) is Some ==> !present,
        receive_happens(t, waker, polling, end, progress) ==> progress == Progress::<
            Option<T>,
        >::Ready(None),
{
    lemma_gone_stays(s, schedule, t);
    if receive_happens(t, waker, polling, end, progress) {
        lemma_end(t, waker, polling, end);
    }
}

/// Every undisturbed round trip hands the item over: the send waits after its
/// first poll, the receiver gets the item of the send, and the send then
/// succeeds.
pub proof fn law_round_trip<T>(
    s: System<T>,
    item: T,
    offering: Seq<Event<T>>,
    offered: System<T>,
    lent: ItemState<T>,
    first: Progress<Result<(), SendError<T>>>,
    taking: Seq<Event<T>>,
    taken: System<T>,
    result: Progress<Option<T>>,
    ending: Seq<Event<T>>,
    ended: System<T>,
    after: ItemState<T>,
    last: Progress<Result<(), SendError<T>>>,
    wakers: (Waker, Waker, Waker),
)
    requires
        s.reachable(),
        s.sender is Idle,
        s.receiver is Resting,
        s.sends.len() < u64::MAX,
        send_happens(
            s.next(Event::Send(item))->0.next(Event::BeginPoll(wakers.0))->0,
            wakers.0,
            offering,
            offered,
            lent,
            first,
        ),
        sender_alone(offering),
        receive_happens(
            offered.next(Event::BeginRecv(wakers.1))->0,
            wakers.1,
            taking,
            taken,
            result,
        ),
        receiver_alone(taking),
        send_happens(
            taken.next(Event::BeginPoll(wakers.2))->0,
            wakers.2,
            ending,
            ended,
            after,
            last,
        ),
        sender_alone(ending),
    ensures
        first is Pending,
        result == Progress::Ready(Some(item)),
        last == Progress::<Result<(), SendError<T>>>::Ready(Ok(())),
        ended.sends == s.sends.push(item),
        ended.received == s.received.push(item),
        ended.fates == s.fates.push(Fate::Accepted),
{
    broadcast use lemma_push_contains;

    let sent = s.next(Event::Send(item))->0;
    let polled = sent.next(Event::BeginPoll(wakers.0))->0;
    lemma_reachable(s);
    lemma_leads_on(System::initial(), s, Event::Send(item));
    lemma_leads_on(System::initial(), sent, Event::BeginPoll(wakers.0));
    lemma_reachable(polled);
    law_send_at_rest(polled, wakers.0, offering, offered, lent, first);
    law_pending_send_has_offered(polled, wakers.0, offering, offered, lent);
    law_send_outcome(polled, wakers.0, offering, offered, lent, first);
    lemma_run_on(System::initial(), polled, offering, offered);

    let asked = offered.next(Event::BeginRecv(wakers.1))->0;
    lemma_leads_on(System::initial(), offered, Event::BeginRecv(wakers.1));
    law_receive_at_rest(asked, wakers.1, taking, taken, result);
    law_receive_wakes_sender(asked, wakers.1, taking, taken, item);
    lemma_recv_stages(asked, wakers.1, taking, taken);
    lemma_reachable(asked);
    lemma_recv_alone(asked, wakers.1, taking, taken);
    lemma_run_on(System::initial(), asked, taking, taken);

    let again = taken.next(Event::BeginPoll(wakers.2))->0;
    lemma_leads_on(System::initial(), taken, Event::BeginPoll(wakers.2));
    law_send_at_rest(again, wakers.2, ending, ended, after, last);
    lemma_reachable(again);
    lemma_send_alone(again, ItemState::Lent, wakers.2, ending, ended);
    lemma_send_stages(again, ItemState::Lent, wakers.2, ending, ended);
    assert(ended.fates =~= s.fates.push(Fate::Accepted));
}

/// An end that is gone is gone after every schedule.
proof fn lemma_gone_stays<T>(s: System<T>, schedule: Seq<Event<T>>, t: System<T>)
    requires
        s.run(schedule) == Some(t),
        s.sender is Gone,
    ensures
        t.sender is Gone,
    decreases schedule.len(),
{
    if schedule.len() > 0 {
        let rest = schedule.drop_last();
        lemma_gone_stays(s, rest, s.run(rest)->0);
        law_disconnect_is_final(s.run(rest)->0, schedule.last());
    }
}

/// Once a poll of the receiver has reported the end, every later poll does, no
/// item is handed out any more, and whoever asks is told that the sender is
/// gone.
pub proof fn law_end_is_reported_ever_after<T>(
    s: System<T>,
    first: Waker,
    earlier: Seq<Event<T>>,
    m: System<T>,
    between: Seq<Event<T>>,
    n: System<T>,
    second: Waker,
    later: Seq<Event<T>>,
    t: System<T>,
    progress: Progress<Option<T>>,
)
    requires
        receive_happens(s, first, earlier, m, Progress::Ready(None)),
        m.run(between) == Some(n),
        receive_happens(n, second, later, t, progress),
    ensures
        progress == Progress::<Option<T>>::Ready(None),
        t.received == n.received,
        t.sender is Gone,
        forall|present: bool|
            (#[trigger] t.next(Event::Ask { present })) is Some ==> !present,
{
    lemma_recv_stages(s, first, earlier, m);
    lemma_gone_stays(m, between, n);
    lemma_gone_stays(n, later, t);
    lemma_end(n, second, later, t);
    lemma_recv_stages(n, second, later, t);
}

/// A poll of the receiver that begins after the sender has gone comes to its end
/// at once.
proof fn lemma_end<T>(s: System<T>, waker: Waker, schedule: Seq<Event<T>>, t: System<T>)
    requires
        s.sender is Gone,
        s.receiver == (ReceiverState::<T>::Polling { stage: RecvStage::Start, waker }),
        receiver_goes_on(schedule),
        s.run(schedule) == Some(t),
    ensures
        recv_ran(RecvStage::Start, waker, receiver_ops(schedule)) matches Some(stage) && (stage
            == RecvStage::<T>::Start || stage == RecvStage::<T>::Done(Progress::Ready(None))),
        t.received == s.received,
    decreases schedule.len(),
{
    broadcast use lemma_recv_ran_push;

    lemma_recv_stages(s, waker, schedule, t);
    if schedule.len() > 0 {
        let rest = schedule.drop_last();
        let r = s.run(rest)->0;
        lemma_rest(schedule);
        lemma_end(s, waker, rest, r);
        lemma_recv_stages(s, waker, rest, r);
        lemma_gone_stays(s, rest, r);
    }
}

} // verus!

use handoff::receiving::{conclude, ended, report, size_bounds, Attempt};
use handoff::sending::{recognize, resolve, ItemState, Resolution, Sighting};
use handoff::{
    Exchange, Fault, Parcel, Progress, Reclaim, Restore, SendError, SyncUnsafeCell,
};

fn full(ticket: u64, item: char) -> Option<Parcel<char>> {
    Some(Parcel {
        ticket,
        item: Some(item),
    })
}

#[test]
fn a_swap_replaces_what_is_in_the_slot() {
    let mut exchange = Exchange::empty();
    assert_eq!(exchange.swap(full(0, 'a')), None);
    assert_eq!(exchange.swap(full(1, 'b')), full(0, 'a'));
    assert_eq!(exchange.swap(None), full(1, 'b'));
    assert_eq!(exchange.swap(None), None);
}

#[test]
fn a_parcel_is_reclaimed_by_its_own_send_only() {
    let mut exchange = Exchange::empty();
    exchange.swap(full(4, 'a'));
    assert_eq!(exchange.reclaim(3), Reclaim::Foreign);
    assert_eq!(
        exchange.reclaim(4),
        Reclaim::Reclaimed(Some('a'))
    );
    assert_eq!(exchange.reclaim(4), Reclaim::InUse);
}

#[test]
fn a_parcel_in_use_comes_back_empty() {
    let mut exchange = Exchange::empty();
    exchange.swap(full(4, 'a'));
    let parcel = exchange.swap(None).unwrap();
    assert_eq!(exchange.reclaim(4), Reclaim::InUse);
    assert_eq!(
        exchange.restore(parcel.ticket),
        Restore::Restored
    );
    assert_eq!(exchange.reclaim(4), Reclaim::Reclaimed(None));
}

#[test]
fn a_newer_parcel_stays_in_the_slot() {
    let mut exchange = Exchange::empty();
    exchange.swap(full(5, 'b'));
    assert_eq!(exchange.restore(4), Restore::Superseded);
    assert_eq!(exchange.restore(5), Restore::Duplicate);
    assert_eq!(exchange.swap(None), full(5, 'b'));
}

#[test]
fn a_reclaim_is_recognized() {
    assert_eq!(
        recognize(Reclaim::Reclaimed(Some(1))),
        Sighting::Returned(Some(1))
    );
    assert_eq!(
        recognize::<u8>(Reclaim::Reclaimed(None)),
        Sighting::Returned(None)
    );
    assert_eq!(recognize::<u8>(Reclaim::InUse), Sighting::InUse);
    assert_eq!(recognize::<u8>(Reclaim::Foreign), Sighting::Foreign);
}

#[test]
fn an_item_that_was_not_taken_is_offered_or_returned() {
    for sighting in [Sighting::Held(1), Sighting::Returned(Some(1))] {
        assert!(matches!(resolve(sighting, true), Resolution::Offer(Some(1))));
    }
    for sighting in [Sighting::Held(1), Sighting::Returned(Some(1))] {
        assert!(matches!(
            resolve(sighting, false),
            Resolution::Settle(ItemState::Finished, Progress::Ready(Err(SendError(1))))
        ));
    }
}

#[test]
fn a_send_without_its_item_is_settled() {
    for connected in [true, false] {
        assert!(matches!(
            resolve::<u8>(Sighting::Returned(None), connected),
            Resolution::Settle(ItemState::Finished, Progress::Ready(Ok(())))
        ));
        assert!(matches!(
            resolve::<u8>(Sighting::InUse, connected),
            Resolution::Settle(ItemState::Lent, Progress::Yield)
        ));
        assert!(matches!(
            resolve::<u8>(Sighting::Foreign, connected),
            Resolution::Settle(ItemState::Lent, Progress::Fault(Fault::ForeignItem))
        ));
    }
    assert!(matches!(
        resolve::<u8>(Sighting::Finished, true),
        Resolution::Offer(None)
    ));
    assert!(matches!(
        resolve::<u8>(Sighting::Finished, false),
        Resolution::Settle(ItemState::Finished, Progress::Ready(Ok(())))
    ));
}

#[test]
fn an_attempt_is_concluded_and_reported() {
    assert_eq!(
        conclude(Some(1), Restore::Restored),
        Attempt::Received(1)
    );
    assert_eq!(
        conclude(Some(1), Restore::Superseded),
        Attempt::Received(1)
    );
    assert_eq!(conclude::<u8>(None, Restore::Restored), Attempt::Empty);
    assert_eq!(conclude::<u8>(None, Restore::Superseded), Attempt::Retry);
    assert_eq!(
        conclude(Some(1), Restore::Duplicate),
        Attempt::Fault(Fault::DuplicateItem)
    );
    assert_eq!(report(Attempt::Received(1)), Progress::Ready(Some(1)));
    assert_eq!(report::<u8>(Attempt::Empty), Progress::Pending);
    assert_eq!(report::<u8>(Attempt::Retry), Progress::Yield);
    assert_eq!(
        report::<u8>(Attempt::Fault(Fault::DuplicateItem)),
        Progress::Fault(Fault::DuplicateItem)
    );
}

#[test]
fn nothing_is_to_come_after_the_end() {
    assert_eq!(size_bounds(true), (0, None));
    assert_eq!(size_bounds(false), (0, Some(0)));
    assert!(!ended(true));
    assert!(ended(false));
}

#[test]
fn a_cell_is_changed_through_its_pointer() {
    let mut cell = SyncUnsafeCell::new(vec![1]);
    cell.get().push(2);
    assert_eq!(*cell.get(), [1, 2]);
    *cell.get() = Vec::new();
    assert!(cell.get().is_empty());
    let mut cell: SyncUnsafeCell<u32> = SyncUnsafeCell::default();
    assert_eq!(*cell.get(), 0);
}

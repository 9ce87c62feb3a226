use std::rc::Rc;
use std::sync::atomic::{AtomicUsize, Ordering};
use std::sync::Arc;
use std::task::{Wake, Waker};

use handoff::{channel, Progress, SendError};

struct Alarm {
    count: AtomicUsize,
}

impl Wake for Alarm {
    fn wake(self: Arc<Self>) {
        self.count.fetch_add(1, Ordering::SeqCst);
    }
}

impl Alarm {
    fn new() -> (Arc<Alarm>, Waker) {
        let alarm = Arc::new(Alarm {
            count: AtomicUsize::new(0),
        });
        let waker = Waker::from(alarm.clone());
        (alarm, waker)
    }

    fn count(&self) -> usize {
        self.count.load(Ordering::SeqCst)
    }
}

#[test]
fn a_send_blocks_until_the_item_is_taken() {
    let (_, waker) = Alarm::new();
    let (mut sender, mut receiver) = channel();
    let mut send = sender.send(7);
    assert!(!send.item_lent());
    assert!(matches!(send.poll(&waker), Progress::Pending));
    assert!(send.item_lent());
    assert!(matches!(send.poll(&waker), Progress::Pending));
    assert!(matches!(send.poll(&waker), Progress::Pending));
    assert_eq!(receiver.poll_next(&waker), Progress::Ready(Some(7)));
    assert!(matches!(send.poll(&waker), Progress::Ready(Ok(()))));
    assert!(!send.item_lent());
}

#[test]
fn an_item_is_taken_once() {
    let (_, waker) = Alarm::new();
    let (mut sender, mut receiver) = channel();
    let mut send = sender.send('a');
    assert!(matches!(send.poll(&waker), Progress::Pending));
    assert_eq!(receiver.poll_next(&waker), Progress::Ready(Some('a')));
    assert_eq!(receiver.poll_next(&waker), Progress::Pending);
    assert_eq!(receiver.poll_next(&waker), Progress::Pending);
    assert!(matches!(send.poll(&waker), Progress::Ready(Ok(()))));
    drop(send);
    let mut send = sender.send('b');
    assert!(matches!(send.poll(&waker), Progress::Pending));
    assert_eq!(receiver.poll_next(&waker), Progress::Ready(Some('b')));
}

#[test]
fn the_receiver_is_woken_by_an_item() {
    let (alarm, waker) = Alarm::new();
    let (_, other) = Alarm::new();
    let (mut sender, mut receiver) = channel();
    assert_eq!(receiver.poll_next(&waker), Progress::Pending);
    let mut send = sender.send(1);
    assert_eq!(alarm.count(), 0);
    assert!(matches!(send.poll(&other), Progress::Pending));
    assert_eq!(alarm.count(), 1);
    assert_eq!(receiver.poll_next(&waker), Progress::Ready(Some(1)));
}

#[test]
fn the_sender_is_woken_when_its_item_is_taken() {
    let (alarm, waker) = Alarm::new();
    let (_, other) = Alarm::new();
    let (mut sender, mut receiver) = channel();
    let mut send = sender.send(1);
    assert!(matches!(send.poll(&waker), Progress::Pending));
    assert_eq!(alarm.count(), 0);
    assert_eq!(receiver.poll_next(&other), Progress::Ready(Some(1)));
    assert_eq!(alarm.count(), 1);
    assert!(matches!(send.poll(&waker), Progress::Ready(Ok(()))));
}

#[test]
fn dropping_the_sender_wakes_the_receiver() {
    let (alarm, waker) = Alarm::new();
    let (sender, mut receiver) = channel::<u8>();
    assert_eq!(receiver.poll_next(&waker), Progress::Pending);
    drop(sender);
    assert_eq!(alarm.count(), 1);
    assert_eq!(receiver.poll_next(&waker), Progress::Ready(None));
    assert_eq!(receiver.poll_next(&waker), Progress::Ready(None));
}

#[test]
fn dropping_the_receiver_wakes_the_sender() {
    let (alarm, waker) = Alarm::new();
    let (mut sender, receiver) = channel();
    let mut send = sender.send(5);
    assert!(matches!(send.poll(&waker), Progress::Pending));
    drop(receiver);
    assert_eq!(alarm.count(), 1);
    assert!(matches!(
        send.poll(&waker),
        Progress::Ready(Err(SendError(5)))
    ));
}

#[test]
fn an_offered_item_comes_back_when_the_receiver_is_gone() {
    let (_, waker) = Alarm::new();
    let (mut sender, receiver) = channel();
    let item = Rc::new(3);
    let mut send = sender.send(item.clone());
    assert!(matches!(send.poll(&waker), Progress::Pending));
    drop(receiver);
    match send.poll(&waker) {
        Progress::Ready(Err(error)) => assert!(Rc::ptr_eq(&error.0, &item)),
        _ => panic!("the send should have failed"),
    }
    assert!(matches!(send.poll(&waker), Progress::Ready(Ok(()))));
}

#[test]
fn a_taken_item_counts_although_the_receiver_is_gone() {
    let (_, waker) = Alarm::new();
    let (mut sender, mut receiver) = channel();
    let mut send = sender.send(5);
    assert!(matches!(send.poll(&waker), Progress::Pending));
    assert_eq!(receiver.poll_next(&waker), Progress::Ready(Some(5)));
    drop(receiver);
    assert!(matches!(send.poll(&waker), Progress::Ready(Ok(()))));
}

#[test]
fn a_dropped_send_takes_its_item_back() {
    let (alarm, waker) = Alarm::new();
    let (_, other) = Alarm::new();
    let (mut sender, mut receiver) = channel();
    let item = Rc::new(8);
    let mut send = sender.send(item.clone());
    assert!(matches!(send.poll(&waker), Progress::Pending));
    assert_eq!(Rc::strong_count(&item), 2);
    drop(send);
    assert_eq!(Rc::strong_count(&item), 1);
    assert_eq!(receiver.poll_next(&other), Progress::Pending);
    drop(receiver);
    assert_eq!(alarm.count(), 0);
}

#[test]
fn a_released_send_hands_its_item_out() {
    let (_, waker) = Alarm::new();
    let (mut sender, mut receiver) = channel();
    let mut send = sender.send(7);
    assert!(!send.is_finished());
    assert_eq!(send.release(), Progress::Ready(Some(7)));
    assert!(send.is_finished());
    assert_eq!(send.release(), Progress::Ready(None));
    drop(send);
    let mut send = sender.send(8);
    assert!(matches!(send.poll(&waker), Progress::Pending));
    assert_eq!(send.release(), Progress::Ready(Some(8)));
    assert!(!send.item_lent());
    assert_eq!(receiver.poll_next(&waker), Progress::Pending);
    drop(send);
    let mut send = sender.send(9);
    assert!(matches!(send.poll(&waker), Progress::Pending));
    assert_eq!(receiver.poll_next(&waker), Progress::Ready(Some(9)));
    assert_eq!(send.release(), Progress::Ready(None));
    assert!(send.is_finished());
}

#[test]
fn a_dropped_send_after_the_end_of_the_receiver_drops_its_item() {
    let (_, waker) = Alarm::new();
    let (mut sender, receiver) = channel();
    let item = Rc::new(8);
    let mut send = sender.send(item.clone());
    assert!(matches!(send.poll(&waker), Progress::Pending));
    drop(receiver);
    drop(send);
    assert_eq!(Rc::strong_count(&item), 1);
}

#[test]
fn a_leaked_send_is_replaced_by_the_next_one() {
    let (_, waker) = Alarm::new();
    let (mut sender, mut receiver) = channel();
    let mut leaked = sender.send(1);
    assert!(matches!(leaked.poll(&waker), Progress::Pending));
    std::mem::forget(leaked);
    let mut send = sender.send(2);
    assert!(matches!(send.poll(&waker), Progress::Pending));
    assert_eq!(receiver.poll_next(&waker), Progress::Ready(Some(2)));
    assert!(matches!(send.poll(&waker), Progress::Ready(Ok(()))));
    assert_eq!(receiver.poll_next(&waker), Progress::Pending);
}

#[test]
fn the_item_of_a_leaked_send_can_be_received() {
    let (_, waker) = Alarm::new();
    let (mut sender, mut receiver) = channel();
    let mut leaked = sender.send(1);
    assert!(matches!(leaked.poll(&waker), Progress::Pending));
    std::mem::forget(leaked);
    assert_eq!(receiver.poll_next(&waker), Progress::Ready(Some(1)));
    let mut send = sender.send(2);
    assert!(matches!(send.poll(&waker), Progress::Pending));
    assert_eq!(receiver.poll_next(&waker), Progress::Ready(Some(2)));
}

#[test]
fn a_finished_send_that_is_polled_again_waits_for_its_empty_parcel() {
    let (alarm, waker) = Alarm::new();
    let (_, other) = Alarm::new();
    let (mut sender, mut receiver) = channel();
    let mut send = sender.send(1);
    assert!(matches!(send.poll(&waker), Progress::Pending));
    assert_eq!(receiver.poll_next(&other), Progress::Ready(Some(1)));
    assert!(matches!(send.poll(&waker), Progress::Ready(Ok(()))));
    assert!(send.is_finished() && send.is_connected());
    assert!(matches!(send.poll(&waker), Progress::Pending));
    assert!(send.item_lent());
    assert_eq!(alarm.count(), 1);
    assert_eq!(receiver.poll_next(&other), Progress::Pending);
    assert_eq!(alarm.count(), 2);
    assert!(matches!(send.poll(&waker), Progress::Ready(Ok(()))));
    drop(receiver);
    assert!(!send.is_connected());
    assert!(matches!(send.poll(&waker), Progress::Ready(Ok(()))));
}

#[test]
fn every_send_fails_after_the_receiver_has_gone() {
    let (_, waker) = Alarm::new();
    let (mut sender, receiver) = channel();
    drop(receiver);
    for item in 0..3 {
        let mut send = sender.send(item);
        match send.poll(&waker) {
            Progress::Ready(Err(error)) => assert_eq!(error.0, item),
            _ => panic!("the send should have failed"),
        }
    }
}

#[test]
fn an_item_on_offer_stays_when_a_receive_is_dropped() {
    let (alarm, waker) = Alarm::new();
    let (receiving, other) = Alarm::new();
    let (mut sender, mut receiver) = channel();
    let mut send = sender.send(1);
    assert!(matches!(send.poll(&waker), Progress::Pending));
    drop(receiver.recv());
    receiver.forget_waker();
    assert_eq!(alarm.count(), 0);
    assert_eq!(receiving.count(), 0);
    assert!(!receiver.is_terminated());
    assert_eq!(receiver.poll_next(&other), Progress::Ready(Some(1)));
}

#[test]
fn a_dropped_receive_is_not_woken() {
    let (alarm, waker) = Alarm::new();
    let (_, other) = Alarm::new();
    let (mut sender, mut receiver) = channel();
    let mut recv = receiver.recv();
    assert_eq!(recv.poll(&waker), Progress::Pending);
    drop(recv);
    let mut send = sender.send(1);
    assert!(matches!(send.poll(&other), Progress::Pending));
    assert_eq!(alarm.count(), 0);
    let mut recv = receiver.recv();
    assert_eq!(recv.poll(&waker), Progress::Ready(Some(1)));
}

#[test]
fn a_dropped_receiver_is_not_woken() {
    let (alarm, waker) = Alarm::new();
    let (sender, mut receiver) = channel::<u8>();
    assert_eq!(receiver.poll_next(&waker), Progress::Pending);
    drop(receiver);
    assert_eq!(alarm.count(), 0);
    drop(sender);
    assert_eq!(alarm.count(), 0);
}

#[test]
fn the_end_of_the_sender_is_final() {
    let (sender, receiver) = channel::<u8>();
    assert_eq!(receiver.size_hint(), (0, None));
    assert!(!receiver.is_terminated());
    drop(sender);
    assert_eq!(receiver.size_hint(), (0, Some(0)));
    assert!(receiver.is_terminated());
    assert!(receiver.is_terminated());
}

#[test]
fn debug_text_tells_whether_the_other_end_is_there() {
    let (mut sender, receiver) = channel::<u8>();
    assert_eq!(sender.inner_text(), "Joint(<paired>)");
    assert_eq!(receiver.inner_text(), "Joint(<paired>)");
    assert_eq!(sender.send(1).inner_text(), "Joint(<paired>)");
    drop(receiver);
    assert_eq!(sender.inner_text(), "Joint(<unpaired>)");
    assert_eq!(sender.send(1).inner_text(), "Joint(<unpaired>)");
}

#[test]
fn the_error_of_a_send_has_a_text() {
    let error = SendError(4);
    assert_eq!(error.message(), "tried to send on a disconnected channel");
    assert_eq!(error.clone().0, 4);
}

#[test]
fn items_arrive_in_the_order_of_the_sends() {
    let (_, waker) = Alarm::new();
    let (mut sender, mut receiver) = channel();
    let mut received = Vec::new();
    for item in [3, 1, 2] {
        let mut send = sender.send(item);
        assert!(matches!(send.poll(&waker), Progress::Pending));
        match receiver.poll_next(&waker) {
            Progress::Ready(Some(item)) => received.push(item),
            _ => panic!("an item is there"),
        }
        assert!(matches!(send.poll(&waker), Progress::Ready(Ok(()))));
    }
    assert_eq!(received, [3, 1, 2]);
}

#[test]
fn the_sender_is_woken_by_the_waker_of_its_last_poll() {
    let (first, one) = Alarm::new();
    let (second, two) = Alarm::new();
    let (receiving, other) = Alarm::new();
    let (mut sender, mut receiver) = channel();
    let mut send = sender.send(1);
    assert!(matches!(send.poll(&one), Progress::Pending));
    assert!(matches!(send.poll(&two), Progress::Pending));
    assert_eq!(receiver.poll_next(&other), Progress::Ready(Some(1)));
    assert_eq!(first.count(), 0);
    assert_eq!(second.count(), 1);
    assert_eq!(receiving.count(), 0);
    assert_eq!(receiver.poll_next(&other), Progress::Pending);
    assert!(matches!(send.poll(&two), Progress::Ready(Ok(()))));
    assert_eq!(second.count(), 1);
}

#[test]
fn the_receiver_is_woken_by_the_waker_of_its_last_poll() {
    let (first, one) = Alarm::new();
    let (second, two) = Alarm::new();
    let (sending, other) = Alarm::new();
    let (mut sender, mut receiver) = channel();
    assert_eq!(receiver.poll_next(&one), Progress::Pending);
    assert_eq!(receiver.poll_next(&two), Progress::Pending);
    let mut send = sender.send(1);
    assert!(matches!(send.poll(&other), Progress::Pending));
    assert_eq!(first.count(), 0);
    assert_eq!(second.count(), 1);
    assert_eq!(sending.count(), 0);
}

#[test]
fn making_a_send_has_no_effect() {
    let (alarm, waker) = Alarm::new();
    let (mut sender, mut receiver) = channel();
    assert_eq!(receiver.poll_next(&waker), Progress::Pending);
    let send = sender.send(1);
    assert_eq!(alarm.count(), 0);
    assert_eq!(receiver.poll_next(&waker), Progress::Pending);
    drop(send);
    assert_eq!(alarm.count(), 0);
    assert_eq!(receiver.poll_next(&waker), Progress::Pending);
}

#[test]
fn the_item_of_a_leaked_send_is_not_dropped() {
    let (_, waker) = Alarm::new();
    let (mut sender, receiver) = channel();
    let item = Rc::new(1);
    let mut leaked = sender.send(item.clone());
    assert!(matches!(leaked.poll(&waker), Progress::Pending));
    std::mem::forget(leaked);
    assert_eq!(Rc::strong_count(&item), 2);
    let next = Rc::new(2);
    let mut send = sender.send(next.clone());
    assert!(matches!(send.poll(&waker), Progress::Pending));
    assert_eq!(Rc::strong_count(&item), 2);
    drop(send);
    assert_eq!(Rc::strong_count(&next), 1);
    let mut leaked = sender.send(next.clone());
    assert!(matches!(leaked.poll(&waker), Progress::Pending));
    std::mem::forget(leaked);
    drop(sender);
    drop(receiver);
    assert_eq!(Rc::strong_count(&next), 2);
}

#[test]
fn spurious_polls_change_no_later_result() {
    let (_, waker) = Alarm::new();
    let (mut sender, mut receiver) = channel();
    assert_eq!(receiver.poll_next(&waker), Progress::Pending);
    assert_eq!(receiver.poll_next(&waker), Progress::Pending);
    let mut send = sender.send(9);
    assert!(matches!(send.poll(&waker), Progress::Pending));
    assert!(matches!(send.poll(&waker), Progress::Pending));
    assert_eq!(receiver.poll_next(&waker), Progress::Ready(Some(9)));
    assert_eq!(receiver.poll_next(&waker), Progress::Pending);
    assert!(matches!(send.poll(&waker), Progress::Ready(Ok(()))));
    drop(send);
    drop(sender);
    assert_eq!(receiver.poll_next(&waker), Progress::Ready(None));
    assert_eq!(receiver.poll_next(&waker), Progress::Ready(None));
}

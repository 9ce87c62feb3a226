use std::task::Poll;

use futures::executor::block_on;
use futures::future::{join, poll_fn};
use handoff::{channel, Progress, Receiver, SendError, Sender};
use tokio::runtime::{Builder, Runtime};
use tokio::task::{spawn, spawn_blocking, yield_now};

fn settle<R>(mut poll: impl FnMut() -> Progress<R>) -> Poll<R> {
    loop {
        match poll() {
            Progress::Ready(result) => return Poll::Ready(result),
            Progress::Pending => return Poll::Pending,
            Progress::Yield => continue,
            Progress::Fault(fault) => panic!("{:?}", fault),
        }
    }
}

async fn send<T>(sender: &mut Sender<T>, item: T) -> Result<(), SendError<T>> {
    let mut future = sender.send(item);
    poll_fn(move |cx| settle(|| future.poll(cx.waker()))).await
}

async fn recv<T>(receiver: &mut Receiver<T>) -> Option<T> {
    let mut future = receiver.recv();
    poll_fn(move |cx| settle(|| future.poll(cx.waker()))).await
}

async fn next<T>(receiver: &mut Receiver<T>) -> Option<T> {
    poll_fn(move |cx| settle(|| receiver.poll_next(cx.waker()))).await
}

async fn collect<T>(mut receiver: Receiver<T>) -> Vec<T> {
    let mut items = Vec::new();
    while let Some(item) = next(&mut receiver).await {
        items.push(item);
    }
    items
}

fn single_thread() -> Runtime {
    Builder::new_current_thread().build().unwrap()
}

fn multi_thread() -> Runtime {
    Builder::new_multi_thread()
        .worker_threads(4)
        .build()
        .unwrap()
}

#[test]
fn basic_test() {
    single_thread().block_on(async {
        let (mut sender, receiver) = channel();

        let sender_task = spawn(async move {
            send(&mut sender, 1).await.unwrap();
            send(&mut sender, 2).await.unwrap();
            send(&mut sender, 3).await.unwrap();
            send(&mut sender, 4).await.unwrap();
        });

        let data: Vec<i32> = collect(receiver).await;
        sender_task.await.unwrap();

        assert_eq!(data, [1, 2, 3, 4]);
    });
}

#[test]
fn taskless() {
    single_thread().block_on(async {
        let (mut sender, mut receiver) = channel();

        let (sent, received) = join(send(&mut sender, 1), next(&mut receiver)).await;
        sent.unwrap();
        assert_eq!(received.unwrap(), 1);

        let (received, sent) = join(next(&mut receiver), send(&mut sender, 2)).await;
        sent.unwrap();
        assert_eq!(received.unwrap(), 2);
    });
}

#[test]
fn multi_thread_tasks() {
    multi_thread().block_on(async {
        let (mut sender, mut receiver) = channel();

        let sender_task = spawn(async move {
            for i in 0..1_000 {
                send(&mut sender, i).await.unwrap();
            }
        });

        let receiver_task = spawn(async move {
            for i in 0..1_000 {
                assert_eq!(next(&mut receiver).await.unwrap(), i);
            }
        });

        sender_task.await.unwrap();
        receiver_task.await.unwrap();
    });
}

#[test]
fn sync_test() {
    multi_thread().block_on(async {
        let (mut sender, mut receiver) = channel();

        let sender_thread = spawn_blocking(move || {
            block_on(async move {
                for i in 0..1_000 {
                    send(&mut sender, i).await.unwrap();
                }
            })
        });

        let receiver_thread = spawn_blocking(move || {
            for i in 0..1_000 {
                assert_eq!(block_on(next(&mut receiver)).unwrap(), i);
            }
        });

        receiver_thread.await.unwrap();
        sender_thread.await.unwrap();
    });
}

#[test]
fn sync_test_two_threads() {
    multi_thread().block_on(async {
        let (mut sender, mut receiver) = channel();

        let sender_thread = spawn_blocking(move || {
            for i in 0..100 {
                block_on(send(&mut sender, i)).expect("receiver disconnected");
            }
        });

        let receiver_thread = spawn_blocking(move || {
            for i in 0..100 {
                let value = block_on(recv(&mut receiver)).expect("sender disconnected");
                assert_eq!(value, i);
            }
        });

        sender_thread.await.expect("sender panicked");
        receiver_thread.await.expect("receiver panicked");
    });
}

#[test]
fn basic_sender_close() {
    single_thread().block_on(async {
        let (sender, mut receiver) = channel();

        drop(sender);

        let out: Option<i32> = recv(&mut receiver).await;
        assert_eq!(out, None);
    });
}

#[test]
fn basic_receiver_close() {
    single_thread().block_on(async {
        let (mut sender, receiver) = channel();

        drop(receiver);

        assert!(matches!(send(&mut sender, 1).await, Err(SendError(1))));
    });
}

#[test]
fn sender_close_while_waiting() {
    single_thread().block_on(async {
        let (sender, mut receiver) = channel();

        let sender_task = spawn(async move {
            yield_now().await;
            drop(sender);
        });

        let out: Option<i32> = recv(&mut receiver).await;
        assert_eq!(out, None);
        sender_task.await.unwrap();
    });
}

#[test]
fn receiver_close_while_waiting() {
    single_thread().block_on(async {
        let (mut sender, receiver) = channel();

        let receiver_task = spawn(async move {
            yield_now().await;
            drop(receiver);
        });

        assert!(matches!(send(&mut sender, 1).await, Err(SendError(1))));
        receiver_task.await.unwrap();
    });
}

#[test]
fn sender_cancels() {
    single_thread().block_on(async {
        let (mut sender, mut receiver) = channel();

        let sender_task = spawn(async move {
            send(&mut sender, 1).await.unwrap();
            send(&mut sender, 2).await.unwrap();
        });

        assert_eq!(next(&mut receiver).await.unwrap(), 1);
        sender_task.abort();
        assert!(matches!(next(&mut receiver).await, None));
        assert!(sender_task.await.unwrap_err().is_cancelled());
    });
}

#[test]
fn basic_example() {
    block_on(async {
        let (mut sender, mut receiver) = channel();

        let send_task = async move {
            for i in 0..100 {
                send(&mut sender, i).await.expect("channel disconnected");
            }
        };

        let recv_task = async move {
            for i in 0..100 {
                let value = recv(&mut receiver).await.expect("channel disconnected");
                assert_eq!(value, i);
            }
        };

        join(send_task, recv_task).await;
    });
}

#[test]
fn disconnect_example() {
    block_on(async {
        let (mut sender, mut receiver) = channel();

        let send_task = async move {
            for i in 0..50 {
                send(&mut sender, i).await.expect("channel disconnected");
            }
        };

        let recv_task = async move {
            for i in 0..50 {
                let value = recv(&mut receiver).await.expect("channel disconnected");
                assert_eq!(value, i);
            }

            assert!(recv(&mut receiver).await.is_none());
        };

        join(send_task, recv_task).await;
    });
}

#[test]
fn many_items_across_threads_arrive_in_order() {
    multi_thread().block_on(async {
        let (mut sender, receiver) = channel();

        let sender_task = spawn(async move {
            for i in 0..20_000u32 {
                send(&mut sender, i).await.unwrap();
            }
        });

        let received = spawn(collect(receiver)).await.unwrap();
        sender_task.await.unwrap();
        assert_eq!(received, (0..20_000u32).collect::<Vec<_>>());
    });
}

#[test]
fn a_send_loses_to_the_end_of_the_receiver_across_threads() {
    multi_thread().block_on(async {
        for round in 0..200u32 {
            let (mut sender, mut receiver) = channel();
            let receiver_task = spawn(async move { next(&mut receiver).await });
            let first = send(&mut sender, round).await;
            let second = send(&mut sender, round + 1).await;
            assert!(first.is_ok());
            assert!(matches!(second, Err(SendError(item)) if item == round + 1));
            assert_eq!(receiver_task.await.unwrap(), Some(round));
        }
    });
}

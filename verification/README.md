# handoff

`handoff` is a single-producer / single-consumer, unbuffered, asynchronous
channel, written and verified in Verus. All sends block until the receiver
receives the item, and dropping either end unblocks the other one.

## Layout

- `src/channel.rs`: `channel`, `Sender`, `SendFut`, `Receiver` and `RecvFut`.
- `src/sending.rs`, `src/receiving.rs`: what a poll decides, and the operations
  that it does, step by step.
- `src/shared/`: what the two ends share. `exchange.rs` is the slot that parcels
  go through, `slot.rs` makes its operations atomic, `signals.rs` holds the
  wakers, `journal.rs` is the record in which every call enters itself, and
  `link.rs` is what an end reaches all of this through.
- `src/system.rs`: both ends together, moving by one atomic operation at a time
  in any order.
- `src/soundness.rs`: the invariant of such a system, and its proof.
- `src/laws.rs`: what holds of a channel after every schedule.
- `src/conduct.rs`: how the calls of the two ends appear in a schedule.
- `src/promises.rs`: what holds of the calls.
- `src/cell.rs`: `SyncUnsafeCell`, a cell that is changed through a pointer.
- `app/`: the channel as `Future`s and a `Stream`, with the loops that yield to
  the other thread.

## What is trusted

The contracts of `std::sync::Mutex`, of `futures::task::AtomicWaker` and of
`twinsies::Joint` are taken from their documentation and sources. They say that a
call was made, on which place, and with what; what other threads do decides what
these calls return. That the calls on one place take effect one after the other
is what a schedule of `src/system.rs` stands for. The destructor of what the ends
share wakes both tasks; it is taken for granted that a waker does not panic
there.

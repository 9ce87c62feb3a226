//! `handoff` is a single-producer / single-consumer, unbuffered channel for
//! asynchronous components. It is intended for cases where you want blocking
//! communication between two async components, where all sends block until the
//! receiver receives the item.
//!
//! A new channel is created with [`channel`], which returns a [`Sender`] and a
//! [`Receiver`]. Items can be sent into the channel with [`Sender::send`], and
//! received with [`Receiver::recv`]. Either end of the channel can be dropped,
//! which will cause the other end to unblock and report channel disconnection.
//!
//! The futures of the channel are polled with the waker of their task and
//! report a [`Progress`]; an executor's future is a loop around such a poll.
//!
//! An item travels in a [`Parcel`] through the slot of an [`Exchange`]. Every
//! call on what the two ends share enters itself in a journal, with the place
//! that it is made on. The contract of a poll says which operations it does on
//! the places of its channel, in which order, that it does nothing else, and
//! what it reports for each result that they can have: see [`sending`] and
//! [`receiving`]. The module [`footprint`] says what each of them touches and
//! leaves behind, entry by entry of the journal. The module [`system`] puts the
//! two ends together, [`laws`] says what holds of a channel however they
//! interleave, [`conduct`] finds the polls in an interleaving again, and
//! [`promises`] says what holds of them.

mod cell;
mod channel;
pub mod conduct;
pub mod footprint;
pub mod laws;
mod progress;
pub mod promises;
pub mod receiving;
pub mod sending;
pub mod shared;
pub mod soundness;
pub mod system;

pub use cell::SyncUnsafeCell;
pub use channel::{channel, Receiver, RecvFut, SendFut, Sender};
pub use progress::{Fault, Progress, SendError};
pub use shared::exchange::{Exchange, Parcel, Reclaim, Restore};
pub use shared::journal::{Call, Op, Site};

//! What a poll reports, and the error of a failed send.
use vstd::prelude::*;

verus! {

/// A state that no schedule of a channel leads to.
#[derive(Clone, Copy, Debug, PartialEq, Eq)]
pub enum Fault {
    /// The slot holds the parcel of another send while this one has lent its
    /// own.
    ForeignItem,
    /// The receiver found the parcel that it is working on back in the slot.
    DuplicateItem,
}

/// The result of one poll.
#[derive(Debug, PartialEq, Eq)]
pub enum Progress<R> {
    /// The operation is complete.
    Ready(R),
    /// The operation has to wait; the task is woken when it can go on.
    Pending,
    /// The other end is in the middle of a short piece of work. Nobody wakes
    /// the task: yield to the other thread and poll again.
    Yield,
    /// The memory of the channel is corrupt.
    Fault(Fault),
}

/// An error from a [`send`](crate::Sender::send) operation.
///
/// This error means that the send failed due to a disconnect; this is the only
/// way sends can fail. The error holds the item that failed to send.
#[derive(Clone, Copy, Debug)]
pub struct SendError<T>(
    /// The item that failed to send
    pub T,
);

impl<T> SendError<T> {
    /// The text of the error.
    pub fn message(&self) -> (text: &'static str)
        ensures
            text@ == "tried to send on a disconnected channel"@,
    {
        "tried to send on a disconnected channel"
    }
}

} // verus!

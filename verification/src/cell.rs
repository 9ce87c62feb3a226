//! A cell whose value is reached through a pointer.
use vstd::prelude::*;

verus! {

/// A value that is read and changed through the pointer that
/// [`get`](SyncUnsafeCell::get) hands out.
///
/// The pointer is exclusive as long as it lives, so the cell can be shared
/// between threads wherever its value can.
#[derive(Debug, Default)]
pub struct SyncUnsafeCell<T> {
    cell: T,
}

impl<T> View for SyncUnsafeCell<T> {
    type V = T;

    /// The value in the cell.
    closed spec fn view(&self) -> T {
        self.cell
    }
}

impl<T> SyncUnsafeCell<T> {
    /// A cell that holds `value`.
    #[must_use]
    pub fn new(value: T) -> (cell: Self)
        ensures
            cell@ == value,
    {
        SyncUnsafeCell { cell: value }
    }

    /// A pointer to the value in the cell. It is never null, and what is
    /// written through it is what the cell holds afterwards.
    #[must_use]
    pub fn get(&mut self) -> (pointer: &mut T)
        ensures
            *pointer == old(self)@,
            final(self)@ == *final(pointer),
    {
        &mut self.cell
    }
}

} // verus!

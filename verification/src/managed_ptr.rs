//! The slot in which a table keeps one entry.

use vstd::prelude::*;

verus! {

/// An owning handle to one heap-allocated item. Whoever holds the handle has
/// the item to itself; it is given up again with `free`.
pub struct ManagedPtr<T> {
    item: Box<T>,
}

impl<T> ManagedPtr<T> {
    /// The item that the handle owns.
    pub closed spec fn view(&self) -> T {
        *self.item
    }

    pub fn new(item: Box<T>) -> (ptr: ManagedPtr<T>)
        ensures
            ptr@ == *item,
    {
        ManagedPtr { item }
    }

    /// Read access to the item.
    pub fn get(&self) -> (item: &T)
        ensures
            *item == self@,
    {
        &*self.item
    }

    /// Write access to the item: what is written through the reference is
    /// what the handle owns afterwards.
    pub fn get_mut(&mut self) -> (item: &mut T)
        ensures
            *item == old(self)@,
            final(self)@ == *final(item),
    {
        &mut *self.item
    }

    /// Gives up the handle and hands the item back.
    pub fn free(self) -> (item: T)
        ensures
            item == self@,
    {
        *self.item
    }
}

} // verus!

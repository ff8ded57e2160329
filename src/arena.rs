//! An append-only store addressed by index.

use vstd::prelude::*;

verus! {

/// An append-only sequence of items. Nothing is ever removed, so an index
/// handed out by `push` stays valid for the life of the arena.
pub struct Arena<T> {
    items: Vec<T>,
}

impl<T> View for Arena<T> {
    type V = Seq<T>;

    closed spec fn view(&self) -> Seq<T> {
        self.items@
    }
}

impl<T> Arena<T> {
    /// An empty arena.
    pub fn new() -> (r: Self)
        ensures
            r@ == Seq::<T>::empty(),
    {
        Arena { items: Vec::new() }
    }

    /// The number of items allocated so far.
    pub fn len(&self) -> (r: usize)
        ensures
            r == self@.len(),
    {
        self.items.len()
    }

    /// Appends `item` and returns its index, which is the old length.
    pub fn push(&mut self, item: T) -> (r: usize)
        ensures
            r == old(self)@.len(),
            final(self)@ == old(self)@.push(item),
    {
        self.items.push(item);
        self.items.len() - 1
    }

    /// The item at index `i`.
    pub fn get(&self, i: usize) -> (r: &T)
        requires
            i < self@.len(),
        ensures
            *r == self@[i as int],
    {
        &self.items[i]
    }

    /// The item at index `i`, for mutation in place.
    pub fn get_mut(&mut self, i: usize) -> (r: &mut T)
        requires
            i < old(self)@.len(),
        ensures
            *r == old(self)@[i as int],
            final(self)@ == old(self)@.update(i as int, *final(r)),
    {
        &mut self.items[i]
    }
}

} // verus!

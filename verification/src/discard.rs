//! Dropping items one by one, with a record of the order.

use vstd::prelude::*;

verus! {

/// The items that have been dropped, in their order.
pub struct Bin<T> {
    items: Ghost<Seq<T>>,
}

/// The items that have been dropped in all, in their order. There will be no more.
pub struct Emptied<T> {
    items: Ghost<Seq<T>>,
}

impl<T> Emptied<T> {
    /// The items.
    pub closed spec fn items(&self) -> Seq<T> {
        self.items@
    }
}

impl<T> Bin<T> {
    /// The items so far.
    pub closed spec fn items(&self) -> Seq<T> {
        self.items@
    }

    /// A record without items.
    pub fn new() -> (bin: Bin<T>)
        ensures
            bin.items() == Seq::<T>::empty(),
        opens_invariants none
        no_unwind
    {
        Bin { items: Ghost(Seq::empty()) }
    }

    /// Drops an item.
    pub fn throw(&mut self, item: T)
        ensures
            final(self).items() == old(self).items().push(item),
        opens_invariants none
        no_unwind
    {
        self.items = Ghost(self.items@.push(item));
    }

    /// Drops no more items.
    pub fn finish(self) -> (emptied: Emptied<T>)
        ensures
            emptied.items() == self.items(),
        opens_invariants none
        no_unwind
    {
        Emptied { items: self.items }
    }
}

} // verus!

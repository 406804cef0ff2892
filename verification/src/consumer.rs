//! The end of a ring buffer that items are taken out at.

use vstd::prelude::*;
use crate::ring_buffer::{advance, after_pop, occupied_ranges, wrap, RingBuffer};

verus! {

/// All slots of two runs hold an item, but for the first `n`, which may be vacant.
pub open spec fn kept<T>(left: Seq<Option<T>>, right: Seq<Option<T>>, n: int) -> bool {
    &&& 0 <= n <= left.len() + right.len()
    &&& forall|i: int| n <= i < left.len() + right.len() ==> (#[trigger] (left + right)[i]) is Some
}

/// The items of two runs behind the first `n` slots.
pub open spec fn items_from<T>(left: Seq<Option<T>>, right: Seq<Option<T>>, n: int) -> Seq<T> {
    Seq::new((left.len() + right.len() - n) as nat, |i: int| (left + right)[n + i]->Some_0)
}

/// Consumer part of ring buffer.
pub struct Consumer<'a, T> {
    /// The ring buffer.
    pub rb: &'a mut RingBuffer<T>,
    /// Whether a read from an empty buffer fails instead of waiting.
    pub nonblocking: bool,
}

impl<'a, T> Consumer<'a, T> {
    /// The consumer end of a ring buffer. It blocks.
    pub fn new(rb: &'a mut RingBuffer<T>) -> (consumer: Consumer<'a, T>)
        ensures
            *consumer.rb == *old(rb),
            *final(consumer.rb) == *final(rb),
            !consumer.nonblocking,
    {
        Consumer { rb, nonblocking: false }
    }

    /// Allows to read from ring buffer memory directly.
    ///
    /// `f` takes two slices of occupied slots, the second one or both of them may
    /// be empty. First slice contains older items. `f` returns the number of items
    /// that it has taken out, in order from the first slot of the first slice on,
    /// and leaves the others where they are, or others in their place.
    ///
    /// The method **always** calls `f` even if ring buffer is empty, and returns
    /// the number returned from `f`.
    pub fn pop_access<F>(&mut self, f: F) -> (n: usize) where
        F: FnOnce(&mut [Option<T>], &mut [Option<T>]) -> usize,

        requires
            old(self).rb.inv(),
            forall|l: &mut [Option<T>], r: &mut [Option<T>]|
                l@ == old(self).rb.occupied_left() && r@ == old(self).rb.occupied_right()
                    ==> #[trigger] f.requires((l, r)),
            forall|l: &mut [Option<T>], r: &mut [Option<T>], n: usize|
                l@ == old(self).rb.occupied_left() && r@ == old(self).rb.occupied_right()
                    && #[trigger] f.ensures((l, r), n) ==> {
                    &&& final(l)@.len() == l@.len()
                    &&& final(r)@.len() == r@.len()
                    &&& kept(final(l)@, final(r)@, n as int)
                },
        ensures
            final(self).nonblocking == old(self).nonblocking,
            *final(final(self).rb) == *final(old(self).rb),
            final(self).rb.inv(),
            final(self).rb.same_setting(*old(self).rb),
            final(self).rb.tail_index() == old(self).rb.tail_index(),
            final(self).rb.head_index() == wrap(
                old(self).rb.head_index() + n,
                old(self).rb.slots().len() as int,
            ),
            exists|l: &mut [Option<T>], r: &mut [Option<T>]|
                {
                    &&& l@ == old(self).rb.occupied_left()
                    &&& r@ == old(self).rb.occupied_right()
                    &&& #[trigger] f.ensures((l, r), n)
                    &&& final(self).rb@ == items_from(final(l)@, final(r)@, n as int)
                },
    {
        let ghost before = *self.rb;
        let head: usize = self.rb.head();
        let tail: usize = self.rb.tail();
        let len: usize = self.rb.slot_count();
        let ranges = occupied_ranges(head, tail, len);
        let slots = self.rb.slots_mut();
        let (low, high) = slots.split_at_mut(ranges.0.start);
        let (left, beyond) = high.split_at_mut(ranges.0.end - ranges.0.start);
        let (right, between) = low.split_at_mut(ranges.1.end);
        proof {
            assert(left@ =~= before.occupied_left());
            assert(right@ =~= before.occupied_right());
        }
        let ghost gl = left;
        let ghost gr = right;
        let n = f(left, right);
        if n > 0 {
            self.rb.set_head(advance(head, n, len));
        }
        proof {
            assert(self.rb.slots() =~= final(gr)@ + between@ + final(gl)@ + beyond@);
            lemma_taken(before, *self.rb, final(gl)@, final(gr)@, n as int);
        }
        n
    }

    /// Removes first item from the ring buffer and returns it, or `None` where there
    /// is none.
    pub fn pop(&mut self) -> (item: Option<T>)
        requires
            old(self).rb.inv(),
        ensures
            item == (if old(self).rb@.len() > 0 {
                Some(old(self).rb@[0])
            } else {
                None
            }),
            final(self).rb@ == after_pop(old(self).rb@),
            final(self).nonblocking == old(self).nonblocking,
            *final(final(self).rb) == *final(old(self).rb),
            final(self).rb.inv(),
            final(self).rb.same_setting(*old(self).rb),
            final(self).rb.tail_index() == old(self).rb.tail_index(),
    {
        if self.rb.is_empty() {
            None
        } else {
            Some(self.rb.take_first())
        }
    }
}

/// Where new slots take the place of the occupied ones and the head moves on by
/// `n` slots, the buffer holds the items of the new slots behind the first `n`.
proof fn lemma_taken<T>(
    before: RingBuffer<T>,
    after: RingBuffer<T>,
    left: Seq<Option<T>>,
    right: Seq<Option<T>>,
    n: int,
)
    requires
        before.inv(),
        left.len() == before.occupied_left().len(),
        right.len() == before.occupied_right().len(),
        kept(left, right, n),
        after.slots().len() == before.slots().len(),
        after.head_index() == wrap(before.head_index() + n, before.slots().len() as int),
        after.tail_index() == before.tail_index(),
        forall|i: int|
            0 <= i < before.slots().len() ==> #[trigger] after.slots()[i] == (if i < right.len() {
                right[i]
            } else if before.head_index() <= i < before.head_index() + left.len() {
                left[i - before.head_index()]
            } else {
                before.slots()[i]
            }),
    ensures
        after.inv(),
        after@ == items_from(left, right, n),
{
    let len = before.slots().len() as int;
    assert(after.count() == before.count() - n);
    assert forall|k: int| 0 <= k < after.count() implies after.slots()[#[trigger] wrap(
        after.head_index() + k,
        len,
    )] == (left + right)[n + k] by {}
    assert(after@ =~= items_from(left, right, n));
}

} // verus!

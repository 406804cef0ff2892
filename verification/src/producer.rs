//! The end of a ring buffer that items are put in at.

use vstd::prelude::*;
use vstd::std_specs::iter::IteratorSpec;
use crate::calls::{Answers, Calls, Named, Source};
use crate::consumer::Consumer;
use crate::ring_buffer::{advance, after_push, free_ranges, lemma_extended, wrap, RingBuffer,
    SleepCopy};
use crate::transfer::{move_items, moved_count};

verus! {

/// The first `n` slots of two runs all hold an item.
pub open spec fn filled<T>(left: Seq<Option<T>>, right: Seq<Option<T>>, n: int) -> bool {
    &&& 0 <= n <= left.len() + right.len()
    &&& forall|i: int| 0 <= i < n ==> (#[trigger] (left + right)[i]) is Some
}

/// The items in the first `n` slots of two runs.
pub open spec fn items<T>(left: Seq<Option<T>>, right: Seq<Option<T>>, n: int) -> Seq<T> {
    Seq::new(n as nat, |i: int| (left + right)[i]->Some_0)
}

/// The smaller of two numbers.
pub open spec fn smaller(a: int, b: int) -> int {
    if a < b {
        a
    } else {
        b
    }
}

/// Where new slots take the place of the free ones, and the tail moves on by as
/// many slots as they hold items, these items stand behind the old ones.
proof fn lemma_filled<T>(
    before: RingBuffer<T>,
    after: RingBuffer<T>,
    left: Seq<Option<T>>,
    right: Seq<Option<T>>,
    n: int,
)
    requires
        before.inv(),
        left.len() == before.free_left().len(),
        right.len() == before.free_right().len(),
        filled(left, right, n),
        after.slots().len() == before.slots().len(),
        after.head_index() == before.head_index(),
        after.tail_index() == wrap(before.tail_index() + n, before.slots().len() as int),
        forall|i: int|
            0 <= i < before.slots().len() ==> #[trigger] after.slots()[i] == (if i < right.len() {
                right[i]
            } else if before.tail_index() <= i < before.tail_index() + left.len() {
                left[i - before.tail_index()]
            } else {
                before.slots()[i]
            }),
    ensures
        after.inv(),
        after@ == before@ + items(left, right, n),
{
    let len = before.slots().len() as int;
    let added = items(left, right, n);
    assert forall|j: int| 0 <= j < n implies after.slots()[#[trigger] wrap(
        before.tail_index() + j,
        len,
    )] == Some(added[j]) by {
        assert((left + right)[j] is Some);
    }
    lemma_extended(before, after, added);
}

/// Producer part of ring buffer.
pub struct Producer<'a, T> {
    /// The ring buffer.
    pub rb: &'a mut RingBuffer<T>,
    /// Whether a write to a full buffer fails instead of waiting.
    pub nonblocking: bool,
    /// How many ends hold the ring buffer, this one included.
    pub ends: usize,
    /// Which ends may leave their buffers for the other one.
    pub sleep_copy: SleepCopy,
}

impl<'a, T> Producer<'a, T> {
    /// Everything but the ring buffer is as in the other producer.
    pub open spec fn same_settings(&self, other: &Producer<'a, T>) -> bool {
        &&& self.nonblocking == other.nonblocking
        &&& self.ends == other.ends
        &&& self.sleep_copy == other.sleep_copy
    }

    /// The producer end of a ring buffer that `ends` ends hold. It blocks,
    /// and no end leaves buffers for the other one.
    pub fn new(rb: &'a mut RingBuffer<T>, ends: usize) -> (producer: Producer<'a, T>)
        ensures
            *producer.rb == *old(rb),
            *final(producer.rb) == *final(rb),
            !producer.nonblocking,
            producer.ends == ends,
            !producer.sleep_copy.reader && !producer.sleep_copy.writer,
    {
        Producer {
            rb,
            nonblocking: false,
            ends,
            sleep_copy: SleepCopy { reader: false, writer: false },
        }
    }

    /// The ring buffer as it is now.
    pub open spec fn ring(&self) -> RingBuffer<T> {
        *self.rb
    }

    /// Returns capacity of the ring buffer.
    ///
    /// The capacity of the buffer is constant.
    pub fn capacity(&self) -> (capacity: usize)
        requires
            self.ring().inv(),
        ensures
            capacity == self.ring().spec_capacity(),
    {
        self.rb.capacity()
    }

    /// Checks if the ring buffer is empty.
    pub fn is_empty(&self) -> (empty: bool)
        requires
            self.ring().inv(),
        ensures
            empty == (self.ring()@.len() == 0),
    {
        self.rb.is_empty()
    }

    /// Checks if the ring buffer is full.
    pub fn is_full(&self) -> (full: bool)
        requires
            self.ring().inv(),
        ensures
            full == (self.ring()@.len() == self.ring().spec_capacity()),
    {
        self.rb.is_full()
    }

    /// The length of the data stored in the buffer.
    pub fn len(&self) -> (len: usize)
        requires
            self.ring().inv(),
        ensures
            len == self.ring()@.len(),
    {
        self.rb.len()
    }

    /// Checks if the consumer end is still present.
    pub fn is_consumer_alive(&self) -> (alive: bool)
        ensures
            alive == (self.ends >= 2),
    {
        self.ends >= 2
    }

    /// Makes a write to a full buffer fail instead of waiting.
    pub fn set_nonblocking(&mut self)
        ensures
            final(self).nonblocking,
            final(self).ends == old(self).ends,
            final(self).sleep_copy == old(self).sleep_copy,
            *final(self).rb == *old(self).rb,
            *final(final(self).rb) == *final(old(self).rb),
    {
        self.nonblocking = true;
    }

    /// The remaining space in the buffer.
    pub fn remaining(&self) -> (room: usize)
        requires
            self.ring().inv(),
        ensures
            room == self.ring().spec_capacity() - self.ring()@.len(),
    {
        self.rb.remaining()
    }

    /// Allows to write into ring buffer memory directly.
    ///
    /// `f` takes two slices of free slots, the second one or both of them may be
    /// empty. It returns the number of items that it has put into the slots, in
    /// order from the first slot of the first slice on.
    ///
    /// The method **always** calls `f` even if ring buffer is full, and returns the
    /// number returned from `f`.
    pub fn push_access<F>(&mut self, f: F) -> (n: usize) where
        F: FnOnce(&mut [Option<T>], &mut [Option<T>]) -> usize,

        requires
            old(self).rb.inv(),
            forall|l: &mut [Option<T>], r: &mut [Option<T>]|
                l@ == old(self).rb.free_left() && r@ == old(self).rb.free_right()
                    ==> #[trigger] f.requires((l, r)),
            forall|l: &mut [Option<T>], r: &mut [Option<T>], n: usize|
                l@ == old(self).rb.free_left() && r@ == old(self).rb.free_right()
                    && #[trigger] f.ensures((l, r), n) ==> {
                    &&& final(l)@.len() == l@.len()
                    &&& final(r)@.len() == r@.len()
                    &&& filled(final(l)@, final(r)@, n as int)
                },
        ensures
            final(self).same_settings(old(self)),
            *final(final(self).rb) == *final(old(self).rb),
            final(self).rb.inv(),
            final(self).rb.same_setting(*old(self).rb),
            final(self).rb.head_index() == old(self).rb.head_index(),
            final(self).rb.tail_index() == wrap(
                old(self).rb.tail_index() + n,
                old(self).rb.slots().len() as int,
            ),
            exists|l: &mut [Option<T>], r: &mut [Option<T>]|
                {
                    &&& l@ == old(self).rb.free_left()
                    &&& r@ == old(self).rb.free_right()
                    &&& #[trigger] f.ensures((l, r), n)
                    &&& final(self).rb@ == old(self).rb@ + items(final(l)@, final(r)@, n as int)
                },
    {
        let ghost before = *self.rb;
        let head: usize = self.rb.head();
        let tail: usize = self.rb.tail();
        let len: usize = self.rb.slot_count();
        let ranges = free_ranges(head, tail, len);
        let slots = self.rb.slots_mut();
        let (low, high) = slots.split_at_mut(ranges.0.start);
        let (left, beyond) = high.split_at_mut(ranges.0.end - ranges.0.start);
        let (right, between) = low.split_at_mut(ranges.1.end);
        proof {
            assert(left@ =~= before.free_left());
            assert(right@ =~= before.free_right());
        }
        let ghost gl = left;
        let ghost gr = right;
        let n = f(left, right);
        if n > 0 {
            self.rb.set_tail(advance(tail, n, len));
        }
        proof {
            assert(self.rb.slots() =~= final(gr)@ + between@ + final(gl)@ + beyond@);
            lemma_filled(before, *self.rb, final(gl)@, final(gr)@, n as int);
        }
        n
    }

    /// Copies data from the slice to the ring buffer.
    ///
    /// The `elems` slice should contain initialized data before the method call.
    /// After the call the copied part of data in `elems` is vacant.
    ///
    /// Returns the number of items been copied.
    pub fn push_copy(&mut self, elems: &mut [Option<T>]) -> (n: usize)
        requires
            old(self).rb.inv(),
            forall|i: int| 0 <= i < old(elems)@.len() ==> (#[trigger] old(elems)@[i]) is Some,
        ensures
            n == smaller(old(elems)@.len() as int, old(self).rb.room()),
            final(elems)@ == Seq::new(
                old(elems)@.len(),
                |i: int|
                    if i < n {
                        None
                    } else {
                        old(elems)@[i]
                    },
            ),
            final(self).rb@ == old(self).rb@ + Seq::new(
                n as nat,
                |i: int| old(elems)@[i]->Some_0,
            ),
            final(self).same_settings(old(self)),
            *final(final(self).rb) == *final(old(self).rb),
            final(self).rb.inv(),
            final(self).rb.same_setting(*old(self).rb),
            final(self).rb.head_index() == old(self).rb.head_index(),
    {
        let ghost before = *self.rb;
        let ghost given = elems@;
        let count: usize = elems.len();
        let room: usize = self.rb.remaining();
        let most: usize = if count < room {
            count
        } else {
            room
        };
        let mut n: usize = 0;
        while n < most
            invariant
                n <= most,
                most == smaller(given.len() as int, before.room()),
                given == old(elems)@,
                before == *old(self).rb,
                before.inv(),
                elems@.len() == given.len(),
                forall|i: int| 0 <= i < given.len() ==> (#[trigger] given[i]) is Some,
                forall|i: int|
                    0 <= i < given.len() ==> #[trigger] elems@[i] == (if i < n {
                        None
                    } else {
                        given[i]
                    }),
                self.same_settings(old(self)),
                *final(self.rb) == *final(old(self).rb),
                self.rb.inv(),
                self.rb.same_setting(before),
                self.rb.head_index() == before.head_index(),
                self.rb@ == before@ + Seq::new(n as nat, |i: int| given[i]->Some_0),
            decreases most - n,
        {
            assert(self.rb@.len() == before@.len() + n);
            let mut slot: Option<T> = None;
            std::mem::swap(&mut elems[n], &mut slot);
            self.rb.append(slot.unwrap());
            n = n + 1;
            proof {
                assert(self.rb@ =~= before@ + Seq::new(n as nat, |i: int| given[i]->Some_0));
            }
        }
        n
    }

    /// Appends an element to the ring buffer.
    /// On failure returns an error containing the element that hasn't been appended.
    pub fn push(&mut self, elem: T) -> (result: Result<(), T>)
        requires
            old(self).rb.inv(),
        ensures
            result == (if old(self).rb@.len() < old(self).rb.spec_capacity() {
                Ok::<(), T>(())
            } else {
                Err(elem)
            }),
            final(self).rb@ == after_push(old(self).rb@, old(self).rb.spec_capacity(), elem),
            final(self).same_settings(old(self)),
            *final(final(self).rb) == *final(old(self).rb),
            final(self).rb.inv(),
            final(self).rb.same_setting(*old(self).rb),
            final(self).rb.head_index() == old(self).rb.head_index(),
    {
        if self.rb.is_full() {
            Err(elem)
        } else {
            self.rb.append(elem);
            Ok(())
        }
    }

    /// Repeatedly calls the closure `f` and pushes elements returned from it to the ring buffer.
    ///
    /// The closure is called until it returns `None` or the ring buffer is full.
    ///
    /// The method returns number of elements been put into the buffer.
    ///
    /// What `f` is asked goes through [`Calls`], which records each answer: every element
    /// that `f` returns is put in, in the order of the calls, and but for these calls there
    /// is at most one more, which returned `None`.
    pub fn push_each<F: Source<T>>(&mut self, f: F) -> (n: usize) where
        <F as Named>::Itself: FnOnce() -> Option<T>,

        requires
            old(self).rb.inv(),
            f.requires(()),
        ensures
            n <= old(self).rb.room(),
            n < old(self).rb.room() ==> f.ensures((), None),
            final(self).rb@.len() == old(self).rb@.len() + n,
            final(self).rb@.take(old(self).rb@.len() as int) == old(self).rb@,
            forall|i: int|
                old(self).rb@.len() <= i < final(self).rb@.len() ==> f.ensures(
                    (),
                    Some(#[trigger] final(self).rb@[i]),
                ),
            exists|calls: Answers<F, T>|
                {
                    &&& calls.source() == f
                    &&& #[trigger] calls.answers() == final(self).rb@.skip(
                        old(self).rb@.len() as int,
                    ).map_values(|elem: T| Some(elem)) + (if n < old(self).rb.room() {
                        seq![None::<T>]
                    } else {
                        Seq::empty()
                    })
                },
            final(self).same_settings(old(self)),
            *final(final(self).rb) == *final(old(self).rb),
            final(self).rb.inv(),
            final(self).rb.same_setting(*old(self).rb),
            final(self).rb.head_index() == old(self).rb.head_index(),
    {
        let ghost before = *self.rb;
        let mut calls = Calls::new(f);
        let room: usize = self.rb.remaining();
        let mut n: usize = 0;
        let mut more: bool = true;
        while more && n < room
            invariant
                n <= room,
                !more ==> n < room && f.ensures((), None),
                room == before.room(),
                before == *old(self).rb,
                before.inv(),
                calls.source() == f,
                f.requires(()),
                calls.answers() == self.rb@.skip(before@.len() as int).map_values(
                    |elem: T| Some(elem),
                ) + (if more {
                    Seq::empty()
                } else {
                    seq![None::<T>]
                }),
                self.same_settings(old(self)),
                *final(self.rb) == *final(old(self).rb),
                self.rb.inv(),
                self.rb.same_setting(before),
                self.rb.head_index() == before.head_index(),
                self.rb@.len() == before@.len() + n,
                self.rb@.take(before@.len() as int) == before@,
                forall|i: int|
                    before@.len() <= i < self.rb@.len() ==> f.ensures(
                        (),
                        Some(#[trigger] self.rb@[i]),
                    ),
            decreases room - n, (if more { 1int } else { 0int }),
        {
            let ghost so_far = self.rb@;
            match calls.ask() {
                Some(elem) => {
                    n = n + 1;
                    self.rb.append(elem);
                    proof {
                        assert(self.rb@.take(before@.len() as int) =~= so_far.take(
                            before@.len() as int,
                        ));
                        assert(calls.answers() =~= self.rb@.skip(before@.len() as int).map_values(
                            |elem: T| Some(elem),
                        ) + Seq::empty());
                    }
                },
                None => {
                    more = false;
                    proof {
                        assert(calls.answers() =~= self.rb@.skip(before@.len() as int).map_values(
                            |elem: T| Some(elem),
                        ) + seq![None::<T>]);
                    }
                },
            }
        }
        let answers = calls.finish();
        assert(answers.source() == f);
        n
    }

    /// Appends elements from an iterator to the ring buffer.
    /// Elements that haven't been added to the ring buffer remain in the iterator.
    ///
    /// Returns count of elements been appended to the ring buffer.
    pub fn push_iter<I: Iterator<Item = T>>(&mut self, elems: &mut I) -> (n: usize)
        requires
            old(self).rb.inv(),
        ensures
            n <= old(self).rb.room(),
            final(self).rb@.len() == old(self).rb@.len() + n,
            final(self).rb@.take(old(self).rb@.len() as int) == old(self).rb@,
            <I as IteratorSpec>::obeys_prophetic_iter_laws(old(elems)) ==> {
                &&& n == smaller(
                    <I as IteratorSpec>::remaining(old(elems)).len() as int,
                    old(self).rb.room(),
                )
                &&& final(self).rb@ == old(self).rb@ + <I as IteratorSpec>::remaining(
                    old(elems),
                ).take(n as int)
                &&& <I as IteratorSpec>::obeys_prophetic_iter_laws(final(elems))
                &&& <I as IteratorSpec>::remaining(final(elems)) == <I as IteratorSpec>::remaining(
                    old(elems),
                ).skip(n as int)
            },
            final(self).same_settings(old(self)),
            *final(final(self).rb) == *final(old(self).rb),
            final(self).rb.inv(),
            final(self).rb.same_setting(*old(self).rb),
            final(self).rb.head_index() == old(self).rb.head_index(),
    {
        let ghost before = *self.rb;
        let ghost given = <I as IteratorSpec>::remaining(elems);
        let room: usize = self.rb.remaining();
        let mut n: usize = 0;
        while n < room
            invariant
                n <= room,
                room == before.room(),
                before == *old(self).rb,
                before.inv(),
                given == <I as IteratorSpec>::remaining(old(elems)),
                <I as IteratorSpec>::obeys_prophetic_iter_laws(elems)
                    == <I as IteratorSpec>::obeys_prophetic_iter_laws(old(elems)),
                <I as IteratorSpec>::obeys_prophetic_iter_laws(elems) ==> {
                    &&& n <= given.len()
                    &&& <I as IteratorSpec>::remaining(elems) == given.skip(n as int)
                    &&& self.rb@ == before@ + given.take(n as int)
                },
                self.rb@.len() == before@.len() + n,
                self.rb@.take(before@.len() as int) == before@,
                self.same_settings(old(self)),
                *final(self.rb) == *final(old(self).rb),
                self.rb.inv(),
                self.rb.same_setting(before),
                self.rb.head_index() == before.head_index(),
            decreases room - n,
        {
            let ghost so_far = self.rb@;
            match elems.next() {
                Some(elem) => {
                    assert(self.rb@.len() == before@.len() + n);
                    self.rb.append(elem);
                },
                None => {
                    return n;
                },
            }
            n = n + 1;
            proof {
                assert(self.rb@.take(before@.len() as int) =~= so_far.take(before@.len() as int));
                if <I as IteratorSpec>::obeys_prophetic_iter_laws(elems) {
                    assert(given.skip(n - 1).drop_first() =~= given.skip(n as int));
                    assert(self.rb@ =~= before@ + given.take(n as int));
                }
            }
        }
        n
    }

    /// Removes at most `count` elements from the consumer and appends them to the producer.
    /// If `count` is `None` then as much as possible elements will be moved.
    ///
    /// On success returns number of elements been moved.
    pub fn move_from<'b>(&mut self, other: &mut Consumer<'b, T>, count: Option<usize>) -> (moved:
        usize)
        requires
            old(self).rb.inv(),
            old(other).rb.inv(),
        ensures
            moved == moved_count(count, old(other).rb@.len() as int, old(self).rb.room()),
            final(other).rb@ == old(other).rb@.skip(moved as int),
            final(self).rb@ == old(self).rb@ + old(other).rb@.take(moved as int),
            final(self).same_settings(old(self)),
            final(other).nonblocking == old(other).nonblocking,
            *final(final(self).rb) == *final(old(self).rb),
            *final(final(other).rb) == *final(old(other).rb),
            final(self).rb.inv(),
            final(other).rb.inv(),
            final(self).rb.same_setting(*old(self).rb),
            final(other).rb.same_setting(*old(other).rb),
            final(other).rb.tail_index() == old(other).rb.tail_index(),
            final(other).rb.head_index() == wrap(
                old(other).rb.head_index() + moved,
                old(other).rb.slots().len() as int,
            ),
            final(self).rb.head_index() == old(self).rb.head_index(),
            final(self).rb.tail_index() == wrap(
                old(self).rb.tail_index() + moved,
                old(self).rb.slots().len() as int,
            ),
    {
        move_items(other, self, count)
    }
}

} // verus!

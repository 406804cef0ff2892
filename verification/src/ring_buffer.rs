//! The ring buffer itself.

use std::ops::Range;
use vstd::prelude::*;
use crate::discard::{Bin, Emptied};
use crate::outside::{element_mut, pad, padded_load, padded_value, random_index};

verus! {

/// The vector that backs a ring buffer.
pub struct SharedVec<T> {
    cell: Vec<T>,
}

impl<T> View for SharedVec<T> {
    type V = Seq<T>;

    closed spec fn view(&self) -> Seq<T> {
        self.cell@
    }
}

impl<T> SharedVec<T> {
    /// Takes over a vector.
    pub fn new(data: Vec<T>) -> (shared: SharedVec<T>)
        ensures
            shared@ == data@,
    {
        SharedVec { cell: data }
    }

    /// The vector, for reading.
    pub fn get_ref(&self) -> (data: &Vec<T>)
        ensures
            data@ == self@,
    {
        &self.cell
    }

    /// The vector, for writing.
    pub fn get_mut(&mut self) -> (data: &mut Vec<T>)
        ensures
            data@ == old(self)@,
            final(self)@ == final(data)@,
    {
        &mut self.cell
    }
}

/// The slot reached at index `i` of `n` slots, where a walk that runs past the
/// last slot goes on at the first.
pub open spec fn wrap(i: int, n: int) -> int {
    if i < n {
        i
    } else {
        i - n
    }
}

/// The number of steps from slot `from` to slot `to` of `n` slots.
pub open spec fn distance(from: int, to: int, n: int) -> int {
    if from <= to {
        to - from
    } else {
        n - from + to
    }
}

/// `rand::random` may draw the number. Which one it draws is up to chance.
pub closed spec fn may_draw(seed: usize) -> bool {
    call_ensures(random_index, (), seed)
}

/// What a buffer with the given contents holds after a push: the item is put
/// behind the others if there is room for it.
pub open spec fn after_push<T>(contents: Seq<T>, capacity: int, elem: T) -> Seq<T> {
    if contents.len() < capacity {
        contents.push(elem)
    } else {
        contents
    }
}

/// What a buffer with the given contents holds after a pop: all but the oldest
/// item.
pub open spec fn after_pop<T>(contents: Seq<T>) -> Seq<T> {
    if contents.len() > 0 {
        contents.skip(1)
    } else {
        contents
    }
}

/// A buffer that one end leaves for the other while it sleeps, so that items go
/// from one thread to the other without a stop in the ring.
pub enum SavedBuffer<T> {
    /// No end sleeps with a buffer.
    Empty,
    /// A reader waits for this buffer to be filled.
    Reader(Vec<T>),
    /// A writer waits for the items in this buffer to be taken.
    Writer(Vec<T>),
    /// The other end has come by: the number of items that it copied, and the
    /// buffer that it copied into.
    Copied(usize, Vec<T>),
}

/// Which ends may leave their buffers for the other one and sleep.
#[derive(Clone, Copy)]
pub struct SleepCopy {
    /// A reader that finds the buffer empty.
    pub reader: bool,
    /// A writer.
    pub writer: bool,
}

/// The number of items that fit in a row at the end of the slots, from slot
/// `from` on, of `total` items in all.
pub open spec fn first_run(from: int, total: int, n: int) -> int {
    if total <= n - from {
        total
    } else {
        n - from
    }
}

/// The slots that are free to write, in the order in which they are filled: a
/// run from the tail on and, where the free slots go on past the last slot, a run
/// from slot zero. An empty run is `0..0`.
pub fn free_ranges(head: usize, tail: usize, len: usize) -> (ranges: (Range<usize>, Range<usize>))
    requires
        head < len,
        tail < len,
    ensures
        ({
            let free = len - 1 - distance(head as int, tail as int, len as int);
            let run = first_run(tail as int, free, len as int);
            &&& run == 0 ==> ranges.0.start == 0 && ranges.0.end == 0
            &&& run > 0 ==> ranges.0.start == tail && ranges.0.end == tail + run
            &&& ranges.1.start == 0
            &&& ranges.1.end == free - run
        }),
{
    if tail >= head {
        if head > 0 {
            (tail..len, 0..(head - 1))
        } else if tail < len - 1 {
            (tail..(len - 1), 0..0)
        } else {
            (0..0, 0..0)
        }
    } else if tail < head - 1 {
        (tail..(head - 1), 0..0)
    } else {
        (0..0, 0..0)
    }
}

/// The slots that hold items, oldest first: a run from the head on and, where
/// the items go on past the last slot, a run from slot zero.
pub fn occupied_ranges(head: usize, tail: usize, len: usize) -> (ranges: (Range<usize>, Range<usize>))
    requires
        head < len,
        tail < len,
    ensures
        ({
            let count = distance(head as int, tail as int, len as int);
            let run = first_run(head as int, count, len as int);
            &&& ranges.0.start == head
            &&& ranges.0.end == head + run
            &&& ranges.1.start == 0
            &&& ranges.1.end == count - run
        }),
{
    if head <= tail {
        (head..tail, 0..0)
    } else {
        (head..len, 0..tail)
    }
}

/// The index that lies `n` slots past `index`.
pub fn advance(index: usize, n: usize, len: usize) -> (next: usize)
    requires
        index < len,
        n <= len,
    ensures
        next == wrap(index + n, len as int),
        next == (index + n) % len as int,
{
    let rest: usize = len - index;
    let next: usize = if n < rest {
        index + n
    } else {
        n - rest
    };
    proof {
        if index + n < len {
            vstd::arithmetic::div_mod::lemma_small_mod((index + n) as nat, len as nat);
        } else {
            vstd::arithmetic::div_mod::lemma_mod_sub_multiples_vanish(index + n, len as int);
            vstd::arithmetic::div_mod::lemma_small_mod((index + n - len) as nat, len as nat);
        }
    }
    next
}

/// Ring buffer itself.
///
/// It has one slot more than it can hold items, so that a full buffer and an
/// empty one differ: `head` is the slot of the oldest item, `tail` the slot that
/// the next item goes to, and equal indices mean an empty buffer.
pub struct RingBuffer<T> {
    data: SharedVec<Option<T>>,
    head: cache_padded::CachePadded<usize>,
    tail: cache_padded::CachePadded<usize>,
    /// What a sleeping end has left for the other one.
    saved_buf: SavedBuffer<T>,
    /// How many threads sleep until the other end has acted.
    num_sleepers: usize,
}

impl<T> View for RingBuffer<T> {
    type V = Seq<T>;

    /// The items in the buffer, oldest first.
    open spec fn view(&self) -> Seq<T> {
        Seq::new(
            self.count() as nat,
            |k: int| self.slots()[wrap(self.head_index() + k, self.slots().len() as int)]->Some_0,
        )
    }
}

impl<T> RingBuffer<T> {
    /// All slots, vacant ones included.
    pub closed spec fn slots(&self) -> Seq<Option<T>> {
        self.data@
    }

    /// The slot of the oldest item.
    pub closed spec fn head_index(&self) -> int {
        padded_value(self.head) as int
    }

    /// The slot that the next item goes to.
    pub closed spec fn tail_index(&self) -> int {
        padded_value(self.tail) as int
    }

    /// What a sleeping end has left for the other one.
    pub closed spec fn saved(&self) -> SavedBuffer<T> {
        self.saved_buf
    }

    /// How many threads sleep until the other end has acted.
    pub closed spec fn sleepers(&self) -> int {
        self.num_sleepers as int
    }

    /// How many items the buffer can hold.
    pub open spec fn spec_capacity(&self) -> int {
        self.slots().len() - 1
    }

    /// How many slots are occupied.
    pub open spec fn count(&self) -> int {
        distance(self.head_index(), self.tail_index(), self.slots().len() as int)
    }

    /// The indices are slots, and each slot from the head up to the tail holds an
    /// item.
    pub open spec fn inv(&self) -> bool {
        &&& 2 <= self.slots().len() <= usize::MAX
        &&& 0 <= self.head_index() < self.slots().len()
        &&& 0 <= self.tail_index() < self.slots().len()
        &&& forall|k: int|
            0 <= k < self.count() ==> (#[trigger] self.slots()[wrap(
                self.head_index() + k,
                self.slots().len() as int,
            )]) is Some
    }

    /// Creates a new instance of a ring buffer, whose indices start at a slot that
    /// is drawn at random.
    pub fn new(capacity: usize) -> (rb: RingBuffer<T>)
        requires
            0 < capacity < usize::MAX,
        ensures
            rb.inv(),
            rb.spec_capacity() == capacity,
            rb@ == Seq::<T>::empty(),
            rb.saved() is Empty,
            rb.sleepers() == 0,
            rb.head_index() == rb.tail_index(),
            exists|seed: usize| #[trigger]
                may_draw(seed) && rb.tail_index() == (seed % capacity) / 64 * 64,
            rb.head_index() < capacity,
            rb.head_index() % 64 == 0,
    {
        let seed: usize = random_index();
        assert(may_draw(seed));
        RingBuffer::new_at(capacity, seed)
    }

    /// Creates a new instance of a ring buffer from a number that chooses where
    /// the indices start: the number is brought below the capacity and then down
    /// to a multiple of the length of a cache line.
    pub fn new_at(capacity: usize, seed: usize) -> (rb: RingBuffer<T>)
        requires
            0 < capacity < usize::MAX,
        ensures
            rb.inv(),
            rb.spec_capacity() == capacity,
            rb@ == Seq::<T>::empty(),
            rb.slots() == Seq::new((capacity + 1) as nat, |i: int| None::<T>),
            rb.saved() is Empty,
            rb.sleepers() == 0,
            rb.head_index() == rb.tail_index(),
            rb.tail_index() == (seed % capacity) / 64 * 64,
    {
        let mut data: Vec<Option<T>> = Vec::new();
        while data.len() < capacity + 1
            invariant
                0 < capacity < usize::MAX,
                data.len() <= capacity + 1,
                forall|i: int| 0 <= i < data.len() ==> data@[i] is None,
            decreases capacity + 1 - data.len(),
        {
            data.push(None);
        }
        let below: usize = seed % capacity;
        let start: usize = below & !0b0111111usize;
        proof {
            assert(start == below / 64 * 64 && start <= below) by (bit_vector)
                requires
                    start == below & !0b0111111usize,
            ;
        }
        let rb = RingBuffer {
            data: SharedVec::new(data),
            head: pad(start),
            tail: pad(start),
            saved_buf: SavedBuffer::Empty,
            num_sleepers: 0,
        };
        proof {
            assert(rb.slots() =~= Seq::new((capacity + 1) as nat, |i: int| None::<T>));
            assert(rb@ =~= Seq::<T>::empty());
        }
        rb
    }

    /// Creates a new instance of a ring buffer in memory of the global allocator.
    pub fn new_global(capacity: usize) -> (rb: RingBuffer<T>)
        requires
            0 < capacity < usize::MAX,
        ensures
            rb.inv(),
            rb.spec_capacity() == capacity,
            rb@ == Seq::<T>::empty(),
            rb.saved() is Empty,
            rb.sleepers() == 0,
            rb.head_index() == rb.tail_index(),
            exists|seed: usize| #[trigger]
                may_draw(seed) && rb.tail_index() == (seed % capacity) / 64 * 64,
            rb.head_index() < capacity,
            rb.head_index() % 64 == 0,
    {
        RingBuffer::new(capacity)
    }

    /// Returns capacity of the ring buffer.
    pub fn capacity(&self) -> (capacity: usize)
        requires
            self.inv(),
        ensures
            capacity == self.spec_capacity(),
    {
        self.data.get_ref().len() - 1
    }

    /// Checks if the ring buffer is empty.
    pub fn is_empty(&self) -> (empty: bool)
        requires
            self.inv(),
        ensures
            empty == (self@.len() == 0),
    {
        self.head() == self.tail()
    }

    /// Checks if the ring buffer is full.
    pub fn is_full(&self) -> (full: bool)
        requires
            self.inv(),
        ensures
            full == (self@.len() == self.spec_capacity()),
    {
        advance(self.tail(), 1, self.slot_count()) == self.head()
    }

    /// The length of the data in the buffer.
    pub fn len(&self) -> (len: usize)
        requires
            self.inv(),
        ensures
            len == self@.len(),
            len <= self.spec_capacity(),
    {
        let head: usize = self.head();
        let tail: usize = self.tail();
        if head <= tail {
            tail - head
        } else {
            self.slot_count() - head + tail
        }
    }

    /// The remaining space in the buffer.
    pub fn remaining(&self) -> (room: usize)
        requires
            self.inv(),
        ensures
            room == self.spec_capacity() - self@.len(),
    {
        self.capacity() - self.len()
    }

    /// The slots with nothing in those from the head up to the tail.
    pub open spec fn vacated(&self) -> Seq<Option<T>> {
        Seq::new(
            self.slots().len(),
            |i: int|
                if distance(self.head_index(), i, self.slots().len() as int) < self.count() {
                    None
                } else {
                    self.slots()[i]
                },
        )
    }

    /// The items in `n` slots in a row.
    pub open spec fn held(&self, start: int, n: int) -> Seq<T> {
        Seq::new(n as nat, |k: int| self.slots()[start + k]->Some_0)
    }

    /// Drops the content of the slots from `start` on up to `end` or the last slot,
    /// in this order.
    fn vacate(&mut self, start: usize, end: usize, bin: &mut Bin<T>)
        ensures
            final(self).same_but_slots(*old(self)),
            final(self).slots() == Seq::new(
                old(self).slots().len(),
                |i: int|
                    if start <= i < end {
                        None
                    } else {
                        old(self).slots()[i]
                    },
            ),
            ({
                let run = first_run(start as int, end - start, old(self).slots().len() as int);
                start <= end && start <= old(self).slots().len() && (forall|i: int|
                    start <= i < start + run ==> (#[trigger] old(self).slots()[i]) is Some)
                    ==> final(bin).items() == old(bin).items() + old(self).held(start as int, run)
            }),
        opens_invariants none
        no_unwind
    {
        let ghost run = first_run(start as int, end - start, self.slots().len() as int);
        let ghost occupied = start <= end && start <= self.slots().len() && (forall|i: int|
            start <= i < start + run ==> (#[trigger] self.slots()[i]) is Some);
        let mut i: usize = start;
        let mut more: bool = true;
        assert(bin.items() =~= old(bin).items() + old(self).held(start as int, 0));
        while more && i < end
            invariant
                start <= i,
                i == start || i <= end,
                run == first_run(start as int, end - start, old(self).slots().len() as int),
                occupied ==> start <= end && start <= old(self).slots().len() && i <= start + run && (forall|j: int|
                    start <= j < start + run ==> (#[trigger] old(self).slots()[j]) is Some),
                !more ==> self.slots().len() <= i,
                self.same_but_slots(*old(self)),
                self.slots().len() == old(self).slots().len(),
                forall|j: int|
                    0 <= j < self.slots().len() ==> #[trigger] self.slots()[j] == (if start <= j < i {
                        None
                    } else {
                        old(self).slots()[j]
                    }),
                occupied ==> bin.items() == old(bin).items() + old(self).held(
                    start as int,
                    i - start,
                ),
            decreases end - i, (if more { 1int } else { 0int }),
        {
            match element_mut(&mut self.data.cell, i) {
                Some(slot) => {
                    let mut taken: Option<T> = None;
                    std::mem::swap(slot, &mut taken);
                    if let Some(item) = taken {
                        bin.throw(item);
                    }
                    i = i + 1;
                    proof {
                        if occupied {
                            assert(old(self).slots()[i - 1] is Some);
                            assert(bin.items() =~= old(bin).items() + old(self).held(
                                start as int,
                                i - start,
                            ));
                        }
                    }
                },
                None => {
                    more = false;
                },
            }
        }
        proof {
            assert(self.slots() =~= Seq::new(
                old(self).slots().len(),
                |i: int|
                    if start <= i < end {
                        None
                    } else {
                        old(self).slots()[i]
                    },
            ));
        }
    }

    /// How many more items fit.
    pub open spec fn room(&self) -> int {
        self.spec_capacity() - self.count()
    }

    /// The capacity, and what the ends leave for each other, are as in the other
    /// buffer.
    pub open spec fn same_setting(&self, other: RingBuffer<T>) -> bool {
        &&& self.spec_capacity() == other.spec_capacity()
        &&& self.saved() == other.saved()
        &&& self.sleepers() == other.sleepers()
    }

    /// The first run of free slots, which starts at the tail.
    pub open spec fn free_left(&self) -> Seq<Option<T>> {
        let n = self.slots().len() as int;
        self.slots().subrange(
            self.tail_index(),
            self.tail_index() + first_run(self.tail_index(), self.room(), n),
        )
    }

    /// The second run of free slots, which starts at slot zero.
    pub open spec fn free_right(&self) -> Seq<Option<T>> {
        let n = self.slots().len() as int;
        self.slots().subrange(0, self.room() - first_run(self.tail_index(), self.room(), n))
    }

    /// The first run of occupied slots, which starts at the head.
    pub open spec fn occupied_left(&self) -> Seq<Option<T>> {
        let n = self.slots().len() as int;
        self.slots().subrange(
            self.head_index(),
            self.head_index() + first_run(self.head_index(), self.count(), n),
        )
    }

    /// The second run of occupied slots, which starts at slot zero.
    pub open spec fn occupied_right(&self) -> Seq<Option<T>> {
        let n = self.slots().len() as int;
        self.slots().subrange(0, self.count() - first_run(self.head_index(), self.count(), n))
    }

    /// Puts an item behind the last one.
    pub(crate) fn append(&mut self, elem: T)
        requires
            old(self).inv(),
            old(self).room() > 0,
        ensures
            final(self).inv(),
            final(self)@ == old(self)@.push(elem),
            final(self).same_setting(*old(self)),
            final(self).head_index() == old(self).head_index(),
            final(self).tail_index() == wrap(old(self).tail_index() + 1, old(self).slots().len() as int),
    {
        let tail: usize = self.tail();
        let len: usize = self.slot_count();
        self.slots_mut()[tail] = Some(elem);
        self.set_tail(advance(tail, 1, len));
        proof {
            let n = len as int;
            assert forall|k: int| 0 <= k < old(self).count() implies self.slots()[#[trigger] wrap(
                self.head_index() + k,
                n,
            )] == old(self).slots()[wrap(old(self).head_index() + k, n)] by {}
            assert(self@ =~= old(self)@.push(elem));
        }
    }

    /// Takes out the oldest item.
    pub(crate) fn take_first(&mut self) -> (item: T)
        requires
            old(self).inv(),
            old(self)@.len() > 0,
        ensures
            item == old(self)@[0],
            final(self).inv(),
            final(self)@ == old(self)@.skip(1),
            final(self).same_setting(*old(self)),
            final(self).head_index() == wrap(old(self).head_index() + 1, old(self).slots().len() as int),
            final(self).tail_index() == old(self).tail_index(),
    {
        let head: usize = self.head();
        let len: usize = self.slot_count();
        let mut slot: Option<T> = None;
        assert(self.slots()[wrap(self.head_index() + 0, len as int)] is Some);
        std::mem::swap(&mut self.slots_mut()[head], &mut slot);
        self.set_head(advance(head, 1, len));
        proof {
            lemma_shortened(*old(self), *self, 1);
        }
        slot.unwrap()
    }

    /// Everything but the slots is as in the other buffer.
    pub open spec fn same_but_slots(&self, other: RingBuffer<T>) -> bool {
        &&& self.head_index() == other.head_index()
        &&& self.tail_index() == other.tail_index()
        &&& self.saved() == other.saved()
        &&& self.sleepers() == other.sleepers()
    }

    /// Loads the index of the oldest item.
    pub(crate) fn head(&self) -> (head: usize)
        ensures
            head == self.head_index(),
        opens_invariants none
        no_unwind
    {
        padded_load(&self.head)
    }

    /// Loads the index that the next item goes to.
    pub(crate) fn tail(&self) -> (tail: usize)
        ensures
            tail == self.tail_index(),
        opens_invariants none
        no_unwind
    {
        padded_load(&self.tail)
    }

    /// Stores the index of the oldest item.
    pub(crate) fn set_head(&mut self, head: usize)
        ensures
            final(self).slots() == old(self).slots(),
            final(self).head_index() == head,
            final(self).tail_index() == old(self).tail_index(),
            final(self).saved() == old(self).saved(),
            final(self).sleepers() == old(self).sleepers(),
    {
        self.head = pad(head);
    }

    /// Stores the index that the next item goes to.
    pub(crate) fn set_tail(&mut self, tail: usize)
        ensures
            final(self).slots() == old(self).slots(),
            final(self).head_index() == old(self).head_index(),
            final(self).tail_index() == tail,
            final(self).saved() == old(self).saved(),
            final(self).sleepers() == old(self).sleepers(),
    {
        self.tail = pad(tail);
    }

    /// Leaves a buffer for the other end, and hands back what was left before.
    pub fn replace_saved(&mut self, saved: SavedBuffer<T>) -> (previous: SavedBuffer<T>)
        ensures
            previous == old(self).saved(),
            final(self).saved() == saved,
            final(self).slots() == old(self).slots(),
            final(self).head_index() == old(self).head_index(),
            final(self).tail_index() == old(self).tail_index(),
            final(self).sleepers() == old(self).sleepers(),
    {
        let mut other = saved;
        std::mem::swap(&mut self.saved_buf, &mut other);
        other
    }

    /// What a sleeping end has left for the other one.
    pub fn saved_buf(&self) -> (saved: &SavedBuffer<T>)
        ensures
            *saved == self.saved(),
    {
        &self.saved_buf
    }

    /// How many threads sleep until the other end has acted.
    pub fn num_sleepers(&self) -> (sleepers: usize)
        ensures
            sleepers == self.sleepers(),
    {
        self.num_sleepers
    }

    /// The count of sleeping threads, for one that falls asleep or wakes up.
    pub fn num_sleepers_mut(&mut self) -> (sleepers: &mut usize)
        ensures
            *sleepers == old(self).sleepers(),
            final(self).sleepers() == *final(sleepers),
            final(self).slots() == old(self).slots(),
            final(self).head_index() == old(self).head_index(),
            final(self).tail_index() == old(self).tail_index(),
            final(self).saved() == old(self).saved(),
    {
        &mut self.num_sleepers
    }

    /// How many slots there are.
    pub(crate) fn slot_count(&self) -> (len: usize)
        ensures
            len == self.slots().len(),
    {
        self.data.get_ref().len()
    }

    /// The slots, for writing.
    pub(crate) fn slots_mut(&mut self) -> (slots: &mut [Option<T>])
        ensures
            slots@ == old(self).slots(),
            final(self).slots() == final(slots)@,
            final(self).same_but_slots(*old(self)),
    {
        self.data.get_mut().as_mut_slice()
    }
}

impl<T> Drop for RingBuffer<T> {
    /// Drops the items that are still in the buffer, all of them and oldest first: their
    /// slots are vacant then, and no other slot's content has been dropped.
    fn drop(&mut self)
        ensures
            final(self).same_but_slots(*old(self)),
            old(self).inv() ==> final(self).slots() == old(self).vacated(),
            old(self).inv() ==> exists|emptied: Emptied<T>| #[trigger]
                emptied.items() == old(self)@,
        opens_invariants none
        no_unwind
    {
        let head: usize = self.head();
        let tail: usize = self.tail();
        let mut bin = Bin::new();
        proof {
            let n = self.slots().len() as int;
            if self.inv() {
                assert forall|k: int| 0 <= k < self.count() implies (#[trigger] self.slots()[wrap(
                    head + k,
                    n,
                )]) is Some by {}
                assert forall|i: int| head <= i < head + first_run(head as int, self.count(), n)
                    implies (#[trigger] self.slots()[i]) is Some by {
                    assert(wrap(head + (i - head), n) == i);
                }
                assert forall|i: int| head > tail && 0 <= i < tail implies (
                #[trigger] self.slots()[i]) is Some by {
                    assert(wrap(head + (n - head + i), n) == i);
                }
            }
        }
        if head <= tail {
            self.vacate(head, tail, &mut bin);
        } else {
            self.vacate(head, usize::MAX, &mut bin);
            self.vacate(0, tail, &mut bin);
        }
        proof {
            if old(self).inv() {
                assert(self.slots() =~= old(self).vacated());
                assert(bin.items() =~= old(self)@);
            }
        }
        let emptied = bin.finish();
        assert(old(self).inv() ==> emptied.items() == old(self)@);
    }
}

/// Where the slots behind the last item are filled and the tail moves on past
/// them, the buffer holds the old items and then the new ones.
pub(crate) proof fn lemma_extended<T>(before: RingBuffer<T>, after: RingBuffer<T>, added: Seq<T>)
    requires
        before.inv(),
        added.len() <= before.room(),
        after.slots().len() == before.slots().len(),
        after.head_index() == before.head_index(),
        after.tail_index() == wrap(
            before.tail_index() + added.len(),
            before.slots().len() as int,
        ),
        forall|k: int|
            0 <= k < before.count() ==> after.slots()[#[trigger] wrap(
                before.head_index() + k,
                before.slots().len() as int,
            )] == before.slots()[wrap(before.head_index() + k, before.slots().len() as int)],
        forall|j: int|
            0 <= j < added.len() ==> after.slots()[#[trigger] wrap(
                before.tail_index() + j,
                before.slots().len() as int,
            )] == Some(added[j]),
    ensures
        after.inv(),
        after@ == before@ + added,
{
    let len = before.slots().len() as int;
    let head = before.head_index();
    let tail = before.tail_index();
    let count = before.count();
    assert(after.count() == count + added.len());
    assert forall|k: int| count <= k < count + added.len() implies after.slots()[#[trigger] wrap(
        head + k,
        len,
    )] == Some(added[k - count]) by {
        assert(wrap(tail + (k - count), len) == wrap(head + k, len));
    }
    assert(after@ =~= before@ + added);
}

/// Where the head moves on past `m` items and the slots of the others stay as
/// they are, the buffer holds the other items.
pub(crate) proof fn lemma_shortened<T>(before: RingBuffer<T>, after: RingBuffer<T>, m: int)
    requires
        before.inv(),
        0 <= m <= before.count(),
        after.slots().len() == before.slots().len(),
        after.head_index() == wrap(before.head_index() + m, before.slots().len() as int),
        after.tail_index() == before.tail_index(),
        forall|k: int|
            m <= k < before.count() ==> after.slots()[#[trigger] wrap(
                before.head_index() + k,
                before.slots().len() as int,
            )] == before.slots()[wrap(before.head_index() + k, before.slots().len() as int)],
    ensures
        after.inv(),
        after@ == before@.skip(m),
{
    let len = before.slots().len() as int;
    let head = before.head_index();
    assert(after.count() == before.count() - m);
    assert forall|k: int| 0 <= k < after.count() implies after.slots()[#[trigger] wrap(
        after.head_index() + k,
        len,
    )] == before.slots()[wrap(head + (m + k), len)] && after.slots()[wrap(
        after.head_index() + k,
        len,
    )] is Some by {
        assert(wrap(head + (m + k), len) == wrap(after.head_index() + k, len));
        assert(before.slots()[wrap(head + (m + k), len)] is Some);
    }
    assert(after@ =~= before@.skip(m));
}

} // verus!

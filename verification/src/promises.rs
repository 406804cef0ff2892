//! What a caller of each operation can count on, said of the calls themselves: whatever
//! a call is given and whatever comes back, in terms of the items in the buffers before
//! and after it.

use std::ops::Range;
use vstd::prelude::*;
use vstd::rwlock::RwLock;
use vstd::std_specs::iter::IteratorSpec;
use crate::async_wrap::{AsyncWrap, Caching};
use crate::byte_io::{ReadFromError, WriteAction, WriteStep};
use crate::calls::{Answers, Named, Source};
use crate::consumer::Consumer;
use crate::gate::Entrance;
use crate::mutex_spin::{LockAction, Locking, SpinFirst, TryLock};
use crate::producer::Producer;
use crate::ring_buffer::{advance, free_ranges, occupied_ranges, RingBuffer, SavedBuffer,
    SleepCopy};
use crate::shared::{visited, ConsumerEnd, ProducerEnd, SharedInv};
use crate::slices::PushSlice;
use crate::storage::{Heap, Storage};
use crate::sync_spin::{check_and_sleep, next_pauses, WaitAction, Waiter};
use crate::transfer::{move_items, move_items_within};

verus! {

/// A new buffer is empty, holds as many items as it was asked to, and starts at the last
/// slot at or below the number, brought below the capacity, whose index is a multiple of
/// the length of a cache line.
pub proof fn law_new_at<T>(capacity: usize, seed: usize, rb: RingBuffer<T>)
    requires
        0 < capacity < usize::MAX,
        call_ensures(RingBuffer::<T>::new_at, (capacity, seed), rb),
    ensures
        rb.inv(),
        rb.spec_capacity() == capacity,
        rb@.len() == 0,
        rb.saved() is Empty,
        rb.sleepers() == 0,
        rb.head_index() == rb.tail_index(),
        rb.head_index() % 64 == 0,
        0 <= seed % capacity - rb.head_index() < 64,
{
}

/// A buffer that starts at random is empty, holds as many items as it was asked to, and
/// starts at a slot below the capacity whose index is a multiple of the length of a cache
/// line.
pub proof fn law_new<T>(capacity: usize, rb: RingBuffer<T>)
    requires
        0 < capacity < usize::MAX,
        call_ensures(RingBuffer::<T>::new, (capacity,), rb) || call_ensures(
            RingBuffer::<T>::new_global,
            (capacity,),
            rb,
        ),
    ensures
        rb.inv(),
        rb.spec_capacity() == capacity,
        rb@.len() == 0,
        rb.saved() is Empty,
        rb.sleepers() == 0,
        rb.head_index() == rb.tail_index(),
        rb.head_index() % 64 == 0,
        0 <= rb.head_index() < capacity,
{
}

/// Every buffer can be made and asked: a capacity of one item or more is enough, and so is
/// a well formed buffer.
pub proof fn law_no_more_is_asked<T>(capacity: usize, seed: usize, rb: RingBuffer<T>)
    ensures
        0 < capacity < usize::MAX ==> {
            &&& call_requires(RingBuffer::<T>::new, (capacity,))
            &&& call_requires(RingBuffer::<T>::new_at, (capacity, seed))
            &&& call_requires(RingBuffer::<T>::new_global, (capacity,))
        },
        rb.inv() ==> {
            &&& call_requires(RingBuffer::<T>::capacity, (&rb,))
            &&& call_requires(RingBuffer::<T>::is_empty, (&rb,))
            &&& call_requires(RingBuffer::<T>::is_full, (&rb,))
            &&& call_requires(RingBuffer::<T>::len, (&rb,))
            &&& call_requires(RingBuffer::<T>::remaining, (&rb,))
            &&& call_requires(RingBuffer::<T>::split, (rb,))
        },
{
}

/// What a buffer answers of itself fits together, and fits the items that it holds.
pub proof fn law_answers_agree<T>(
    rb: RingBuffer<T>,
    capacity: usize,
    len: usize,
    room: usize,
    empty: bool,
    full: bool,
)
    requires
        rb.inv(),
        call_ensures(RingBuffer::<T>::capacity, (&rb,), capacity),
        call_ensures(RingBuffer::<T>::len, (&rb,), len),
        call_ensures(RingBuffer::<T>::remaining, (&rb,), room),
        call_ensures(RingBuffer::<T>::is_empty, (&rb,), empty),
        call_ensures(RingBuffer::<T>::is_full, (&rb,), full),
    ensures
        capacity == rb.spec_capacity(),
        len == rb@.len(),
        len + room == capacity,
        empty <==> len == 0,
        full <==> room == 0,
        0 < capacity,
{
}

/// What a producer answers of its buffer fits the items that the buffer holds, and a
/// consumer is alive where two ends or more hold the buffer.
pub proof fn law_producer_answers_agree<'a, T>(
    capacity: usize,
    len: usize,
    room: usize,
    empty: bool,
    full: bool,
    alive: bool,
)
    ensures
        forall|producer: Producer<'a, T>|
            {
                &&& producer.rb.inv()
                &&& #[trigger] call_ensures(Producer::<'a, T>::capacity, (&producer,), capacity)
                &&& #[trigger] call_ensures(Producer::<'a, T>::len, (&producer,), len)
                &&& #[trigger] call_ensures(Producer::<'a, T>::remaining, (&producer,), room)
                &&& #[trigger] call_ensures(Producer::<'a, T>::is_empty, (&producer,), empty)
                &&& #[trigger] call_ensures(Producer::<'a, T>::is_full, (&producer,), full)
                &&& #[trigger] call_ensures(
                    Producer::<'a, T>::is_consumer_alive,
                    (&producer,),
                    alive,
                )
            } ==> {
                &&& capacity == producer.rb.spec_capacity()
                &&& len == producer.rb@.len()
                &&& len + room == capacity
                &&& empty <==> len == 0
                &&& full <==> room == 0
                &&& alive <==> producer.ends > 1
            },
{
}

/// The items of a buffer stand in its slots in a row, from the head on, where a walk past
/// the last slot goes on at the first, and up to the tail.
pub proof fn law_items_stand_in_a_row<T>(rb: RingBuffer<T>)
    requires
        rb.inv(),
    ensures
        rb@.len() == (rb.tail_index() - rb.head_index()) % (rb.spec_capacity() + 1),
        rb.slots().len() == rb.spec_capacity() + 1,
        forall|k: int|
            0 <= k < rb@.len() ==> #[trigger] rb.slots()[(rb.head_index() + k)
                % rb.slots().len() as int] == Some(rb@[k]),
{
    let n = rb.slots().len() as int;
    lemma_mod_once(rb.tail_index() - rb.head_index(), n);
    assert forall|k: int| 0 <= k < rb@.len() implies #[trigger] rb.slots()[(rb.head_index() + k)
        % n] == Some(rb@[k]) by {
        lemma_mod_once(rb.head_index() + k, n);
        assert(rb.slots()[crate::ring_buffer::wrap(rb.head_index() + k, n)] is Some);
    }
}

/// Within one turn of the slots, the rest is the number, or the number and one turn more or
/// less.
proof fn lemma_mod_once(i: int, n: int)
    requires
        0 < n,
        -n <= i < 2 * n,
    ensures
        i % n == (if i < 0 {
            i + n
        } else if i < n {
            i
        } else {
            i - n
        }),
{
    if i < 0 {
        vstd::arithmetic::div_mod::lemma_mod_add_multiples_vanish(i, n);
        vstd::arithmetic::div_mod::lemma_small_mod((i + n) as nat, n as nat);
    } else if i < n {
        vstd::arithmetic::div_mod::lemma_small_mod(i as nat, n as nat);
    } else {
        vstd::arithmetic::div_mod::lemma_mod_sub_multiples_vanish(i, n);
        vstd::arithmetic::div_mod::lemma_small_mod((i - n) as nat, n as nat);
    }
}

/// Of the slots, those that hold an item are vacant when a buffer has been dropped, and the
/// others are as they were.
pub proof fn law_dropped<T>(rb: RingBuffer<T>, i: int)
    requires
        rb.inv(),
        0 <= i < rb.slots().len(),
    ensures
        rb.vacated().len() == rb.slots().len(),
        rb.vacated()[i] == (if (i - rb.head_index()) % (rb.slots().len() as int) < rb@.len() {
            None
        } else {
            rb.slots()[i]
        }),
{
    lemma_mod_once(i - rb.head_index(), rb.slots().len() as int);
}

/// The free slots are those from the tail on, in a row round the slots, but for the one
/// before the head. The first run goes to the last slot at most, and the second starts at
/// the first slot.
pub proof fn law_free_ranges(
    head: usize,
    tail: usize,
    len: usize,
    ranges: (Range<usize>, Range<usize>),
    k: int,
)
    requires
        head < len,
        tail < len,
        call_ensures(free_ranges, (head, tail, len), ranges),
    ensures
        ranges.0.start <= ranges.0.end <= len,
        ranges.1.start <= ranges.1.end <= len,
        ranges.0.end - ranges.0.start + ranges.1.end - ranges.1.start == len - 1 - (tail - head)
            % len as int,
        0 <= k < ranges.0.end - ranges.0.start ==> ranges.0.start + k == (tail + k) % len as int,
        0 <= k < ranges.1.end - ranges.1.start ==> ranges.1.start + k == (tail + (ranges.0.end
            - ranges.0.start) + k) % len as int,
{
    lemma_mod_once(tail - head, len as int);
    if 0 <= k < ranges.0.end - ranges.0.start {
        lemma_mod_once(tail + k, len as int);
    }
    if 0 <= k < ranges.1.end - ranges.1.start {
        lemma_mod_once(tail + (ranges.0.end - ranges.0.start) + k, len as int);
    }
}

/// The occupied slots are those from the head on, in a row round the slots, up to the tail.
/// The first run goes to the last slot at most, and the second starts at the first slot.
pub proof fn law_occupied_ranges(
    head: usize,
    tail: usize,
    len: usize,
    ranges: (Range<usize>, Range<usize>),
    k: int,
)
    requires
        head < len,
        tail < len,
        call_ensures(occupied_ranges, (head, tail, len), ranges),
    ensures
        ranges.0.start <= ranges.0.end <= len,
        ranges.1.start <= ranges.1.end <= len,
        ranges.0.end - ranges.0.start + ranges.1.end - ranges.1.start == (tail - head)
            % len as int,
        0 <= k < ranges.0.end - ranges.0.start ==> ranges.0.start + k == (head + k) % len as int,
        0 <= k < ranges.1.end - ranges.1.start ==> ranges.1.start + k == (head + (ranges.0.end
            - ranges.0.start) + k) % len as int,
{
    lemma_mod_once(tail - head, len as int);
    if 0 <= k < ranges.0.end - ranges.0.start {
        lemma_mod_once(head + k, len as int);
    }
    if 0 <= k < ranges.1.end - ranges.1.start {
        lemma_mod_once(head + (ranges.0.end - ranges.0.start) + k, len as int);
    }
}

/// The index that lies so many slots past another one is the sum, taken round the slots.
pub proof fn law_advance(index: usize, n: usize, len: usize, next: usize)
    requires
        index < len,
        n <= len,
        call_ensures(advance, (index, n, len), next),
    ensures
        next < len,
        next == (index + n) % len as int,
{
}

/// A push puts the item behind the others where there is room, and otherwise gives it back.
pub proof fn law_push<'a, T>(elem: T, result: Result<(), T>)
    ensures
        forall|producer: &mut Producer<'a, T>|
            #[trigger] call_ensures(Producer::<'a, T>::push, (producer, elem), result)
                && producer.rb.inv() ==> {
                let before = *producer.rb;
                let after = *final(producer).rb;
                &&& result is Ok <==> before@.len() < before.spec_capacity()
                &&& result is Ok ==> after@ == before@.push(elem)
                &&& result is Err ==> result->Err_0 == elem && after@ == before@
                &&& after.inv()
                &&& after.spec_capacity() == before.spec_capacity()
                &&& after.saved() == before.saved()
                &&& after.sleepers() == before.sleepers()
                &&& final(producer).nonblocking == producer.nonblocking
                &&& final(producer).ends == producer.ends
                &&& final(producer).sleep_copy == producer.sleep_copy
            },
{
}

/// A pop takes the oldest item out and returns it, and changes nothing where there is none.
pub proof fn law_pop<'a, T>(item: Option<T>)
    ensures
        forall|consumer: &mut Consumer<'a, T>|
            #[trigger] call_ensures(Consumer::<'a, T>::pop, (consumer,), item)
                && consumer.rb.inv() ==> {
                let before = *consumer.rb;
                let after = *final(consumer).rb;
                &&& item is None <==> before@.len() == 0
                &&& item is None ==> after@ == before@
                &&& item is Some ==> before@ == seq![item->0] + after@
                &&& after.inv()
                &&& after.spec_capacity() == before.spec_capacity()
                &&& after.saved() == before.saved()
                &&& after.sleepers() == before.sleepers()
                &&& final(consumer).nonblocking == consumer.nonblocking
            },
{
    assert forall|consumer: &mut Consumer<'a, T>|
        #[trigger] call_ensures(Consumer::<'a, T>::pop, (consumer,), item) && consumer.rb.inv()
            && item is Some implies consumer.rb@ == seq![item->0] + final(consumer).rb@ by {
        assert(consumer.rb@ =~= seq![item->0] + final(consumer).rb@);
    }
}

/// What is copied from a slice are its first elements, in their order, as many as there are
/// and as fit. Their places in the slice are vacant then, and the others are as they were.
pub proof fn law_push_copy<'a, T>(n: usize)
    ensures
        forall|producer: &mut Producer<'a, T>, elems: &mut [Option<T>]|
            #[trigger] call_ensures(Producer::<'a, T>::push_copy, (producer, elems), n)
                && producer.rb.inv() ==> {
                let before = *producer.rb;
                let after = *final(producer).rb;
                &&& n <= elems@.len()
                &&& after@.len() == before@.len() + n
                &&& after@.len() <= before.spec_capacity()
                &&& n == elems@.len() || after@.len() == before.spec_capacity()
                &&& after@.take(before@.len() as int) == before@
                &&& forall|i: int|
                    0 <= i < n ==> #[trigger] after@[before@.len() + i] == elems@[i]->Some_0
                &&& final(elems)@.len() == elems@.len()
                &&& forall|i: int| 0 <= i < n ==> (#[trigger] final(elems)@[i]) is None
                &&& final(elems)@.skip(n as int) == elems@.skip(n as int)
                &&& after.inv()
                &&& after.spec_capacity() == before.spec_capacity()
                &&& after.saved() == before.saved()
                &&& after.sleepers() == before.sleepers()
            },
{
    assert forall|producer: &mut Producer<'a, T>, elems: &mut [Option<T>]|
        #[trigger] call_ensures(Producer::<'a, T>::push_copy, (producer, elems), n)
            && producer.rb.inv() implies final(producer).rb@.take(producer.rb@.len() as int)
        == producer.rb@ && final(elems)@.skip(n as int) == elems@.skip(n as int) by {
        assert(final(producer).rb@.take(producer.rb@.len() as int) =~= producer.rb@);
        assert(final(elems)@.skip(n as int) =~= elems@.skip(n as int));
    }
}

/// A function that writes into the buffer directly gets slots for exactly the items that
/// fit. As many as it says of what it has left in these, from the first on, come to stand
/// behind the items of the buffer.
pub proof fn law_push_access<
    'a,
    T,
    F: FnOnce(&mut [Option<T>], &mut [Option<T>]) -> usize,
>(f: F, n: usize)
    ensures
        forall|producer: &mut Producer<'a, T>|
            #[trigger] call_ensures(Producer::<'a, T>::push_access::<F>, (producer, f), n)
                && producer.rb.inv() ==> {
                let before = *producer.rb;
                let after = *final(producer).rb;
                &&& exists|l: &mut [Option<T>], r: &mut [Option<T>]|
                    {
                        &&& #[trigger] f.ensures((l, r), n)
                        &&& l@.len() + r@.len() == before.spec_capacity() - before@.len()
                        &&& l@.len() <= before.slots().len() - before.tail_index()
                        &&& r@.len() == 0 || l@.len() == before.slots().len()
                            - before.tail_index()
                        &&& after@.len() == before@.len() + n
                        &&& forall|i: int|
                            0 <= i < n ==> #[trigger] after@[before@.len() + i] == (final(l)@
                                + final(r)@)[i]->Some_0
                    }
                &&& after@.take(before@.len() as int) == before@
                &&& after.inv()
                &&& after.spec_capacity() == before.spec_capacity()
                &&& after.saved() == before.saved()
                &&& after.sleepers() == before.sleepers()
            },
{
    assert forall|producer: &mut Producer<'a, T>|
        #[trigger] call_ensures(Producer::<'a, T>::push_access::<F>, (producer, f), n)
            && producer.rb.inv() implies final(producer).rb@.take(producer.rb@.len() as int)
        == producer.rb@ by {
        assert(final(producer).rb@.take(producer.rb@.len() as int) =~= producer.rb@);
    }
}

/// A function that reads from the buffer directly gets the slots of exactly the items that
/// are there. What it has left in these behind as many slots as it says, from the first on,
/// is what the buffer holds then.
pub proof fn law_pop_access<
    'a,
    T,
    F: FnOnce(&mut [Option<T>], &mut [Option<T>]) -> usize,
>(f: F, n: usize)
    ensures
        forall|consumer: &mut Consumer<'a, T>|
            #[trigger] call_ensures(Consumer::<'a, T>::pop_access::<F>, (consumer, f), n)
                && consumer.rb.inv() ==> {
                let before = *consumer.rb;
                let after = *final(consumer).rb;
                &&& exists|l: &mut [Option<T>], r: &mut [Option<T>]|
                    {
                        &&& #[trigger] f.ensures((l, r), n)
                        &&& l@ + r@ == before@.map_values(|item: T| Some(item))
                        &&& l@.len() <= before.slots().len() - before.head_index()
                        &&& r@.len() == 0 || l@.len() == before.slots().len()
                            - before.head_index()
                        &&& n <= before@.len() && final(l)@.len() + final(r)@.len()
                            == before@.len() ==> {
                            &&& after@.len() == before@.len() - n
                            &&& forall|i: int|
                                n <= i < before@.len() ==> #[trigger] after@[i - n] == (final(l)@
                                    + final(r)@)[i]->Some_0
                        }
                    }
                &&& after.inv()
                &&& after.spec_capacity() == before.spec_capacity()
                &&& after.saved() == before.saved()
                &&& after.sleepers() == before.sleepers()
            },
{
    assert forall|consumer: &mut Consumer<'a, T>|
        #[trigger] call_ensures(Consumer::<'a, T>::pop_access::<F>, (consumer, f), n)
            && consumer.rb.inv() implies consumer.rb.occupied_left()
        + consumer.rb.occupied_right() == consumer.rb@.map_values(|item: T| Some(item)) by {
        crate::laws::law_occupied_slices(*consumer.rb);
        assert(consumer.rb.occupied_left() + consumer.rb.occupied_right()
            =~= consumer.rb@.map_values(|item: T| Some(item)));
    }
}

/// A move between two buffers moves no more items than the limit, than the source holds
/// and than the destination has room for, and it moves fewer than one of these only
/// because of another. The oldest items of the source, in their order, come to stand
/// behind those of the destination, and the source keeps the others. Nothing else in
/// either buffer changes.
pub proof fn law_move<'a, 'b, T>(count: Option<usize>, moved: usize)
    ensures
        forall|src: &mut Consumer<'a, T>, dst: &mut Producer<'b, T>|
            #[trigger] call_ensures(move_items::<T>, (src, dst, count), moved) && src.rb.inv()
                && dst.rb.inv() ==> {
                let room = dst.rb.spec_capacity() - dst.rb@.len();
                &&& count is Some ==> moved <= count->0
                &&& moved <= src.rb@.len()
                &&& moved <= room
                &&& count == Some(moved) || moved == src.rb@.len() || moved == room
                &&& final(dst).rb@ == dst.rb@ + src.rb@.take(moved as int)
                &&& final(src).rb@ == src.rb@.skip(moved as int)
                &&& final(dst).rb.spec_capacity() == dst.rb.spec_capacity()
                &&& final(src).rb.spec_capacity() == src.rb.spec_capacity()
                &&& final(dst).rb.saved() == dst.rb.saved()
                &&& final(src).rb.saved() == src.rb.saved()
                &&& final(dst).rb.sleepers() == dst.rb.sleepers()
                &&& final(src).rb.sleepers() == src.rb.sleepers()
            },
{
}

/// What holds of a move between two buffers holds of one that the producer makes.
pub proof fn law_move_from<'a, 'b, T>(count: Option<usize>, moved: usize)
    ensures
        forall|dst: &mut Producer<'a, T>, src: &mut Consumer<'b, T>|
            #[trigger] call_ensures(Producer::<'a, T>::move_from, (dst, src, count), moved)
                && src.rb.inv() && dst.rb.inv() ==> {
                let room = dst.rb.spec_capacity() - dst.rb@.len();
                &&& count is Some ==> moved <= count->0
                &&& moved <= src.rb@.len()
                &&& moved <= room
                &&& count == Some(moved) || moved == src.rb@.len() || moved == room
                &&& final(dst).rb@ == dst.rb@ + src.rb@.take(moved as int)
                &&& final(src).rb@ == src.rb@.skip(moved as int)
                &&& final(dst).rb.spec_capacity() == dst.rb.spec_capacity()
                &&& final(src).rb.spec_capacity() == src.rb.spec_capacity()
                &&& final(dst).rb.saved() == dst.rb.saved()
                &&& final(src).rb.saved() == src.rb.saved()
                &&& final(dst).rb.sleepers() == dst.rb.sleepers()
                &&& final(src).rb.sleepers() == src.rb.sleepers()
            },
{
}

/// A move within one buffer moves no more items than the limit, than the buffer holds
/// and than it has room for, and it moves fewer than one of these only because of
/// another. The oldest items, in their order, come to stand behind the others.
pub proof fn law_move_within<T>(count: Option<usize>, moved: usize)
    ensures
        forall|rb: &mut RingBuffer<T>|
            #[trigger] call_ensures(move_items_within::<T>, (rb, count), moved) && rb.inv() ==> {
                let room = rb.spec_capacity() - rb@.len();
                &&& count is Some ==> moved <= count->0
                &&& moved <= rb@.len()
                &&& moved <= room
                &&& count == Some(moved) || moved == rb@.len() || moved == room
                &&& final(rb)@ == rb@.skip(moved as int) + rb@.take(moved as int)
                &&& final(rb).spec_capacity() == rb.spec_capacity()
                &&& final(rb).saved() == rb.saved()
                &&& final(rb).sleepers() == rb.sleepers()
            },
{
}

/// A push of a slice:
/// - It waits where writers may leave their slices and no buffer is left, and in no
///   other case. Then the slice is left as it is, and nothing is written.
/// - A reader's buffer, where one is left and readers may leave them, is filled from the
///   front with the first elements, as many as there are and as fit.
/// - What comes next of the slice is appended. A push that does not wait stops short of
///   the last element only where the ring buffer is then full.
/// - The count is of the elements handed over and appended.
/// - Threads are to be woken where some sleep and a reader was handed elements.
pub proof fn law_push_slice<'a, T: Copy>(elems: &[T], out: PushSlice)
    ensures
        forall|producer: &mut Producer<'a, T>|
            #[trigger] call_ensures(Producer::<'a, T>::push_slice, (producer, elems), out)
                && producer.rb.inv() ==> {
                let before = *producer.rb;
                let after = *final(producer).rb;
                let handed = producer.sleep_copy.reader && before.saved() is Reader;
                let asked = before.saved()->Reader_0@;
                let got = after.saved()->Copied_1@;
                let n = if handed {
                    after.saved()->Copied_0 as int
                } else {
                    0
                };
                &&& out.waiting <==> producer.sleep_copy.writer && before.saved() is Empty
                &&& out.waiting ==> {
                    &&& out.written == 0
                    &&& after@ == before@
                    &&& after.saved() is Writer
                    &&& after.saved()->Writer_0@ == elems@
                }
                &&& handed ==> {
                    &&& after.saved() is Copied
                    &&& n <= elems@.len()
                    &&& n <= asked.len()
                    &&& n == elems@.len() || n == asked.len()
                    &&& got == elems@.take(n) + asked.skip(n)
                }
                &&& !handed && !out.waiting ==> after.saved() == before.saved()
                &&& !out.waiting ==> {
                    &&& n <= out.written <= elems@.len()
                    &&& after@ == before@ + elems@.subrange(n, out.written as int)
                    &&& out.written < elems@.len() ==> after@.len() == before.spec_capacity()
                }
                &&& out.notify <==> handed && before.sleepers() > 0
                &&& after.spec_capacity() == before.spec_capacity()
                &&& after.sleepers() == before.sleepers()
                &&& after.inv()
            },
{
}

/// A push that has left its slice for a reader goes on when a reader has said how many
/// elements it has copied, and in no other case. Then what comes next of the slice is
/// appended, up to its last element or until the ring buffer is full, the count is of
/// the elements copied and appended, and no buffer is left.
pub proof fn law_push_slice_resume<'a, T: Copy>(elems: &[T], total: Option<usize>)
    ensures
        forall|producer: &mut Producer<'a, T>|
            #[trigger] call_ensures(
                Producer::<'a, T>::push_slice_resume,
                (producer, elems),
                total,
            ) && producer.rb.inv() ==> {
                let before = *producer.rb;
                let after = *final(producer).rb;
                let n = before.saved()->Copied_0;
                &&& total is Some <==> before.saved() is Copied
                &&& total is None ==> after@ == before@ && after.saved() == before.saved()
                &&& total is Some ==> after.saved() is Empty
                &&& total is Some && n >= elems@.len() ==> {
                    &&& total->0 == elems@.len()
                    &&& after@ == before@
                }
                &&& total is Some && n < elems@.len() ==> {
                    &&& n <= total->0 <= elems@.len()
                    &&& after@ == before@ + elems@.subrange(n as int, total->0 as int)
                    &&& total->0 < elems@.len() ==> after@.len() == before.spec_capacity()
                }
                &&& after.spec_capacity() == before.spec_capacity()
                &&& after.sleepers() == before.sleepers()
                &&& after.inv()
            },
{
    assert forall|producer: &mut Producer<'a, T>|
        #[trigger] call_ensures(
            Producer::<'a, T>::push_slice_resume,
            (producer, elems),
            total,
        ) && producer.rb.inv() && total is Some && producer.rb.saved()->Copied_0
            >= elems@.len() implies final(producer).rb@ == producer.rb@ by {
        assert(final(producer).rb@ =~= producer.rb@);
    }
}

/// A check of a waiting thread:
/// - The wait is over where the condition is met, and in no other case, whatever the
///   clock reads and whether or not the thread sleeps.
/// - A thread that sleeps, sleeps on until then.
/// - One that spins falls asleep where more cycles have gone by than it may spin and it
///   need not stay awake, and otherwise pauses.
/// - The count of sleepers goes up by one where a thread falls asleep and down by one
///   where the wait of one that sleeps is over.
pub proof fn law_check_and_sleep(
    condition: bool,
    no_sleep_condition: bool,
    now: u64,
    action: WaitAction,
)
    ensures
        forall|waiter: &mut Waiter, sleepers: &mut usize|
            #[trigger] call_ensures(
                check_and_sleep,
                (waiter, condition, no_sleep_condition, now, sleepers),
                action,
            ) ==> {
                &&& action is Return <==> condition
                &&& action is Sleep <==> !condition && waiter.sleeping
                &&& action is FallAsleep <==> !condition && !waiter.sleeping && !no_sleep_condition
                    && now - waiter.start > waiter.cycles
                &&& final(waiter).sleeping <==> action is FallAsleep || action is Sleep
                &&& final(waiter).start == waiter.start
                &&& final(waiter).cycles == waiter.cycles
                &&& *final(sleepers) == (if !waiter.sleeping && final(waiter).sleeping {
                    if *sleepers == usize::MAX {
                        0
                    } else {
                        *sleepers + 1
                    }
                } else if waiter.sleeping && !final(waiter).sleeping {
                    if *sleepers == 0 {
                        usize::MAX as int
                    } else {
                        *sleepers - 1
                    }
                } else {
                    *sleepers as int
                })
            },
{
}

/// What `push_each` puts in are the answers of the closure, each of them and in the order
/// of the calls. The closure is called once for every item that is put in, and once more
/// where there is room for another item: that call returned `None`. No call is made for
/// what cannot fit.
pub proof fn law_push_each<'a, T, F: Source<T>>(f: F, n: usize) where
    <F as Named>::Itself: FnOnce() -> Option<T>,

    ensures
        forall|producer: &mut Producer<'a, T>|
            #[trigger] call_ensures(Producer::<'a, T>::push_each::<F>, (producer, f), n)
                && producer.rb.inv() ==> {
                let before = producer.rb@;
                let after = final(producer).rb@;
                let capacity = producer.rb.spec_capacity();
                &&& after.len() == before.len() + n
                &&& after.len() <= capacity
                &&& after.take(before.len() as int) == before
                &&& exists|calls: Answers<F, T>|
                    {
                        &&& calls.source() == f
                        &&& calls.answers().len() == (if after.len() < capacity {
                            n + 1
                        } else {
                            n as int
                        })
                        &&& forall|i: int|
                            0 <= i < n ==> #[trigger] calls.answers()[i] == Some(
                                after[before.len() + i],
                            )
                        &&& after.len() < capacity ==> calls.answers()[n as int] is None
                    }
                &&& final(producer).rb.spec_capacity() == capacity
                &&& final(producer).rb.saved() == producer.rb.saved()
                &&& final(producer).rb.sleepers() == producer.rb.sleepers()
                &&& final(producer).rb.inv()
            },
{
    assert forall|producer: &mut Producer<'a, T>|
        #[trigger] call_ensures(Producer::<'a, T>::push_each::<F>, (producer, f), n)
            && producer.rb.inv() implies exists|calls: Answers<F, T>|
        {
            &&& calls.source() == f
            &&& calls.answers().len() == (if final(producer).rb@.len()
                < producer.rb.spec_capacity() {
                n + 1
            } else {
                n as int
            })
            &&& forall|i: int|
                0 <= i < n ==> #[trigger] calls.answers()[i] == Some(
                    final(producer).rb@[producer.rb@.len() + i],
                )
            &&& final(producer).rb@.len() < producer.rb.spec_capacity()
                ==> calls.answers()[n as int] is None
        } by {
        let start = producer.rb@.len() as int;
        let end = if n < producer.rb.room() {
            seq![None::<T>]
        } else {
            Seq::empty()
        };
        let put = final(producer).rb@.skip(start).map_values(|elem: T| Some(elem));
        let calls = choose|calls: Answers<F, T>|
            calls.source() == f && #[trigger] calls.answers() == put + end;
        assert(calls.answers() == put + end);
        assert forall|i: int| 0 <= i < n implies #[trigger] calls.answers()[i] == Some(
            final(producer).rb@[start + i],
        ) by {
            assert(put[i] == Some(final(producer).rb@.skip(start)[i]));
        }
    }
}

/// What `push_iter` puts in are the next items of the iterator, in their order, as many as
/// there are and as fit. The others remain in the iterator.
pub proof fn law_push_iter<'a, T, I: Iterator<Item = T>>(n: usize)
    ensures
        forall|producer: &mut Producer<'a, T>, elems: &mut I|
            #[trigger] call_ensures(Producer::<'a, T>::push_iter::<I>, (producer, elems), n)
                && producer.rb.inv() && <I as IteratorSpec>::obeys_prophetic_iter_laws(elems) ==> {
                let before = producer.rb@;
                let after = final(producer).rb@;
                let coming = <I as IteratorSpec>::remaining(elems);
                &&& n <= coming.len()
                &&& after == before + coming.take(n as int)
                &&& <I as IteratorSpec>::remaining(final(elems)) == coming.skip(n as int)
                &&& after.len() <= producer.rb.spec_capacity()
                &&& n == coming.len() || after.len() == producer.rb.spec_capacity()
                &&& final(producer).rb.spec_capacity() == producer.rb.spec_capacity()
                &&& final(producer).rb.saved() == producer.rb.saved()
                &&& final(producer).rb.sleepers() == producer.rb.sleepers()
                &&& final(producer).rb.inv()
            },
{
}

/// A push through a shared end is one turn: the end takes the ring buffer once, and gives
/// it back with the item behind the others, or as it was where there is no room for it. In
/// the second case, and only then, the item comes back.
pub proof fn law_end_push<T, D: Entrance<RingBuffer<T>, SharedInv>>(
    elem: T,
    result: Result<(), T>,
)
    ensures
        forall|end: &mut ProducerEnd<T, D>|
            #[trigger] call_ensures(ProducerEnd::<T, D>::push, (end, elem), result) ==> {
                let before = final(end).found().last();
                &&& final(end).found() == end.found().push(before)
                &&& final(end).lock() == end.lock()
                &&& final(end).is_nonblocking() == end.is_nonblocking()
                &&& final(end).leaves_buffers() == end.leaves_buffers()
                &&& before.inv()
                &&& before.spec_capacity() == end.lock().pred().capacity
                &&& result is Ok <==> before@.len() < before.spec_capacity()
                &&& result is Err ==> result->Err_0 == elem
                &&& exists|after: RingBuffer<T>|
                    {
                        &&& #[trigger] visited(end.lock(), before, after)
                        &&& after.inv()
                        &&& after.spec_capacity() == before.spec_capacity()
                        &&& after@ == (if result is Ok {
                            before@.push(elem)
                        } else {
                            before@
                        })
                        &&& after.saved() == before.saved()
                        &&& after.sleepers() == before.sleepers()
                    }
            },
{
}

/// A pop through a shared end is one turn: the end takes the ring buffer once, and gives it
/// back without the oldest item, which it returns, or as it was where there is none.
pub proof fn law_end_pop<T, D: Entrance<RingBuffer<T>, SharedInv>>(item: Option<T>)
    ensures
        forall|end: &mut ConsumerEnd<T, D>|
            #[trigger] call_ensures(ConsumerEnd::<T, D>::pop, (end,), item) ==> {
                let before = final(end).found().last();
                &&& final(end).found() == end.found().push(before)
                &&& final(end).lock() == end.lock()
                &&& final(end).is_nonblocking() == end.is_nonblocking()
                &&& before.inv()
                &&& before.spec_capacity() == end.lock().pred().capacity
                &&& item is None <==> before@.len() == 0
                &&& exists|after: RingBuffer<T>|
                    {
                        &&& #[trigger] visited(end.lock(), before, after)
                        &&& after.inv()
                        &&& after.spec_capacity() == before.spec_capacity()
                        &&& item is None ==> after@ == before@
                        &&& item is Some ==> before@ == seq![item->0] + after@
                        &&& after.saved() == before.saved()
                        &&& after.sleepers() == before.sleepers()
                    }
            },
{
    assert forall|end: &mut ConsumerEnd<T, D>, after: RingBuffer<T>|
        #![trigger call_ensures(ConsumerEnd::<T, D>::pop, (end,), item), visited(end.lock(), final(end).found().last(), after)]
        final(end).found().last()@.len() > 0 && after@ == final(end).found().last()@.skip(
            1,
        ) implies final(end).found().last()@ == seq![final(end).found().last()@[0]] + after@ by {
        assert(final(end).found().last()@ =~= seq![final(end).found().last()@[0]] + after@);
    }
}

/// One turn of an end: what the ring buffer held before and after it, what the end put in
/// and what it got out.
pub struct Exchange<T> {
    /// The items before.
    pub before: Seq<T>,
    /// The items after.
    pub after: Seq<T>,
    /// What went in.
    pub put: Seq<T>,
    /// What came out.
    pub got: Seq<T>,
}

/// All that went in in the turns, in their order.
pub open spec fn all_put<T>(turns: Seq<Exchange<T>>) -> Seq<T>
    decreases turns.len(),
{
    if turns.len() == 0 {
        Seq::empty()
    } else {
        all_put(turns.drop_last()) + turns.last().put
    }
}

/// All that came out in the turns, in their order.
pub open spec fn all_got<T>(turns: Seq<Exchange<T>>) -> Seq<T>
    decreases turns.len(),
{
    if turns.len() == 0 {
        Seq::empty()
    } else {
        all_got(turns.drop_last()) + turns.last().got
    }
}

/// Whatever turns the two ends take, as long as each finds what the one before gave back:
/// the items that came out and then those in the ring buffer are those that were in it at
/// first and then those that went in. It is enough that this holds of each turn by itself.
pub proof fn law_turns_in_order<T>(turns: Seq<Exchange<T>>)
    requires
        turns.len() > 0,
        forall|i: int|
            0 <= i < turns.len() ==> (#[trigger] turns[i]).got + turns[i].after == turns[i].before
                + turns[i].put,
        forall|i: int|
            0 < i < turns.len() ==> (#[trigger] turns[i]).before == turns[i - 1].after,
    ensures
        all_got(turns) + turns.last().after == turns[0].before + all_put(turns),
    decreases turns.len(),
{
    let fewer = turns.drop_last();
    let last = turns.last();
    assert(last == turns[turns.len() - 1]);
    if fewer.len() > 0 {
        assert forall|i: int| 0 <= i < fewer.len() implies (#[trigger] fewer[i]).got
            + fewer[i].after == fewer[i].before + fewer[i].put by {
            assert(fewer[i] == turns[i]);
        }
        assert forall|i: int| 0 < i < fewer.len() implies (#[trigger] fewer[i]).before == fewer[i
            - 1].after by {
            assert(fewer[i] == turns[i]);
        }
        law_turns_in_order(fewer);
        assert(all_got(turns) + last.after =~= all_got(fewer) + (last.got + last.after));
        assert(all_got(fewer) + (last.before + last.put) =~= (all_got(fewer) + last.before)
            + last.put);
        assert((turns[0].before + all_put(fewer)) + last.put =~= turns[0].before + all_put(turns));
    } else {
        assert(all_got(turns) =~= last.got);
        assert(all_put(turns) =~= last.put);
    }
}

/// A pop that finds what a push has given back gets the oldest item of all: the one that
/// the push found in front, or the pushed one where there was no other.
pub proof fn law_push_then_pop<
    T,
    D: Entrance<RingBuffer<T>, SharedInv>,
    E: Entrance<RingBuffer<T>, SharedInv>,
>(elem: T, item: Option<T>)
    ensures
        forall|producer: &mut ProducerEnd<T, D>, consumer: &mut ConsumerEnd<T, E>|
            #[trigger] call_ensures(ProducerEnd::<T, D>::push, (producer, elem), Ok(())) && #[trigger]
            call_ensures(ConsumerEnd::<T, E>::pop, (consumer,), item) ==> exists|
                given: RingBuffer<T>,
            |
                {
                    let first = final(producer).found().last()@;
                    &&& #[trigger] visited(producer.lock(), final(producer).found().last(), given)
                    &&& final(consumer).found().last()@ == given@ ==> item == Some(
                        if first.len() > 0 {
                            first[0]
                        } else {
                            elem
                        },
                    )
                },
{
    assert forall|producer: &mut ProducerEnd<T, D>, consumer: &mut ConsumerEnd<T, E>|
        #[trigger] call_ensures(ProducerEnd::<T, D>::push, (producer, elem), Ok(())) && #[trigger]
        call_ensures(ConsumerEnd::<T, E>::pop, (consumer,), item) implies exists|
            given: RingBuffer<T>,
        |
        {
            let first = final(producer).found().last()@;
            &&& #[trigger] visited(producer.lock(), final(producer).found().last(), given)
            &&& final(consumer).found().last()@ == given@ ==> item == Some(
                if first.len() > 0 {
                    first[0]
                } else {
                    elem
                },
            )
        } by {
        law_end_push::<T, D>(elem, Ok(()));
        law_end_pop::<T, E>(item);
        let before = final(producer).found().last();
        let given = choose|given: RingBuffer<T>| #[trigger]
            visited(producer.lock(), before, given) && given@ == before@.push(elem);
        assert(visited(producer.lock(), before, given) && given@ == before@.push(elem));
        if final(consumer).found().last()@ == given@ {
            assert(item == Some(given@[0]));
        }
    }
}

/// A read is to deliver no more bytes than are asked for, than fit, and than are free in a
/// row up to the last slot, and fewer than one of these only because of another.
pub proof fn law_read_window_call<'a>(count: Option<usize>, len: usize)
    ensures
        forall|producer: Producer<'a, u8>|
            #[trigger] call_ensures(Producer::<'a, u8>::read_window, (&producer, count), len)
                && producer.rb.inv() ==> {
                let room = producer.rb.spec_capacity() - producer.rb@.len();
                let row = producer.rb.spec_capacity() + 1 - producer.rb.tail_index();
                &&& count is Some ==> len <= count->0
                &&& len <= room
                &&& len <= row
                &&& count == Some(len) || len == room || len == row
            },
{
}

/// A read that has delivered no more bytes than its buffer holds is a success, and these
/// bytes are appended. Any other read is an error and changes nothing.
pub proof fn law_read_from<'a, E>(
    buffer: &[u8],
    outcome: Result<usize, E>,
    result: Result<usize, ReadFromError<E>>,
)
    ensures
        forall|producer: &mut Producer<'a, u8>|
            #[trigger] call_ensures(
                Producer::<'a, u8>::read_from::<E>,
                (producer, buffer, outcome),
                result,
            ) && producer.rb.inv() ==> {
                let before = *producer.rb;
                let after = *final(producer).rb;
                &&& outcome is Err ==> result is Err && result->Err_0 is Failed
                    && result->Err_0->Failed_0 == outcome->Err_0
                &&& outcome is Ok && outcome->Ok_0 > buffer@.len() ==> result is Err
                    && result->Err_0 is InvalidNumber
                &&& outcome is Ok && outcome->Ok_0 <= buffer@.len() ==> result is Ok
                    && result->Ok_0 == outcome->Ok_0
                &&& result is Ok ==> after@ == before@ + buffer@.take(result->Ok_0 as int)
                &&& result is Err ==> after@ == before@
                &&& after.inv()
                &&& after.spec_capacity() == before.spec_capacity()
                &&& after.saved() == before.saved()
                &&& after.sleepers() == before.sleepers()
            },
{
}

/// What a writer does next: it is done with what it has written, or, where that is nothing
/// and there is a consumer to make room, it starts again, or fails if it must not block.
pub proof fn law_write_action<'a>(n: usize, action: WriteAction)
    ensures
        forall|producer: Producer<'a, u8>|
            #[trigger] call_ensures(Producer::<'a, u8>::write_action, (&producer, n), action) ==> {
                let stuck = n == 0 && producer.ends > 1;
                &&& action is Done <==> !stuck
                &&& action is Done ==> action->Done_0 == n
                &&& action is WouldBlock <==> stuck && producer.nonblocking
                &&& action is Retry <==> stuck && !producer.nonblocking
            },
{
}

/// One pass of a write does with the bytes what a push of a slice does. The writer waits
/// where the bytes were left for a reader, fails or starts again where nothing was written
/// and there is a consumer to make room, and otherwise is done.
pub proof fn law_write<'a>(buffer: &[u8], step: WriteStep)
    ensures
        forall|producer: &mut Producer<'a, u8>|
            #[trigger] call_ensures(Producer::<'a, u8>::write, (producer, buffer), step)
                && producer.rb.inv() ==> {
                let before = *producer.rb;
                let after = *final(producer).rb;
                let bytes = buffer@;
                let handed = producer.sleep_copy.reader && before.saved() is Reader;
                let asked = before.saved()->Reader_0@;
                let n = if handed {
                    after.saved()->Copied_0 as int
                } else {
                    0
                };
                let written = n + after@.len() - before@.len();
                let stuck = written == 0 && producer.ends > 1;
                &&& step.action is Wait <==> producer.sleep_copy.writer && before.saved() is Empty
                &&& step.action is Wait ==> {
                    &&& after@ == before@
                    &&& after.saved() is Writer
                    &&& after.saved()->Writer_0@ == bytes
                }
                &&& handed ==> {
                    &&& after.saved() is Copied
                    &&& n <= bytes.len()
                    &&& n <= asked.len()
                    &&& n == bytes.len() || n == asked.len()
                    &&& after.saved()->Copied_1@ == bytes.take(n) + asked.skip(n)
                }
                &&& !handed && !(step.action is Wait) ==> after.saved() == before.saved()
                &&& !(step.action is Wait) ==> {
                    &&& n <= written <= bytes.len()
                    &&& after@ == before@ + bytes.subrange(n, written)
                    &&& written < bytes.len() ==> after@.len() == before.spec_capacity()
                    &&& step.action is Done <==> !stuck
                    &&& step.action is Done ==> step.action->Done_0 == written
                    &&& step.action is WouldBlock <==> stuck && producer.nonblocking
                    &&& step.action is Retry <==> stuck && !producer.nonblocking
                }
                &&& step.notify <==> handed && before.sleepers() > 0
                &&& after.spec_capacity() == before.spec_capacity()
                &&& after.sleepers() == before.sleepers()
                &&& after.inv()
            },
{
}

/// A write whose bytes were left for a reader goes on when one has said how many it has
/// copied, and waits until then.
pub proof fn law_write_resume<'a>(buffer: &[u8], action: WriteAction)
    ensures
        forall|producer: &mut Producer<'a, u8>|
            #[trigger] call_ensures(Producer::<'a, u8>::write_resume, (producer, buffer), action)
                && producer.rb.inv() ==> {
                let before = *producer.rb;
                let after = *final(producer).rb;
                let bytes = buffer@;
                let said = before.saved()->Copied_0;
                let n = if said < bytes.len() {
                    said as int
                } else {
                    bytes.len() as int
                };
                let written = n + after@.len() - before@.len();
                let stuck = written == 0 && producer.ends > 1;
                &&& action is Wait <==> !(before.saved() is Copied)
                &&& action is Wait ==> after@ == before@ && after.saved() == before.saved()
                &&& !(action is Wait) ==> {
                    &&& after.saved() is Empty
                    &&& n <= written <= bytes.len()
                    &&& after@ == before@ + bytes.subrange(n, written)
                    &&& written < bytes.len() ==> after@.len() == before.spec_capacity()
                    &&& action is Done <==> !stuck
                    &&& action is Done ==> action->Done_0 == written
                    &&& action is WouldBlock <==> stuck && producer.nonblocking
                    &&& action is Retry <==> stuck && !producer.nonblocking
                }
                &&& after.spec_capacity() == before.spec_capacity()
                &&& after.sleepers() == before.sleepers()
                &&& after.inv()
            },
{
}

/// A push of a slice through a shared end is one turn, in which the ring buffer is changed
/// as by any push of a slice.
pub proof fn law_end_push_slice<T: Copy, D: Entrance<RingBuffer<T>, SharedInv>>(
    elems: &[T],
    out: PushSlice,
)
    ensures
        forall|end: &mut ProducerEnd<T, D>|
            #[trigger] call_ensures(ProducerEnd::<T, D>::push_slice, (end, elems), out) ==> {
                let before = final(end).found().last();
                let may = end.leaves_buffers();
                let handed = may.reader && before.saved() is Reader;
                let asked = before.saved()->Reader_0@;
                &&& final(end).found() == end.found().push(before)
                &&& final(end).lock() == end.lock()
                &&& final(end).is_nonblocking() == end.is_nonblocking()
                &&& final(end).leaves_buffers() == may
                &&& before.spec_capacity() == end.lock().pred().capacity
                &&& out.waiting <==> may.writer && before.saved() is Empty
                &&& out.notify <==> handed && before.sleepers() > 0
                &&& exists|after: RingBuffer<T>|
                    {
                        let n = if handed {
                            after.saved()->Copied_0 as int
                        } else {
                            0
                        };
                        &&& #[trigger] visited(end.lock(), before, after)
                        &&& out.waiting ==> {
                            &&& out.written == 0
                            &&& after@ == before@
                            &&& after.saved() is Writer
                            &&& after.saved()->Writer_0@ == elems@
                        }
                        &&& handed ==> {
                            &&& after.saved() is Copied
                            &&& n <= elems@.len()
                            &&& n <= asked.len()
                            &&& n == elems@.len() || n == asked.len()
                            &&& after.saved()->Copied_1@ == elems@.take(n) + asked.skip(n)
                        }
                        &&& !handed && !out.waiting ==> after.saved() == before.saved()
                        &&& !out.waiting ==> {
                            &&& n <= out.written <= elems@.len()
                            &&& after@ == before@ + elems@.subrange(n, out.written as int)
                            &&& out.written < elems@.len() ==> after@.len()
                                == before.spec_capacity()
                        }
                        &&& after.spec_capacity() == before.spec_capacity()
                        &&& after.sleepers() == before.sleepers()
                        &&& after.inv()
                    }
            },
{
}

/// A push through a shared end that goes on when a reader has come by is one turn, in which
/// the ring buffer is changed as by any such push.
pub proof fn law_end_push_slice_resume<T: Copy, D: Entrance<RingBuffer<T>, SharedInv>>(
    elems: &[T],
    total: Option<usize>,
)
    ensures
        forall|end: &mut ProducerEnd<T, D>|
            #[trigger] call_ensures(
                ProducerEnd::<T, D>::push_slice_resume,
                (end, elems),
                total,
            ) ==> {
                let before = final(end).found().last();
                let said = before.saved()->Copied_0;
                let n = if said < elems@.len() {
                    said as int
                } else {
                    elems@.len() as int
                };
                &&& final(end).found() == end.found().push(before)
                &&& final(end).lock() == end.lock()
                &&& final(end).is_nonblocking() == end.is_nonblocking()
                &&& final(end).leaves_buffers() == end.leaves_buffers()
                &&& total is Some <==> before.saved() is Copied
                &&& exists|after: RingBuffer<T>|
                    {
                        &&& #[trigger] visited(end.lock(), before, after)
                        &&& total is None ==> after@ == before@ && after.saved() == before.saved()
                        &&& total is Some ==> {
                            &&& after.saved() is Empty
                            &&& n <= total->0 <= elems@.len()
                            &&& after@ == before@ + elems@.subrange(n, total->0 as int)
                            &&& total->0 < elems@.len() ==> after@.len()
                                == before.spec_capacity()
                        }
                        &&& after.spec_capacity() == before.spec_capacity()
                        &&& after.sleepers() == before.sleepers()
                        &&& after.inv()
                    }
            },
{
}

/// One pass of a write through a shared end is one turn, and does what any pass of a write
/// does.
pub proof fn law_end_write<D: Entrance<RingBuffer<u8>, SharedInv>>(buffer: &[u8], step: WriteStep)
    ensures
        forall|end: &mut ProducerEnd<u8, D>|
            #[trigger] call_ensures(ProducerEnd::<u8, D>::write, (end, buffer), step) ==> {
                let before = final(end).found().last();
                let may = end.leaves_buffers();
                let bytes = buffer@;
                let handed = may.reader && before.saved() is Reader;
                let asked = before.saved()->Reader_0@;
                &&& final(end).found() == end.found().push(before)
                &&& final(end).lock() == end.lock()
                &&& final(end).is_nonblocking() == end.is_nonblocking()
                &&& final(end).leaves_buffers() == may
                &&& step.action is Wait <==> may.writer && before.saved() is Empty
                &&& step.notify <==> handed && before.sleepers() > 0
                &&& exists|after: RingBuffer<u8>, ends: usize|
                    {
                        let n = if handed {
                            after.saved()->Copied_0 as int
                        } else {
                            0
                        };
                        let written = n + after@.len() - before@.len();
                        let stuck = written == 0 && ends > 1;
                        &&& #[trigger] visited(end.lock(), before, after)
                        &&& #[trigger] end.may_count(ends)
                        &&& step.action is Wait ==> {
                            &&& after@ == before@
                            &&& after.saved() is Writer
                            &&& after.saved()->Writer_0@ == bytes
                        }
                        &&& handed ==> {
                            &&& after.saved() is Copied
                            &&& n <= bytes.len()
                            &&& n <= asked.len()
                            &&& n == bytes.len() || n == asked.len()
                            &&& after.saved()->Copied_1@ == bytes.take(n) + asked.skip(n)
                        }
                        &&& !handed && !(step.action is Wait) ==> after.saved() == before.saved()
                        &&& !(step.action is Wait) ==> {
                            &&& n <= written <= bytes.len()
                            &&& after@ == before@ + bytes.subrange(n, written)
                            &&& written < bytes.len() ==> after@.len() == before.spec_capacity()
                            &&& step.action is Done <==> !stuck
                            &&& step.action is Done ==> step.action->Done_0 == written
                            &&& step.action is WouldBlock <==> stuck && end.is_nonblocking()
                            &&& step.action is Retry <==> stuck && !end.is_nonblocking()
                        }
                        &&& after.spec_capacity() == before.spec_capacity()
                        &&& after.sleepers() == before.sleepers()
                        &&& after.inv()
                    }
            },
{
}

/// A write through a shared end that goes on when a reader has come by is one turn, and
/// does what any such write does.
pub proof fn law_end_write_resume<D: Entrance<RingBuffer<u8>, SharedInv>>(
    buffer: &[u8],
    action: WriteAction,
)
    ensures
        forall|end: &mut ProducerEnd<u8, D>|
            #[trigger] call_ensures(ProducerEnd::<u8, D>::write_resume, (end, buffer), action) ==> {
                let before = final(end).found().last();
                let bytes = buffer@;
                let said = before.saved()->Copied_0;
                let n = if said < bytes.len() {
                    said as int
                } else {
                    bytes.len() as int
                };
                &&& final(end).found() == end.found().push(before)
                &&& final(end).lock() == end.lock()
                &&& final(end).is_nonblocking() == end.is_nonblocking()
                &&& final(end).leaves_buffers() == end.leaves_buffers()
                &&& action is Wait <==> !(before.saved() is Copied)
                &&& exists|after: RingBuffer<u8>, ends: usize|
                    {
                        let written = n + after@.len() - before@.len();
                        let stuck = written == 0 && ends > 1;
                        &&& #[trigger] visited(end.lock(), before, after)
                        &&& #[trigger] end.may_count(ends)
                        &&& action is Wait ==> after@ == before@ && after.saved()
                            == before.saved()
                        &&& !(action is Wait) ==> {
                            &&& after.saved() is Empty
                            &&& n <= written <= bytes.len()
                            &&& after@ == before@ + bytes.subrange(n, written)
                            &&& written < bytes.len() ==> after@.len() == before.spec_capacity()
                            &&& action is Done <==> !stuck
                            &&& action is Done ==> action->Done_0 == written
                            &&& action is WouldBlock <==> stuck && end.is_nonblocking()
                            &&& action is Retry <==> stuck && !end.is_nonblocking()
                        }
                        &&& after.spec_capacity() == before.spec_capacity()
                        &&& after.sleepers() == before.sleepers()
                        &&& after.inv()
                    }
            },
{
}

/// What a shared end answers of the ring buffer holds of the buffer in the turn in which it
/// looks, which leaves the buffer as it is.
pub proof fn law_end_answers<T, D: Entrance<RingBuffer<T>, SharedInv>>(
    end: ProducerEnd<T, D>,
    capacity: usize,
    len: usize,
    room: usize,
    empty: bool,
    full: bool,
)
    requires
        call_ensures(ProducerEnd::<T, D>::capacity, (&end,), capacity),
        call_ensures(ProducerEnd::<T, D>::len, (&end,), len),
        call_ensures(ProducerEnd::<T, D>::remaining, (&end,), room),
        call_ensures(ProducerEnd::<T, D>::is_empty, (&end,), empty),
        call_ensures(ProducerEnd::<T, D>::is_full, (&end,), full),
    ensures
        capacity == end.lock().pred().capacity,
        exists|rb: RingBuffer<T>| #[trigger] visited(end.lock(), rb, rb) && len == rb@.len(),
        exists|rb: RingBuffer<T>| #[trigger]
            visited(end.lock(), rb, rb) && rb@.len() + room == capacity,
        exists|rb: RingBuffer<T>| #[trigger]
            visited(end.lock(), rb, rb) && (empty <==> rb@ == Seq::<T>::empty()),
        exists|rb: RingBuffer<T>| #[trigger]
            visited(end.lock(), rb, rb) && (full <==> rb@.len() == capacity),
        len <= capacity,
        room <= capacity,
{
    assert(forall|rb: RingBuffer<T>| rb@.len() == 0 <==> #[trigger] rb@ =~= Seq::<T>::empty());
}

/// The two ends of a split buffer hold the one lock that was made around it. They block,
/// leave no buffers for each other, and have taken no turn yet.
pub proof fn law_split<T>(rb: RingBuffer<T>, ends: (ProducerEnd<T>, ConsumerEnd<T>))
    requires
        rb.inv(),
        call_ensures(RingBuffer::<T>::split, (rb,), ends),
    ensures
        ends.0.lock() == ends.1.lock(),
        ends.0.lock().pred().capacity == rb.spec_capacity(),
        ends.0.found().len() == 0,
        ends.1.found().len() == 0,
        !ends.0.is_nonblocking(),
        !ends.1.is_nonblocking(),
        !ends.0.leaves_buffers().reader,
        !ends.0.leaves_buffers().writer,
        call_ensures(
            RwLock::<RingBuffer<T>, SharedInv>::new,
            (rb, Ghost(SharedInv { capacity: rb.spec_capacity() })),
            ends.0.lock(),
        ),
{
}

/// Whoever gets a shared ring buffer gets one that is well formed and has the capacity that
/// it was made with.
pub proof fn law_shared_invariant<T>(lock: RwLock<RingBuffer<T>, SharedInv>, rb: RingBuffer<T>)
    requires
        lock.inv(rb),
    ensures
        rb.inv(),
        rb.spec_capacity() == lock.pred().capacity,
{
}

/// The number of pauses stays between one and 31. It doubles, from one on, and starts from
/// one again where it would leave these bounds.
pub proof fn law_next_pauses(npauses: u32, next: u32)
    requires
        npauses < 32,
        call_ensures(next_pauses, (npauses,), next),
    ensures
        1 <= next < 32,
        1 <= npauses < 16 ==> next == npauses + npauses,
        npauses >= 16 ==> next == 1,
        npauses == 0 ==> next == 2,
{
}

/// A wait begins awake.
pub proof fn law_wait_begins(start: u64, cycles: u64, waiter: Waiter)
    requires
        call_ensures(Waiter::new, (start, cycles), waiter),
    ensures
        waiter.start == start,
        waiter.cycles == cycles,
        !waiter.sleeping,
{
}

/// A thread that locks a mutex returns as soon as an attempt has locked it or found it
/// poisoned. Until then it tries as long as fewer cycles have gone by than it may spin, and
/// then it blocks.
pub proof fn law_spin_first_lock(
    locking: Locking,
    spin_cycles: u64,
    attempt: Option<TryLock>,
    now: u64,
    action: LockAction,
)
    requires
        call_ensures(
            <Locking as SpinFirst>::spin_first_lock,
            (&locking, spin_cycles, attempt, now),
            action,
        ),
    ensures
        action is ReturnLocked <==> attempt == Some(TryLock::Acquired),
        action is ReturnPoisoned <==> attempt == Some(TryLock::Poisoned),
        action is Try <==> (attempt is None || attempt == Some(TryLock::WouldBlock)) && now
            - locking.start_cycles < spin_cycles,
        action is Lock <==> (attempt is None || attempt == Some(TryLock::WouldBlock)) && now
            - locking.start_cycles >= spin_cycles,
{
}

/// An end for asynchronous code hands out the reference that it was made from.
pub proof fn law_async_round_trip<R, const P: bool, const C: bool>(
    rb: R,
    made: AsyncWrap<R, P, C>,
    seen: R,
    back: R,
)
    requires
        call_ensures(AsyncWrap::<R, P, C>::new, (rb,), made),
        call_ensures(AsyncWrap::<R, P, C>::rb_ref, (&made,), &seen),
        call_ensures(AsyncWrap::<R, P, C>::into_rb_ref, (made,), back),
    ensures
        seen == rb,
        back == rb,
        call_requires(AsyncWrap::<R, P, C>::rb_ref, (&made,)),
        call_requires(AsyncWrap::<R, P, C>::base, (&made,)),
        call_requires(AsyncWrap::<R, P, C>::into_rb_ref, (made,)),
{
}

/// A reference to a ring buffer as one of its ends hands out the reference that it was made
/// from.
pub proof fn law_caching_round_trip<R, const P: bool, const C: bool>(
    rb: R,
    made: Caching<R, P, C>,
    seen: R,
    back: R,
)
    requires
        call_ensures(Caching::<R, P, C>::new, (rb,), made),
        call_ensures(Caching::<R, P, C>::rb_ref, (&made,), &seen),
        call_ensures(Caching::<R, P, C>::into_rb_ref, (made,), back),
    ensures
        seen == rb,
        back == rb,
{
}

/// Storage on the heap has as many slots as were asked for, all of them vacant.
pub proof fn law_heap_new<T>(capacity: usize, heap: Heap<T>)
    requires
        call_ensures(Heap::<T>::new, (capacity,), heap),
    ensures
        heap.data@.len() == capacity,
        forall|i: int| 0 <= i < capacity ==> (#[trigger] heap.data@[i]) is None,
{
}

/// What storage answers of itself fits together: its length is the number of its slots, and
/// a slice of it holds those in the range, in their order.
pub proof fn law_storage<S: Storage>(
    storage: S,
    len: usize,
    empty: bool,
    all: &[Option<S::Item>],
    range: Range<usize>,
    some: &[Option<S::Item>],
)
    requires
        call_ensures(S::len, (&storage,), len),
        call_ensures(S::is_empty, (&storage,), empty),
        call_ensures(S::as_slice, (&storage,), all),
        call_ensures(S::slice, (&storage, range), some),
        range.start <= range.end <= len,
    ensures
        all@.len() == len,
        empty <==> len == 0,
        some@.len() == range.end - range.start,
        forall|i: int|
            0 <= i < range.end - range.start ==> #[trigger] some@[i] == all@[range.start + i],
{
}

/// A producer is made on the very buffer that it is given, blocks, and leaves no buffers.
/// To make it nonblocking changes nothing else.
pub proof fn law_producer_settings<'a, T>(ends: usize)
    ensures
        forall|rb: &'a mut RingBuffer<T>, producer: Producer<'a, T>|
            #[trigger] call_ensures(Producer::<'a, T>::new, (rb, ends), producer) ==> {
                &&& *producer.rb == *rb
                &&& *final(producer.rb) == *final(rb)
                &&& producer.ends == ends
                &&& !producer.nonblocking
                &&& !producer.sleep_copy.reader
                &&& !producer.sleep_copy.writer
            },
        forall|producer: &mut Producer<'a, T>|
            #[trigger] call_ensures(Producer::<'a, T>::set_nonblocking, (producer,), ()) ==> {
                &&& final(producer).nonblocking
                &&& *final(producer).rb == *producer.rb
                &&& final(producer).ends == producer.ends
                &&& final(producer).sleep_copy == producer.sleep_copy
            },
{
}

/// A consumer is made on the very buffer that it is given, and blocks.
pub proof fn law_consumer_settings<'a, T>()
    ensures
        forall|rb: &'a mut RingBuffer<T>, consumer: Consumer<'a, T>|
            #[trigger] call_ensures(Consumer::<'a, T>::new, (rb,), consumer) ==> {
                &&& *consumer.rb == *rb
                &&& *final(consumer.rb) == *final(rb)
                &&& !consumer.nonblocking
            },
{
}

/// What is left for the other end stays until it is replaced, and to replace it changes
/// nothing else.
pub proof fn law_saved<T>(saved: SavedBuffer<T>, previous: SavedBuffer<T>)
    ensures
        forall|rb: &mut RingBuffer<T>|
            #[trigger] call_ensures(RingBuffer::<T>::replace_saved, (rb, saved), previous) ==> {
                &&& previous == rb.saved()
                &&& final(rb).saved() == saved
                &&& final(rb).slots() == rb.slots()
                &&& final(rb).head_index() == rb.head_index()
                &&& final(rb).tail_index() == rb.tail_index()
                &&& final(rb).sleepers() == rb.sleepers()
            },
        forall|rb: RingBuffer<T>, left: &SavedBuffer<T>|
            #[trigger] call_ensures(RingBuffer::<T>::saved_buf, (&rb,), left) ==> *left
                == rb.saved(),
        forall|rb: RingBuffer<T>, sleepers: usize|
            #[trigger] call_ensures(RingBuffer::<T>::num_sleepers, (&rb,), sleepers) ==> sleepers
                == rb.sleepers(),
{
}

/// A consumer is alive, says a shared end, where the count of ends that it has got is two
/// or more.
pub proof fn law_end_is_consumer_alive<T, D: Entrance<RingBuffer<T>, SharedInv>>(
    end: ProducerEnd<T, D>,
    alive: bool,
)
    requires
        call_ensures(ProducerEnd::<T, D>::is_consumer_alive, (&end,), alive),
    ensures
        exists|ends: usize| #[trigger] end.may_count(ends) && (alive <==> ends > 1),
{
}

/// A shared end makes producers on the very buffer that it is given, with the settings of
/// the end.
pub proof fn law_end_producer<'a, T, D: Entrance<RingBuffer<T>, SharedInv>>(
    end: ProducerEnd<T, D>,
)
    ensures
        forall|rb: &'a mut RingBuffer<T>, producer: Producer<'a, T>|
            #[trigger] call_ensures(
                ProducerEnd::<T, D>::producer,
                (&end, rb),
                producer,
            ) ==> {
                &&& *producer.rb == *rb
                &&& *final(producer.rb) == *final(rb)
                &&& producer.nonblocking == end.is_nonblocking()
                &&& producer.sleep_copy == end.leaves_buffers()
                &&& end.may_count(producer.ends)
            },
{
}

/// The settings of a shared end are what they were last set to. To set one changes neither
/// the other, nor the lock, nor the record of turns.
pub proof fn law_end_settings<T, D: Entrance<RingBuffer<T>, SharedInv>>(sleep_copy: SleepCopy)
    ensures
        forall|end: &mut ProducerEnd<T, D>|
            #[trigger] call_ensures(ProducerEnd::<T, D>::set_nonblocking, (end,), ()) ==> {
                &&& final(end).is_nonblocking()
                &&& final(end).leaves_buffers() == end.leaves_buffers()
                &&& final(end).lock() == end.lock()
                &&& final(end).found() == end.found()
            },
        forall|end: &mut ProducerEnd<T, D>|
            #[trigger] call_ensures(
                ProducerEnd::<T, D>::set_sleep_copy,
                (end, sleep_copy),
                (),
            ) ==> {
                &&& final(end).leaves_buffers() == sleep_copy
                &&& final(end).is_nonblocking() == end.is_nonblocking()
                &&& final(end).lock() == end.lock()
                &&& final(end).found() == end.found()
            },
{
}

} // verus!

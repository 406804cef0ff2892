//! Moving items from one ring buffer to another, or round within one.

use std::ops::Range;
use vstd::prelude::*;
use crate::consumer::Consumer;
use crate::producer::{smaller, Producer};
use crate::ring_buffer::{advance, first_run, free_ranges, lemma_extended, lemma_shortened,
    occupied_ranges, wrap, RingBuffer};

verus! {

/// A run of slots: the slot that it starts at and how many slots it has.
#[derive(Clone, Copy)]
pub struct SlicePtr {
    /// The first slot.
    pub start: usize,
    /// How many slots.
    pub len: usize,
}

impl SlicePtr {
    /// A run without slots.
    pub fn null() -> (run: SlicePtr)
        ensures
            run == (SlicePtr { start: 0, len: 0 }),
    {
        SlicePtr { start: 0, len: 0 }
    }

    /// The run of slots in a range.
    pub fn new(range: Range<usize>) -> (run: SlicePtr)
        requires
            range.start <= range.end,
        ensures
            run.start == range.start,
            run.len == range.end - range.start,
    {
        SlicePtr { start: range.start, len: range.end - range.start }
    }

    /// Leaves out the first `count` slots.
    pub fn shift(&mut self, count: usize)
        requires
            count <= old(self).len,
            old(self).start + count <= usize::MAX,
        ensures
            final(self).start == old(self).start + count,
            final(self).len == old(self).len - count,
    {
        self.start = self.start + count;
        self.len = self.len - count;
    }
}

/// The two runs cover, in order, `total` slots from slot `from` on, where a walk
/// past the last of the `n` slots goes on at slot zero.
spec fn covers(runs: (SlicePtr, SlicePtr), from: int, total: int, n: int) -> bool {
    &&& runs.0.len == first_run(from, total, n)
    &&& runs.0.len > 0 ==> runs.0.start == from
    &&& runs.1.len == total - runs.0.len
    &&& runs.1.len > 0 ==> runs.1.start == 0
}

/// What is left of two runs without the first `k` slots of the first one.
fn consume(runs: (SlicePtr, SlicePtr), k: usize) -> (rest: (SlicePtr, SlicePtr))
    requires
        k <= runs.0.len,
        runs.0.start + runs.0.len <= usize::MAX,
    ensures
        rest == (if runs.0.len == k {
            (runs.1, SlicePtr { start: 0, len: 0 })
        } else {
            (
                SlicePtr { start: (runs.0.start + k) as usize, len: (runs.0.len - k) as usize },
                runs.1,
            )
        }),
{
    if runs.0.len == k {
        (runs.1, SlicePtr::null())
    } else {
        let mut first = runs.0;
        first.shift(k);
        (first, runs.1)
    }
}

/// The smallest of three numbers.
fn smallest(a: usize, b: usize, c: usize) -> (min: usize)
    ensures
        min == smaller(a as int, smaller(b as int, c as int)),
{
    if a < b && a < c {
        a
    } else if b < c {
        b
    } else {
        c
    }
}

/// Moves the contents of `k` slots of one buffer to slots of another, and leaves
/// the slots that they came from vacant.
fn move_slots<T>(
    src: &mut RingBuffer<T>,
    from: usize,
    dst: &mut RingBuffer<T>,
    to: usize,
    k: usize,
)
    requires
        from + k <= old(src).slots().len() <= usize::MAX,
        to + k <= old(dst).slots().len() <= usize::MAX,
    ensures
        final(src).same_but_slots(*old(src)),
        final(dst).same_but_slots(*old(dst)),
        final(src).slots().len() == old(src).slots().len(),
        final(dst).slots().len() == old(dst).slots().len(),
        forall|i: int|
            0 <= i < old(src).slots().len() ==> #[trigger] final(src).slots()[i] == (if from <= i < from
                + k {
                None
            } else {
                old(src).slots()[i]
            }),
        forall|i: int|
            0 <= i < old(dst).slots().len() ==> #[trigger] final(dst).slots()[i] == (if to <= i < to + k {
                old(src).slots()[from + (i - to)]
            } else {
                old(dst).slots()[i]
            }),
{
    let mut j: usize = 0;
    while j < k
        invariant
            j <= k,
            from + k <= old(src).slots().len() <= usize::MAX,
            to + k <= old(dst).slots().len() <= usize::MAX,
            src.same_but_slots(*old(src)),
            dst.same_but_slots(*old(dst)),
            src.slots().len() == old(src).slots().len(),
            dst.slots().len() == old(dst).slots().len(),
            forall|i: int|
                0 <= i < src.slots().len() ==> #[trigger] src.slots()[i] == (if from <= i < from + j {
                    None
                } else {
                    old(src).slots()[i]
                }),
            forall|i: int|
                0 <= i < dst.slots().len() ==> #[trigger] dst.slots()[i] == (if to <= i < to + j {
                    old(src).slots()[from + (i - to)]
                } else {
                    old(dst).slots()[i]
                }),
        decreases k - j,
    {
        let mut slot: Option<T> = None;
        std::mem::swap(&mut src.slots_mut()[from + j], &mut slot);
        dst.slots_mut()[to + j] = slot;
        j = j + 1;
    }
}

/// The number of items that a move transfers, of `have` items to a place with
/// room for `room`: as many as possible, but no more than `count`.
pub open spec fn moved_count(count: Option<usize>, have: int, room: int) -> int {
    match count {
        Some(limit) => smaller(limit as int, smaller(have, room)),
        None => smaller(have, room),
    }
}

/// Moves at most `count` items from the `src` consumer to the `dst` producer, which are of
/// different buffers. [`move_items_within`] moves items within one buffer.
///
/// `count` is the number of items being moved, if `None` - as much as possible items will be moved.
///
/// Returns number of items been moved.
pub fn move_items<'a, 'b, T>(
    src: &mut Consumer<'a, T>,
    dst: &mut Producer<'b, T>,
    count: Option<usize>,
) -> (moved: usize)
    requires
        old(src).rb.inv(),
        old(dst).rb.inv(),
    ensures
        moved == moved_count(count, old(src).rb@.len() as int, old(dst).rb.room()),
        final(src).rb@ == old(src).rb@.skip(moved as int),
        final(dst).rb@ == old(dst).rb@ + old(src).rb@.take(moved as int),
        final(src).nonblocking == old(src).nonblocking,
        final(dst).same_settings(old(dst)),
        *final(final(src).rb) == *final(old(src).rb),
        *final(final(dst).rb) == *final(old(dst).rb),
        final(src).rb.inv(),
        final(dst).rb.inv(),
        final(src).rb.same_setting(*old(src).rb),
        final(dst).rb.same_setting(*old(dst).rb),
        final(src).rb.tail_index() == old(src).rb.tail_index(),
        final(src).rb.head_index() == wrap(
            old(src).rb.head_index() + moved,
            old(src).rb.slots().len() as int,
        ),
        final(dst).rb.head_index() == old(dst).rb.head_index(),
        final(dst).rb.tail_index() == wrap(
            old(dst).rb.tail_index() + moved,
            old(dst).rb.slots().len() as int,
        ),
{
    let ghost from = *src.rb;
    let ghost into = *dst.rb;
    let src_head: usize = src.rb.head();
    let src_len: usize = src.rb.slot_count();
    let dst_tail: usize = dst.rb.tail();
    let dst_len: usize = dst.rb.slot_count();
    let occupied = occupied_ranges(src_head, src.rb.tail(), src_len);
    let free = free_ranges(dst.rb.head(), dst_tail, dst_len);
    let mut src_runs = (SlicePtr::new(occupied.0), SlicePtr::new(occupied.1));
    let mut dst_runs = (SlicePtr::new(free.0), SlicePtr::new(free.1));
    let n: usize = match count {
        Some(limit) => limit,
        None => {
            let have: usize = src_runs.0.len + src_runs.1.len;
            let room: usize = dst_runs.0.len + dst_runs.1.len;
            if have < room {
                have
            } else {
                room
            }
        },
    };
    let mut m: usize = 0;
    let mut k: usize = smallest(n, src_runs.0.len, dst_runs.0.len);
    while k > 0
        invariant
            from.inv(),
            into.inv(),
            from == *old(src).rb,
            into == *old(dst).rb,
            src_head == from.head_index(),
            src_len == from.slots().len(),
            dst_tail == into.tail_index(),
            dst_len == into.slots().len(),
            src.nonblocking == old(src).nonblocking,
            dst.same_settings(old(dst)),
            *final(src.rb) == *final(old(src).rb),
            *final(dst.rb) == *final(old(dst).rb),
            src.rb.same_but_slots(from),
            dst.rb.same_but_slots(into),
            src.rb.slots().len() == src_len,
            dst.rb.slots().len() == dst_len,
            m <= n,
            m <= from.count(),
            m <= into.room(),
            covers(src_runs, wrap(src_head + m, src_len as int), from.count() - m, src_len as int),
            covers(dst_runs, wrap(dst_tail + m, dst_len as int), into.room() - m, dst_len as int),
            k == smaller(n - m, smaller(src_runs.0.len as int, dst_runs.0.len as int)),
            forall|i: int|
                m <= i < from.count() ==> src.rb.slots()[#[trigger] wrap(
                    src_head + i,
                    src_len as int,
                )] == from.slots()[wrap(src_head + i, src_len as int)],
            forall|i: int|
                0 <= i < into.count() ==> dst.rb.slots()[#[trigger] wrap(
                    into.head_index() + i,
                    dst_len as int,
                )] == into.slots()[wrap(into.head_index() + i, dst_len as int)],
            forall|i: int|
                0 <= i < m ==> dst.rb.slots()[#[trigger] wrap(dst_tail + i, dst_len as int)]
                    == from.slots()[wrap(src_head + i, src_len as int)],
        decreases n - m,
    {
        move_slots(src.rb, src_runs.0.start, dst.rb, dst_runs.0.start, k);
        src_runs = consume(src_runs, k);
        dst_runs = consume(dst_runs, k);
        m = m + k;
        k = smallest(n - m, src_runs.0.len, dst_runs.0.len);
    }
    dst.rb.set_tail(advance(dst_tail, m, dst_len));
    src.rb.set_head(advance(src_head, m, src_len));
    proof {
        lemma_extended(into, *dst.rb, from@.take(m as int));
        lemma_shortened(from, *src.rb, m as int);
    }
    m
}

/// Moves at most `count` items from the consumer end of a ring buffer to the
/// producer end of the same one: the oldest items become the newest.
///
/// `count` is the number of items being moved, if `None` - as much as possible items will be moved.
///
/// Returns number of items been moved.
pub fn move_items_within<T>(rb: &mut RingBuffer<T>, count: Option<usize>) -> (moved: usize)
    requires
        old(rb).inv(),
    ensures
        moved == moved_count(count, old(rb)@.len() as int, old(rb).room()),
        final(rb)@ == old(rb)@.skip(moved as int) + old(rb)@.take(moved as int),
        final(rb).inv(),
        final(rb).same_setting(*old(rb)),
        final(rb).head_index() == wrap(old(rb).head_index() + moved, old(rb).slots().len() as int),
        final(rb).tail_index() == wrap(old(rb).tail_index() + moved, old(rb).slots().len() as int),
{
    let have: usize = rb.len();
    let room: usize = rb.remaining();
    let n: usize = match count {
        Some(limit) => smallest(limit, have, room),
        None => smallest(have, have, room),
    };
    let mut m: usize = 0;
    proof {
        assert(rb@ =~= old(rb)@.skip(0) + old(rb)@.take(0));
    }
    while m < n
        invariant
            m <= n,
            n == moved_count(count, old(rb)@.len() as int, old(rb).room()),
            old(rb).inv(),
            rb.inv(),
            rb.same_setting(*old(rb)),
            rb@ == old(rb)@.skip(m as int) + old(rb)@.take(m as int),
            rb.head_index() == wrap(old(rb).head_index() + m, old(rb).slots().len() as int),
            rb.tail_index() == wrap(old(rb).tail_index() + m, old(rb).slots().len() as int),
        decreases n - m,
    {
        let ghost turned = rb@;
        assert(turned[0] == old(rb)@[m as int]);
        let item = rb.take_first();
        rb.append(item);
        m = m + 1;
        proof {
            assert(rb@ =~= old(rb)@.skip(m as int) + old(rb)@.take(m as int));
        }
    }
    n
}

} // verus!

//! What holds of the library as a whole.

use vstd::prelude::*;
use vstd::std_specs::convert::FromSpec;
use crate::byte_io::window;
use crate::consumer::{items_from, kept};
use crate::producer::smaller;
use crate::ring_buffer::{after_pop, after_push, first_run, wrap, RingBuffer, SleepCopy};
use crate::slices::{slice_pushed, slice_resumed, PushSlice};
use crate::storage::{Heap, Owning};
use crate::sync_spin::Waiter;
use crate::transfer::moved_count;

verus! {

/// An operation on a ring buffer.
pub enum Op<T> {
    /// A push of an item.
    Push(T),
    /// A pop.
    Pop,
}

/// What a ring buffer holds after the operations, where it held `start` before.
pub open spec fn contents_after<T>(start: Seq<T>, capacity: int, ops: Seq<Op<T>>) -> Seq<T>
    decreases ops.len(),
{
    if ops.len() == 0 {
        start
    } else {
        let before = contents_after(start, capacity, ops.drop_last());
        match ops.last() {
            Op::Push(elem) => after_push(before, capacity, elem),
            Op::Pop => after_pop(before),
        }
    }
}

/// The items that the pushes among the operations have put in, in their order.
pub open spec fn put_in<T>(start: Seq<T>, capacity: int, ops: Seq<Op<T>>) -> Seq<T>
    decreases ops.len(),
{
    if ops.len() == 0 {
        Seq::empty()
    } else {
        let so_far = put_in(start, capacity, ops.drop_last());
        match ops.last() {
            Op::Push(elem) => if contents_after(start, capacity, ops.drop_last()).len() < capacity {
                so_far.push(elem)
            } else {
                so_far
            },
            Op::Pop => so_far,
        }
    }
}

/// The items that the pops among the operations have taken out, in their order.
pub open spec fn taken_out<T>(start: Seq<T>, capacity: int, ops: Seq<Op<T>>) -> Seq<T>
    decreases ops.len(),
{
    if ops.len() == 0 {
        Seq::empty()
    } else {
        let so_far = taken_out(start, capacity, ops.drop_last());
        let before = contents_after(start, capacity, ops.drop_last());
        match ops.last() {
            Op::Push(elem) => so_far,
            Op::Pop => if before.len() > 0 {
                so_far.push(before[0])
            } else {
                so_far
            },
        }
    }
}

/// First in, first out: whatever pushes and pops are made in whatever order, the
/// items that came out and then those still in the buffer are those that were in
/// it at first and then those that went in. None is lost, none comes twice, none
/// overtakes another, and there are never more in the buffer than its capacity.
pub proof fn law_first_in_first_out<T>(start: Seq<T>, capacity: int, ops: Seq<Op<T>>)
    requires
        start.len() <= capacity,
    ensures
        taken_out(start, capacity, ops) + contents_after(start, capacity, ops) == start + put_in(
            start,
            capacity,
            ops,
        ),
        contents_after(start, capacity, ops).len() <= capacity,
    decreases ops.len(),
{
    if ops.len() > 0 {
        law_first_in_first_out(start, capacity, ops.drop_last());
        let before = contents_after(start, capacity, ops.drop_last());
        let out = taken_out(start, capacity, ops.drop_last());
        let into = put_in(start, capacity, ops.drop_last());
        match ops.last() {
            Op::Push(elem) => {
                if before.len() < capacity {
                    assert(out + before.push(elem) =~= (out + before).push(elem));
                    assert((start + into).push(elem) =~= start + into.push(elem));
                }
            },
            Op::Pop => {
                if before.len() > 0 {
                    assert(out.push(before[0]) + before.skip(1) =~= out + before);
                }
            },
        }
    }
    assert(taken_out(start, capacity, ops) + contents_after(start, capacity, ops) =~= start
        + put_in(start, capacity, ops));
}

/// To append a slice is to push its elements one by one: those for which there is
/// no room are refused.
pub proof fn law_slice_is_pushes<T>(start: Seq<T>, capacity: int, elems: Seq<T>)
    requires
        start.len() <= capacity,
    ensures
        contents_after(start, capacity, elems.map_values(|elem: T| Op::Push(elem))) == start
            + elems.take(smaller(elems.len() as int, capacity - start.len())),
    decreases elems.len(),
{
    let push = |elem: T| Op::Push(elem);
    let ops = elems.map_values(push);
    let n = smaller(elems.len() as int, capacity - start.len());
    if elems.len() > 0 {
        let fewer = elems.drop_last();
        law_slice_is_pushes(start, capacity, fewer);
        let m = smaller(fewer.len() as int, capacity - start.len());
        assert(ops.drop_last() =~= fewer.map_values(push));
        assert(ops.last() == push(elems.last()));
        assert(elems.take(n) =~= if n == m {
            fewer.take(m)
        } else {
            fewer.take(m).push(elems.last())
        });
        assert(start + fewer.take(m).push(elems.last()) =~= (start + fewer.take(m)).push(
            elems.last(),
        ));
    } else {
        assert(elems.take(n) =~= Seq::<T>::empty());
        assert(start + elems.take(n) =~= start);
    }
}

/// The items and the remaining space make up the capacity, and no buffer is both
/// empty and full.
pub proof fn law_length_and_room<T>(rb: RingBuffer<T>)
    requires
        rb.inv(),
    ensures
        rb@.len() + rb.room() == rb.spec_capacity(),
        0 <= rb.room(),
        !(rb@.len() == 0 && rb@.len() == rb.spec_capacity()),
{
}

/// Slot `i` is one of those that hold items.
pub open spec fn is_occupied<T>(rb: RingBuffer<T>, i: int) -> bool {
    let run = first_run(rb.head_index(), rb.count(), rb.slots().len() as int);
    rb.head_index() <= i < rb.head_index() + run || 0 <= i < rb.count() - run
}

/// Slot `i` is one of those that are handed out for writing.
pub open spec fn is_free<T>(rb: RingBuffer<T>, i: int) -> bool {
    let run = first_run(rb.tail_index(), rb.room(), rb.slots().len() as int);
    rb.tail_index() <= i < rb.tail_index() + run || 0 <= i < rb.room() - run
}

/// A producer and a consumer never touch the same slot: of all slots, each holds
/// an item or is free to write, and none is both, but for the one slot before the
/// head, which is neither.
pub proof fn law_ends_stay_apart<T>(rb: RingBuffer<T>, i: int)
    requires
        rb.inv(),
        0 <= i < rb.slots().len(),
    ensures
        !(is_occupied(rb, i) && is_free(rb, i)),
        (!is_occupied(rb, i) && !is_free(rb, i)) <==> i == (if rb.head_index() == 0 {
            rb.slots().len() - 1
        } else {
            rb.head_index() - 1
        }),
{
}

/// The slices that a producer is handed have room for exactly the items that
/// still fit, and the first one is empty only where the buffer is full.
pub proof fn law_free_slices<T>(rb: RingBuffer<T>)
    requires
        rb.inv(),
    ensures
        rb.free_left().len() + rb.free_right().len() == rb.room(),
        rb.free_left().len() == 0 <==> rb@.len() == rb.spec_capacity(),
{
}

/// The slices that a consumer is handed hold the items of the buffer, all of them,
/// oldest first.
pub proof fn law_occupied_slices<T>(rb: RingBuffer<T>)
    requires
        rb.inv(),
    ensures
        kept(rb.occupied_left(), rb.occupied_right(), 0),
        items_from(rb.occupied_left(), rb.occupied_right(), 0) == rb@,
        rb.occupied_left().len() == 0 <==> rb@.len() == 0,
{
    let left = rb.occupied_left();
    let right = rb.occupied_right();
    let n = rb.slots().len() as int;
    assert forall|i: int| 0 <= i < left.len() + right.len() implies (#[trigger] (left + right)[i])
        == rb.slots()[wrap(rb.head_index() + i, n)] && (left + right)[i] is Some by {
        assert(rb.slots()[wrap(rb.head_index() + i, n)] is Some);
    }
    assert(items_from(left, right, 0) =~= rb@);
}

/// A read delivers no bytes at all only where none are asked for, the buffer is
/// full, or the reader has none.
pub proof fn law_read_window<T>(rb: RingBuffer<T>, count: Option<usize>)
    requires
        rb.inv(),
    ensures
        window(count, rb.free_left().len() as int) <= rb.room(),
        window(count, rb.free_left().len() as int) == 0 <==> count == Some(0usize) || rb@.len()
            == rb.spec_capacity(),
{
}

/// A move from one buffer to another loses no item and changes no order: the
/// items of the destination and then those of the source are the same as before.
/// It stops only at the count, at an empty source or at a full destination.
pub proof fn law_move_keeps_items<T>(
    src: RingBuffer<T>,
    dst: RingBuffer<T>,
    src_after: RingBuffer<T>,
    dst_after: RingBuffer<T>,
    count: Option<usize>,
)
    requires
        src.inv(),
        dst.inv(),
        dst_after.inv(),
        dst_after.spec_capacity() == dst.spec_capacity(),
        src_after@ == src@.skip(moved_count(count, src@.len() as int, dst.room())),
        dst_after@ == dst@ + src@.take(moved_count(count, src@.len() as int, dst.room())),
    ensures
        dst_after@ + src_after@ == dst@ + src@,
        count is None ==> src_after@.len() == 0 || dst_after@.len() == dst_after.spec_capacity(),
        count is Some && dst_after@.len() - dst@.len() < count->0 ==> src_after@.len() == 0
            || dst_after@.len() == dst_after.spec_capacity(),
{
    assert(dst_after@ + src_after@ =~= dst@ + src@);
}

/// A move within one buffer keeps the items, and a move of all of them leaves the
/// buffer as it was.
pub proof fn law_move_within_keeps_items<T>(
    rb: RingBuffer<T>,
    after: RingBuffer<T>,
    count: Option<usize>,
)
    requires
        rb.inv(),
        after@ == rb@.skip(moved_count(count, rb@.len() as int, rb.room())) + rb@.take(
            moved_count(count, rb@.len() as int, rb.room()),
        ),
    ensures
        after@.to_multiset() == rb@.to_multiset(),
        moved_count(count, rb@.len() as int, rb.room()) == rb@.len() ==> after@ == rb@,
{
    let m = moved_count(count, rb@.len() as int, rb.room());
    let front = rb@.take(m);
    let back = rb@.skip(m);
    assert(rb@ =~= front + back);
    vstd::seq_lib::lemma_multiset_commutative(front, back);
    vstd::seq_lib::lemma_multiset_commutative(back, front);
    if m == rb@.len() {
        assert(after@ =~= rb@);
    }
}

/// A push of a slice counts no more elements than the slice has, and delivers none
/// twice: what a reader was handed and then what was appended are the elements that
/// it counts, from the first one on.
pub proof fn law_slice_count<T>(
    before: RingBuffer<T>,
    after: RingBuffer<T>,
    sleep_copy: SleepCopy,
    elems: Seq<T>,
    out: PushSlice,
)
    requires
        before.inv(),
        slice_pushed(before, after, sleep_copy, elems, out),
    ensures
        out.written <= elems.len(),
        ({
            let handed = if sleep_copy.reader && before.saved() is Reader {
                after.saved()->Copied_1@.take(after.saved()->Copied_0 as int)
            } else {
                Seq::empty()
            };
            handed + after@.skip(before@.len() as int) == elems.take(out.written as int)
        }),
{
    let handed = if sleep_copy.reader && before.saved() is Reader {
        after.saved()->Copied_1@.take(after.saved()->Copied_0 as int)
    } else {
        Seq::empty()
    };
    assert(handed =~= elems.take(handed.len() as int));
    assert(handed + after@.skip(before@.len() as int) =~= elems.take(out.written as int));
}

/// A push that goes on when a reader has copied a part of its slice counts no more
/// elements than the slice has, and appends only those behind the copied ones.
pub proof fn law_resumed_count<T>(
    before: RingBuffer<T>,
    after: RingBuffer<T>,
    elems: Seq<T>,
    total: Option<usize>,
)
    requires
        before.inv(),
        slice_resumed(before, after, elems, total),
    ensures
        total is Some <==> before.saved() is Copied,
        total is Some ==> total->0 <= elems.len(),
        total is Some && before.saved()->Copied_0 <= elems.len() ==> elems.take(
            before.saved()->Copied_0 as int,
        ) + after@.skip(before@.len() as int) == elems.take(total->0 as int),
{
    if total is Some && before.saved()->Copied_0 <= elems.len() {
        assert(elems.take(before.saved()->Copied_0 as int) + after@.skip(before@.len() as int)
            =~= elems.take(total->0 as int));
    }
}

/// Where no end leaves buffers for the other one, a push of a slice appends as
/// much of it as fits and never waits.
pub proof fn law_plain_slice<T>(
    before: RingBuffer<T>,
    after: RingBuffer<T>,
    elems: Seq<T>,
    out: PushSlice,
)
    requires
        before.inv(),
        slice_pushed(before, after, SleepCopy { reader: false, writer: false }, elems, out),
    ensures
        out.written == smaller(elems.len() as int, before.room()),
        after@ == before@ + elems.take(out.written as int),
        !out.waiting,
        !out.notify,
{
    assert(after@ =~= before@ + elems.take(out.written as int));
}

/// What a waiting thread finds at one check.
pub struct Check {
    /// Whether the condition is met.
    pub condition: bool,
    /// Whether to stay awake.
    pub no_sleep_condition: bool,
    /// What the cycle counter reads.
    pub now: u64,
}

/// The waiter after the checks.
pub open spec fn waiter_after(waiter: Waiter, checks: Seq<Check>) -> Waiter
    decreases checks.len(),
{
    if checks.len() == 0 {
        waiter
    } else {
        let before = waiter_after(waiter, checks.drop_last());
        let check = checks.last();
        let action = before.next_action(check.condition, check.no_sleep_condition, check.now);
        Waiter {
            start: before.start,
            cycles: before.cycles,
            sleeping: action is FallAsleep || action is Sleep,
        }
    }
}

/// By how much the checks have changed the count of sleeping threads.
pub open spec fn sleepers_change(waiter: Waiter, checks: Seq<Check>) -> int
    decreases checks.len(),
{
    if checks.len() == 0 {
        0
    } else {
        let before = waiter_after(waiter, checks.drop_last());
        let check = checks.last();
        let action = before.next_action(check.condition, check.no_sleep_condition, check.now);
        sleepers_change(waiter, checks.drop_last()) + if action is FallAsleep {
            1int
        } else if action is Return && before.sleeping {
            -1int
        } else {
            0int
        }
    }
}

/// A thread that begins to wait awake is counted as a sleeper exactly as long as
/// it sleeps. So when it returns, the count is what it was.
pub proof fn law_sleepers_balance(waiter: Waiter, checks: Seq<Check>)
    requires
        !waiter.sleeping,
    ensures
        sleepers_change(waiter, checks) == (if waiter_after(waiter, checks).sleeping {
            1int
        } else {
            0int
        }),
        checks.len() > 0 && checks.last().condition ==> sleepers_change(waiter, checks) == 0,
    decreases checks.len(),
{
    if checks.len() > 0 {
        law_sleepers_balance(waiter, checks.drop_last());
    }
}

/// A thread that is to stay awake at every check never sleeps, and nor does one
/// that has not spun for longer than it may.
pub proof fn law_stays_awake(waiter: Waiter, checks: Seq<Check>)
    requires
        !waiter.sleeping,
        forall|i: int|
            0 <= i < checks.len() ==> (#[trigger] checks[i]).no_sleep_condition || checks[i].now
                <= waiter.start + waiter.cycles,
    ensures
        !waiter_after(waiter, checks).sleeping,
        waiter_after(waiter, checks).start == waiter.start,
        waiter_after(waiter, checks).cycles == waiter.cycles,
    decreases checks.len(),
{
    if checks.len() > 0 {
        let fewer = checks.drop_last();
        assert forall|i: int| 0 <= i < fewer.len() implies (#[trigger] fewer[i]).no_sleep_condition
            || fewer[i].now <= waiter.start + waiter.cycles by {
            assert(fewer[i] == checks[i]);
        }
        law_stays_awake(waiter, fewer);
        assert(checks.last() == checks[checks.len() - 1]);
    }
}

/// A box that is made storage, and storage that is made a box, comes back as it
/// was.
pub proof fn law_heap_round_trip<T>(boxed: Box<[Option<T>]>, heap: Heap<T>)
    ensures
        <Box<[Option<T>]> as FromSpec<Heap<T>>>::from_spec(
            <Heap<T> as FromSpec<Box<[Option<T>]>>>::from_spec(boxed),
        ) == boxed,
        <Heap<T> as FromSpec<Box<[Option<T>]>>>::from_spec(
            <Box<[Option<T>]> as FromSpec<Heap<T>>>::from_spec(heap),
        ) == heap,
{
}

/// An array that is made storage comes back as it was.
pub proof fn law_array_round_trip<T, const N: usize>(array: [Option<T>; N])
    ensures
        <[Option<T>; N] as FromSpec<Owning<[Option<T>; N]>>>::from_spec(
            <Owning<[Option<T>; N]> as FromSpec<[Option<T>; N]>>::from_spec(array),
        ) == array,
{
}

} // verus!

use ringbuf::consumer::Consumer;
use ringbuf::producer::Producer;
use ringbuf::ring_buffer::RingBuffer;
use ringbuf::transfer::{move_items, move_items_within, SlicePtr};

/// A buffer with `turns` slots before the head that holds the items.
fn buffer(capacity: usize, turns: usize, items: &[u32]) -> RingBuffer<u32> {
    let mut rb = RingBuffer::new_at(capacity, 0);
    for _ in 0..turns {
        assert_eq!(Producer::new(&mut rb, 2).push(0), Ok(()));
        assert_eq!(Consumer::new(&mut rb).pop(), Some(0));
    }
    assert_eq!(Producer::new(&mut rb, 2).push_slice(items).written, items.len());
    rb
}

fn drain(rb: &mut RingBuffer<u32>) -> Vec<u32> {
    let mut items = Vec::new();
    let mut consumer = Consumer::new(rb);
    while let Some(item) = consumer.pop() {
        items.push(item);
    }
    items
}

#[test]
fn moves_keep_items_and_order() {
    for src_turns in 0..5 {
        for dst_turns in 0..4 {
            for limit in [None, Some(0), Some(2), Some(9)] {
                let mut src = buffer(4, src_turns, &[1, 2, 3, 4]);
                let mut dst = buffer(3, dst_turns, &[9]);
                let moved = move_items(
                    &mut Consumer::new(&mut src),
                    &mut Producer::new(&mut dst, 2),
                    limit,
                );
                assert_eq!(moved, limit.unwrap_or(2).min(2));
                let mut all = drain(&mut dst);
                assert_eq!(all.len(), 1 + moved);
                all.extend(drain(&mut src));
                assert_eq!(all, vec![9, 1, 2, 3, 4]);
            }
        }
    }
}

#[test]
fn a_move_stops_at_an_empty_source() {
    let mut src = buffer(4, 3, &[1, 2]);
    let mut dst = buffer(8, 6, &[]);
    let moved = Producer::new(&mut dst, 2).move_from(&mut Consumer::new(&mut src), Some(5));
    assert_eq!(moved, 2);
    assert!(src.is_empty());
    assert_eq!(drain(&mut dst), vec![1, 2]);
}

#[test]
fn a_move_into_a_full_buffer_moves_nothing() {
    let mut src = buffer(4, 0, &[1, 2]);
    let mut dst = buffer(2, 1, &[8, 9]);
    let moved = Producer::new(&mut dst, 2).move_from(&mut Consumer::new(&mut src), None);
    assert_eq!(moved, 0);
    assert_eq!(drain(&mut src), vec![1, 2]);
    assert_eq!(drain(&mut dst), vec![8, 9]);
}

#[test]
fn a_move_within_a_buffer_turns_it_round() {
    for turns in 0..7 {
        let mut rb = buffer(5, turns, &[1, 2, 3]);
        assert_eq!(move_items_within(&mut rb, None), 2);
        assert_eq!(drain(&mut rb), vec![3, 1, 2]);
        let mut rb = buffer(5, turns, &[1, 2, 3]);
        assert_eq!(move_items_within(&mut rb, Some(1)), 1);
        assert_eq!(drain(&mut rb), vec![2, 3, 1]);
    }
}

#[test]
fn a_move_of_all_items_within_a_buffer_changes_nothing() {
    let mut rb = buffer(6, 4, &[1, 2, 3]);
    assert_eq!(move_items_within(&mut rb, None), 3);
    assert_eq!(drain(&mut rb), vec![1, 2, 3]);
}

#[test]
fn a_full_buffer_cannot_be_turned_round() {
    let mut rb = buffer(3, 2, &[1, 2, 3]);
    assert_eq!(move_items_within(&mut rb, None), 0);
    assert_eq!(drain(&mut rb), vec![1, 2, 3]);
}

#[test]
fn runs_are_shifted() {
    let mut run = SlicePtr::new(3..8);
    run.shift(2);
    assert_eq!((run.start, run.len), (5, 3));
    let none = SlicePtr::null();
    assert_eq!((none.start, none.len), (0, 0));
}

#[test]
fn a_move_leaves_the_free_slots_where_they_are_due() {
    let mut src = RingBuffer::<u32>::new_global(4);
    let mut dst = RingBuffer::<u32>::new_global(2);
    for n in 1..4 {
        assert_eq!(Producer::new(&mut src, 2).push(n), Ok(()));
    }
    let moved =
        move_items(&mut Consumer::new(&mut src), &mut Producer::new(&mut dst, 2), None);
    assert_eq!(moved, 2);
    let mut sizes = (0, 0);
    let n = Producer::new(&mut src, 2).push_access(|left, right| {
        sizes = (left.len(), right.len());
        0
    });
    assert_eq!(n, 0);
    assert_eq!(sizes, (2, 1));
    let n = Producer::new(&mut dst, 2).push_access(|left, right| {
        sizes = (left.len(), right.len());
        0
    });
    assert_eq!(n, 0);
    assert_eq!(sizes, (0, 0));
}

use std::cell::RefCell;
use std::rc::Rc;

use ringbuf::consumer::Consumer;
use ringbuf::producer::Producer;
use ringbuf::ring_buffer::{advance, free_ranges, occupied_ranges, RingBuffer, SavedBuffer, SharedVec};

/// The lengths of the two runs of free slots.
fn free_runs<T>(rb: &mut RingBuffer<T>) -> (usize, usize) {
    let mut runs = (0, 0);
    Producer::new(rb, 2).push_access(|left, right| {
        runs = (left.len(), right.len());
        0
    });
    runs
}

fn drain(rb: &mut RingBuffer<u32>) -> Vec<u32> {
    let mut items = Vec::new();
    let mut consumer = Consumer::new(rb);
    while let Some(item) = consumer.pop() {
        items.push(item);
    }
    items
}

#[test]
fn a_new_buffer_is_empty() {
    let rb = RingBuffer::<u32>::new(5);
    assert_eq!(rb.capacity(), 5);
    assert!(rb.is_empty());
    assert!(!rb.is_full());
    assert_eq!(rb.len(), 0);
    assert_eq!(rb.remaining(), 5);
    assert_eq!(rb.num_sleepers(), 0);
    assert!(matches!(rb.saved_buf(), SavedBuffer::Empty));
}

#[test]
fn a_global_buffer_is_empty_too() {
    let rb = RingBuffer::<u32>::new_global(3);
    assert_eq!(rb.capacity(), 3);
    assert!(rb.is_empty());
}

#[test]
fn the_start_is_brought_below_the_capacity_and_to_a_cache_line() {
    // 1350 % 200 == 150, and 128 is the next multiple of 64 below it.
    let mut rb = RingBuffer::<u32>::new_at(200, 1350);
    assert_eq!(free_runs(&mut rb), (201 - 128, 127));
    let mut rb = RingBuffer::<u32>::new_at(200, 263);
    assert_eq!(free_runs(&mut rb), (200, 0));
    let mut rb = RingBuffer::<u32>::new_at(200, 264);
    assert_eq!(free_runs(&mut rb), (137, 63));
    let mut rb = RingBuffer::<u32>::new_at(1, usize::MAX);
    assert_eq!(free_runs(&mut rb), (1, 0));
}

#[test]
fn a_random_start_lies_on_a_cache_line() {
    for _ in 0..50 {
        let mut rb = RingBuffer::<u32>::new(1000);
        let (left, right) = free_runs(&mut rb);
        assert_eq!(left + right, 1000);
        let start = if right == 0 { 1000 - left } else { 1001 - left };
        assert_eq!(start % 64, 0);
        assert!(start < 1000);
    }
}

#[test]
fn random_starts_differ() {
    let mut seen = Vec::new();
    for _ in 0..200 {
        let runs = free_runs(&mut RingBuffer::<u32>::new(10_000));
        if !seen.contains(&runs) {
            seen.push(runs);
        }
    }
    assert!(seen.len() > 1);
}

#[test]
fn length_and_room_make_up_the_capacity() {
    let mut rb = RingBuffer::<u32>::new_at(3, 0);
    for n in 0..10u32 {
        let pushed = Producer::new(&mut rb, 2).push(n).is_ok();
        assert_eq!(pushed, n < 3);
        assert_eq!(rb.len() + rb.remaining(), rb.capacity());
        assert_eq!(rb.is_full(), rb.len() == 3);
        assert!(!rb.is_empty());
    }
}

#[test]
fn the_length_is_right_past_the_last_slot() {
    let mut rb = RingBuffer::<u32>::new_at(3, 0);
    for n in 0..20u32 {
        assert_eq!(Producer::new(&mut rb, 2).push(n), Ok(()));
        assert_eq!(Producer::new(&mut rb, 2).push(n + 100), Ok(()));
        assert_eq!(rb.len(), 2);
        assert_eq!(Consumer::new(&mut rb).pop(), Some(n));
        assert_eq!(Consumer::new(&mut rb).pop(), Some(n + 100));
        assert_eq!(Consumer::new(&mut rb).pop(), None);
        assert_eq!(rb.len(), 0);
    }
}

#[test]
fn first_in_first_out() {
    let mut rb = RingBuffer::<u32>::new_at(4, 0);
    let mut put_in = Vec::new();
    let mut taken_out = Vec::new();
    for n in 0..100u32 {
        if n % 3 == 2 {
            if let Some(item) = Consumer::new(&mut rb).pop() {
                taken_out.push(item);
            }
        } else if Producer::new(&mut rb, 2).push(n).is_ok() {
            put_in.push(n);
        }
        assert!(rb.len() <= 4);
    }
    taken_out.extend(drain(&mut rb));
    assert_eq!(taken_out, put_in);
}

#[test]
fn free_slots_are_a_run_from_the_tail_and_one_from_slot_zero() {
    assert_eq!(free_ranges(3, 5, 8), (5..8, 0..2));
    assert_eq!(free_ranges(1, 5, 8), (5..8, 0..0));
    assert_eq!(free_ranges(0, 5, 8), (5..7, 0..0));
    assert_eq!(free_ranges(0, 7, 8), (0..0, 0..0));
    assert_eq!(free_ranges(5, 2, 8), (2..4, 0..0));
    assert_eq!(free_ranges(5, 4, 8), (0..0, 0..0));
    assert_eq!(free_ranges(0, 0, 2), (0..1, 0..0));
    assert_eq!(free_ranges(4, 4, 8), (4..8, 0..3));
}

#[test]
fn occupied_slots_are_a_run_from_the_head_and_one_from_slot_zero() {
    assert_eq!(occupied_ranges(3, 5, 8), (3..5, 0..0));
    assert_eq!(occupied_ranges(5, 2, 8), (5..8, 0..2));
    assert_eq!(occupied_ranges(5, 0, 8), (5..8, 0..0));
    assert_eq!(occupied_ranges(4, 4, 8), (4..4, 0..0));
}

#[test]
fn the_ends_stay_apart() {
    for len in 2..7usize {
        for head in 0..len {
            for tail in 0..len {
                let free = free_ranges(head, tail, len);
                let occupied = occupied_ranges(head, tail, len);
                for i in 0..len {
                    let is_free = free.0.contains(&i) || free.1.contains(&i);
                    let is_occupied = occupied.0.contains(&i) || occupied.1.contains(&i);
                    assert!(!(is_free && is_occupied));
                    assert_eq!(!is_free && !is_occupied, (i + 1) % len == head);
                }
            }
        }
    }
}

#[test]
fn advance_wraps() {
    assert_eq!(advance(3, 2, 8), 5);
    assert_eq!(advance(6, 2, 8), 0);
    assert_eq!(advance(6, 5, 8), 3);
    assert_eq!(advance(7, 8, 8), 7);
    assert_eq!(advance(usize::MAX - 1, 3, usize::MAX), 2);
}

#[test]
fn every_item_is_dropped_once() {
    let item = Rc::new(());
    let mut rb = RingBuffer::<Rc<()>>::new_at(3, 0);
    for _ in 0..2 {
        assert!(Producer::new(&mut rb, 2).push(item.clone()).is_ok());
    }
    assert!(Consumer::new(&mut rb).pop().is_some());
    for _ in 0..2 {
        assert!(Producer::new(&mut rb, 2).push(item.clone()).is_ok());
    }
    assert_eq!(Rc::strong_count(&item), 4);
    drop(rb);
    assert_eq!(Rc::strong_count(&item), 1);
}

/// Writes its number down when it is dropped.
struct Logged(u32, Rc<RefCell<Vec<u32>>>);

impl Drop for Logged {
    fn drop(&mut self) {
        self.1.borrow_mut().push(self.0);
    }
}

/// The order in which a buffer with a given capacity drops `count` items, when
/// `taken` items have gone through it before.
fn drop_order(capacity: usize, taken: u32, count: u32) -> Vec<u32> {
    let log = Rc::new(RefCell::new(Vec::new()));
    let mut rb = RingBuffer::new_at(capacity, 0);
    for i in 0..taken {
        assert!(Producer::new(&mut rb, 2).push(Logged(i, log.clone())).is_ok());
        assert!(Consumer::new(&mut rb).pop().is_some());
    }
    for i in 0..count {
        assert!(Producer::new(&mut rb, 2).push(Logged(i, log.clone())).is_ok());
    }
    log.borrow_mut().clear();
    drop(rb);
    let order = log.borrow().clone();
    order
}

#[test]
fn items_are_dropped_oldest_first() {
    assert_eq!(drop_order(3, 0, 0), []);
    assert_eq!(drop_order(3, 0, 2), [0, 1]);
    assert_eq!(drop_order(3, 1, 3), [0, 1, 2]);
    assert_eq!(drop_order(3, 2, 3), [0, 1, 2]);
    assert_eq!(drop_order(3, 3, 3), [0, 1, 2]);
    assert_eq!(drop_order(4, 3, 4), [0, 1, 2, 3]);
}

#[test]
fn saved_buffers_and_sleepers_are_kept() {
    let mut rb = RingBuffer::<u32>::new(2);
    assert!(matches!(rb.replace_saved(SavedBuffer::Writer(vec![7])), SavedBuffer::Empty));
    *rb.num_sleepers_mut() = 3;
    assert_eq!(rb.num_sleepers(), 3);
    match rb.replace_saved(SavedBuffer::Empty) {
        SavedBuffer::Writer(items) => assert_eq!(items, vec![7]),
        _ => panic!(),
    }
}

#[test]
fn a_shared_vec_hands_out_its_vector() {
    let mut shared = SharedVec::new(vec![1, 2]);
    shared.get_mut().push(3);
    assert_eq!(shared.get_ref(), &vec![1, 2, 3]);
}

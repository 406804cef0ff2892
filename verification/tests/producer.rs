use ringbuf::byte_io::{ReadFromError, WriteAction};
use ringbuf::consumer::Consumer;
use ringbuf::producer::Producer;
use ringbuf::ring_buffer::{RingBuffer, SavedBuffer};

fn drain<T>(rb: &mut RingBuffer<T>) -> Vec<T> {
    let mut items = Vec::new();
    let mut consumer = Consumer::new(rb);
    while let Some(item) = consumer.pop() {
        items.push(item);
    }
    items
}

/// A buffer of capacity three whose tail is at the last slot.
fn near_the_end() -> RingBuffer<u8> {
    let mut rb = RingBuffer::new_at(3, 0);
    for _ in 0..3 {
        assert_eq!(Producer::new(&mut rb, 2).push(0), Ok(()));
        assert_eq!(Consumer::new(&mut rb).pop(), Some(0));
    }
    rb
}

#[test]
fn the_producer_tells_about_the_buffer() {
    let mut rb = RingBuffer::<u8>::new(2);
    let mut producer = Producer::new(&mut rb, 2);
    assert_eq!(producer.capacity(), 2);
    assert!(producer.is_empty());
    assert_eq!(producer.push(1), Ok(()));
    assert_eq!(producer.len(), 1);
    assert_eq!(producer.remaining(), 1);
    assert!(!producer.is_full());
    assert_eq!(producer.push(2), Ok(()));
    assert!(producer.is_full());
}

#[test]
fn a_consumer_is_alive_while_two_ends_hold_the_buffer() {
    let mut rb = RingBuffer::<u8>::new(2);
    assert!(Producer::new(&mut rb, 2).is_consumer_alive());
    assert!(!Producer::new(&mut rb, 1).is_consumer_alive());
}

#[test]
fn a_full_buffer_gives_the_element_back() {
    let mut rb = near_the_end();
    let mut producer = Producer::new(&mut rb, 2);
    assert_eq!(producer.push(1), Ok(()));
    assert_eq!(producer.push(2), Ok(()));
    assert_eq!(producer.push(3), Ok(()));
    assert_eq!(producer.push(4), Err(4));
    assert_eq!(drain(&mut rb), vec![1, 2, 3]);
}

#[test]
fn push_access_hands_out_the_free_slots() {
    let mut rb = near_the_end();
    let n = Producer::new(&mut rb, 2).push_access(|left, right| {
        assert_eq!((left.len(), right.len()), (1, 2));
        left[0] = Some(7);
        right[0] = Some(8);
        2
    });
    assert_eq!(n, 2);
    assert_eq!(drain(&mut rb), vec![7, 8]);
}

#[test]
fn push_access_calls_even_where_the_buffer_is_full() {
    let mut rb = RingBuffer::<u8>::new(1);
    assert_eq!(Producer::new(&mut rb, 2).push(1), Ok(()));
    let mut called = false;
    let n = Producer::new(&mut rb, 2).push_access(|left, right| {
        called = left.is_empty() && right.is_empty();
        0
    });
    assert_eq!(n, 0);
    assert!(called);
}

#[test]
fn pop_access_hands_out_the_items_oldest_first() {
    let mut rb = near_the_end();
    assert_eq!(Producer::new(&mut rb, 2).push_slice(&[1, 2, 3]).written, 3);
    let n = Consumer::new(&mut rb).pop_access(|left, right| {
        assert_eq!(left, &[Some(1)]);
        assert_eq!(right, &[Some(2), Some(3)]);
        left[0].take();
        right[0].take();
        2
    });
    assert_eq!(n, 2);
    assert_eq!(drain(&mut rb), vec![3]);
}

#[test]
fn push_copy_takes_what_fits() {
    let mut rb = near_the_end();
    let mut elems = vec![Some(1), Some(2), Some(3), Some(4)];
    assert_eq!(Producer::new(&mut rb, 2).push_copy(&mut elems), 3);
    assert_eq!(elems, vec![None, None, None, Some(4)]);
    assert_eq!(drain(&mut rb), vec![1, 2, 3]);
    let mut elems = vec![Some(5)];
    assert_eq!(Producer::new(&mut rb, 2).push_copy(&mut elems), 1);
    assert_eq!(elems, vec![None]);
    assert_eq!(Producer::new(&mut rb, 2).push_copy(&mut []), 0);
    assert_eq!(drain(&mut rb), vec![5]);
}

#[test]
fn push_each_stops_at_none() {
    let mut rb = near_the_end();
    let mut left = 2;
    let n = Producer::new(&mut rb, 2).push_each(|| {
        if left == 0 {
            None
        } else {
            left -= 1;
            Some(left)
        }
    });
    assert_eq!(n, 2);
    assert_eq!(drain(&mut rb), vec![1, 0]);
}

#[test]
fn push_each_does_not_call_for_what_cannot_fit() {
    let mut rb = near_the_end();
    let mut calls = 0;
    let n = Producer::new(&mut rb, 2).push_each(|| {
        calls += 1;
        Some(calls)
    });
    assert_eq!(n, 3);
    assert_eq!(calls, 3);
    assert_eq!(drain(&mut rb), vec![1, 2, 3]);
}

#[test]
fn push_iter_leaves_the_rest_in_the_iterator() {
    let mut rb = near_the_end();
    let mut elems = vec![1u8, 2, 3, 4, 5].into_iter();
    assert_eq!(Producer::new(&mut rb, 2).push_iter(&mut elems), 3);
    assert_eq!(elems.collect::<Vec<u8>>(), vec![4, 5]);
    assert_eq!(drain(&mut rb), vec![1, 2, 3]);
    let mut elems = vec![6u8].into_iter();
    assert_eq!(Producer::new(&mut rb, 2).push_iter(&mut elems), 1);
    assert_eq!(drain(&mut rb), vec![6]);
}

#[test]
fn a_slice_is_pushed_like_its_elements() {
    for count in 0..6u8 {
        let elems: Vec<u8> = (0..count).collect();
        let mut whole = near_the_end();
        let out = Producer::new(&mut whole, 2).push_slice(&elems);
        let mut single = near_the_end();
        let mut written = 0;
        for elem in elems.iter() {
            if Producer::new(&mut single, 2).push(*elem).is_ok() {
                written += 1;
            }
        }
        assert_eq!(out.written, written);
        assert!(!out.notify);
        assert!(!out.waiting);
        assert_eq!(drain(&mut whole), drain(&mut single));
    }
}

#[test]
fn a_sleeping_reader_gets_the_whole_slice() {
    let mut rb = RingBuffer::<u8>::new(4);
    rb.replace_saved(SavedBuffer::Reader(vec![0; 3]));
    *rb.num_sleepers_mut() = 1;
    let mut producer = Producer::new(&mut rb, 2);
    producer.sleep_copy.reader = true;
    let out = producer.push_slice(&[1, 2]);
    assert_eq!((out.written, out.notify, out.waiting), (2, true, false));
    assert!(rb.is_empty());
    match rb.replace_saved(SavedBuffer::Empty) {
        SavedBuffer::Copied(n, buf) => assert_eq!((n, buf), (2, vec![1, 2, 0])),
        _ => panic!(),
    }
}

#[test]
fn what_a_reader_cannot_take_of_a_slice_is_appended() {
    let mut rb = RingBuffer::<u8>::new(4);
    rb.replace_saved(SavedBuffer::Reader(vec![0; 2]));
    let mut producer = Producer::new(&mut rb, 2);
    producer.sleep_copy.reader = true;
    producer.sleep_copy.writer = true;
    let out = producer.push_slice(&[1, 2, 3]);
    assert_eq!((out.written, out.notify, out.waiting), (3, false, false));
    match rb.replace_saved(SavedBuffer::Empty) {
        SavedBuffer::Copied(n, buf) => assert_eq!((n, buf), (2, vec![1, 2])),
        _ => panic!(),
    }
    assert_eq!(drain(&mut rb), vec![3]);
}

#[test]
fn no_element_is_delivered_twice() {
    for taken in 0..6usize {
        for capacity in 1..6usize {
            let elems = [1u8, 2, 3, 4];
            let mut rb = RingBuffer::<u8>::new(capacity);
            rb.replace_saved(SavedBuffer::Reader(vec![0; taken]));
            let mut producer = Producer::new(&mut rb, 2);
            producer.sleep_copy.reader = true;
            let out = producer.push_slice(&elems);
            assert!(out.written <= elems.len());
            let mut delivered = match rb.replace_saved(SavedBuffer::Empty) {
                SavedBuffer::Copied(n, buf) => buf[..n].to_vec(),
                _ => panic!(),
            };
            delivered.extend(drain(&mut rb));
            assert_eq!(delivered, elems[..out.written].to_vec());
            assert_eq!(out.written, (taken + capacity).min(4));
        }
    }
}

#[test]
fn a_write_never_counts_more_bytes_than_it_was_given() {
    let mut rb = RingBuffer::<u8>::new(4);
    rb.replace_saved(SavedBuffer::Reader(vec![0]));
    let mut producer = Producer::new(&mut rb, 2);
    producer.sleep_copy.reader = true;
    assert!(matches!(producer.write(&[1, 2]).action, WriteAction::Done(2)));
    assert_eq!(drain(&mut rb), vec![2]);
}

#[test]
fn a_reader_is_left_alone_where_readers_do_not_leave_buffers() {
    let mut rb = RingBuffer::<u8>::new(4);
    rb.replace_saved(SavedBuffer::Reader(vec![0; 2]));
    let out = Producer::new(&mut rb, 2).push_slice(&[1, 2, 3]);
    assert_eq!((out.written, out.notify, out.waiting), (3, false, false));
    assert!(matches!(rb.saved_buf(), SavedBuffer::Reader(_)));
}

#[test]
fn a_slice_that_was_left_goes_on_when_a_reader_has_come_by() {
    let mut rb = RingBuffer::<u8>::new(2);
    let mut producer = Producer::new(&mut rb, 2);
    producer.sleep_copy.writer = true;
    let out = producer.push_slice(&[1, 2, 3]);
    assert_eq!((out.written, out.notify, out.waiting), (0, false, true));
    assert_eq!(producer.push_slice_resume(&[1, 2, 3]), None);
    match rb.replace_saved(SavedBuffer::Copied(3, vec![1, 2, 3])) {
        SavedBuffer::Writer(left) => assert_eq!(left, vec![1, 2, 3]),
        _ => panic!(),
    }
    assert_eq!(Producer::new(&mut rb, 2).push_slice_resume(&[1, 2, 3]), Some(3));
    assert!(matches!(rb.saved_buf(), SavedBuffer::Empty));
    assert!(rb.is_empty());
    rb.replace_saved(SavedBuffer::Copied(1, vec![1]));
    assert_eq!(Producer::new(&mut rb, 2).push_slice_resume(&[1, 2, 3]), Some(3));
    assert!(matches!(rb.saved_buf(), SavedBuffer::Empty));
    assert_eq!(drain(&mut rb), vec![2, 3]);
    rb.replace_saved(SavedBuffer::Copied(1, vec![1]));
    assert_eq!(Producer::new(&mut rb, 2).push_slice_resume(&[1, 2, 3, 4]), Some(3));
    assert_eq!(drain(&mut rb), vec![2, 3]);
    rb.replace_saved(SavedBuffer::Copied(5, vec![1]));
    assert_eq!(Producer::new(&mut rb, 2).push_slice_resume(&[1, 2, 3]), Some(3));
    assert!(rb.is_empty());
}

#[test]
fn a_read_window_is_what_is_free_in_a_row() {
    let mut rb = near_the_end();
    let producer = Producer::new(&mut rb, 2);
    assert_eq!(producer.read_window(None), 1);
    assert_eq!(producer.read_window(Some(5)), 1);
    assert_eq!(producer.read_window(Some(0)), 0);
    let mut rb = RingBuffer::<u8>::new_at(5, 0);
    let mut producer = Producer::new(&mut rb, 2);
    assert_eq!(producer.read_window(None), 5);
    assert_eq!(producer.read_window(Some(3)), 3);
    assert_eq!(producer.push_slice(&[0; 5]).written, 5);
    assert_eq!(producer.read_window(None), 0);
}

#[test]
fn a_read_appends_what_it_delivered() {
    let mut rb = RingBuffer::<u8>::new_at(5, 0);
    let mut producer = Producer::new(&mut rb, 2);
    let result = producer.read_from::<()>(&[7, 8, 9], Ok(2));
    assert!(matches!(result, Ok(2)));
    let result = producer.read_from::<()>(&[0, 0, 0], Ok(0));
    assert!(matches!(result, Ok(0)));
    assert_eq!(drain(&mut rb), vec![7, 8]);
}

#[test]
fn a_read_that_claims_too_much_is_refused() {
    let mut rb = RingBuffer::<u8>::new_at(5, 0);
    let result = Producer::new(&mut rb, 2).read_from::<()>(&[7, 8, 9], Ok(4));
    assert!(matches!(result, Err(ReadFromError::InvalidNumber)));
    assert!(rb.is_empty());
}

#[test]
fn a_read_that_failed_hands_on_its_error() {
    let mut rb = RingBuffer::<u8>::new_at(5, 0);
    let result = Producer::new(&mut rb, 2).read_from(&[7, 8, 9], Err("broken"));
    assert!(matches!(result, Err(ReadFromError::Failed("broken"))));
    assert!(rb.is_empty());
}

#[test]
fn a_write_is_done_tried_again_or_refused() {
    let mut rb = RingBuffer::<u8>::new(2);
    let mut producer = Producer::new(&mut rb, 2);
    let step = producer.write(&[1, 2, 3]);
    assert!(!step.notify);
    assert!(matches!(step.action, WriteAction::Done(2)));
    assert!(matches!(producer.write(&[3]).action, WriteAction::Retry));
    producer.set_nonblocking();
    assert!(matches!(producer.write(&[3]).action, WriteAction::WouldBlock));
    let mut producer = Producer::new(&mut rb, 1);
    assert!(matches!(producer.write(&[3]).action, WriteAction::Done(0)));
    assert_eq!(drain(&mut rb), vec![1, 2]);
}

#[test]
fn a_write_waits_where_its_bytes_were_left() {
    let mut rb = RingBuffer::<u8>::new(2);
    let mut producer = Producer::new(&mut rb, 2);
    producer.sleep_copy.writer = true;
    assert!(matches!(producer.write(&[1]).action, WriteAction::Wait));
    assert!(matches!(producer.write_resume(&[1]), WriteAction::Wait));
    rb.replace_saved(SavedBuffer::Copied(1, vec![1]));
    assert!(matches!(Producer::new(&mut rb, 2).write_resume(&[1]), WriteAction::Done(1)));
    assert!(rb.is_empty());
}

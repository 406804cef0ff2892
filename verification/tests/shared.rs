use std::rc::Rc;

use ringbuf::byte_io::WriteAction;
use ringbuf::ring_buffer::{RingBuffer, SavedBuffer, SleepCopy};

#[test]
fn the_ends_share_one_buffer() {
    let (producer_end, consumer_end) = RingBuffer::<u32>::new(2).split();
    let (mut rb, handle) = producer_end.acquire();
    let mut producer = producer_end.producer(&mut rb);
    assert!(!producer.nonblocking);
    assert_eq!(producer.ends, 2);
    assert_eq!(producer.push(1), Ok(()));
    assert_eq!(producer.push(2), Ok(()));
    assert_eq!(producer.push(3), Err(3));
    handle.release_write(rb);
    let (mut rb, handle) = consumer_end.acquire();
    let mut consumer = consumer_end.consumer(&mut rb);
    assert!(!consumer.nonblocking);
    assert_eq!(consumer.pop(), Some(1));
    handle.release_write(rb);
    let (rb, handle) = producer_end.acquire();
    assert_eq!(rb.len(), 1);
    assert_eq!(rb.capacity(), 2);
    handle.release_write(rb);
}

#[test]
fn a_split_buffer_keeps_its_items() {
    let mut rb = RingBuffer::<u32>::new(3);
    assert_eq!(ringbuf::producer::Producer::new(&mut rb, 1).push_slice(&[4, 5]).written, 2);
    let (_producer_end, consumer_end) = rb.split();
    let (mut rb, handle) = consumer_end.acquire();
    assert_eq!(consumer_end.consumer(&mut rb).pop(), Some(4));
    assert_eq!(consumer_end.consumer(&mut rb).pop(), Some(5));
    handle.release_write(rb);
}

#[test]
fn a_consumer_is_alive_until_it_is_dropped() {
    let (producer_end, consumer_end) = RingBuffer::<u32>::new(2).split();
    assert!(producer_end.is_consumer_alive());
    drop(consumer_end);
    assert!(!producer_end.is_consumer_alive());
    let (mut rb, handle) = producer_end.acquire();
    assert!(!producer_end.producer(&mut rb).is_consumer_alive());
    handle.release_write(rb);
}

#[test]
fn a_nonblocking_end_makes_nonblocking_producers() {
    let (mut producer_end, _consumer_end) = RingBuffer::<u32>::new(2).split();
    producer_end.set_nonblocking();
    let (mut rb, handle) = producer_end.acquire();
    assert!(producer_end.producer(&mut rb).nonblocking);
    handle.release_write(rb);
}

#[test]
fn the_ends_give_the_buffer_back() {
    let (mut producer_end, mut consumer_end) = RingBuffer::<u32>::new(2).split();
    assert_eq!(producer_end.capacity(), 2);
    assert!(producer_end.is_empty());
    assert!(!producer_end.is_full());
    assert_eq!(producer_end.len(), 0);
    assert_eq!(producer_end.remaining(), 2);
    assert_eq!(consumer_end.pop(), None);
    assert_eq!(producer_end.push(1), Ok(()));
    assert!(!producer_end.is_empty());
    assert_eq!(producer_end.len(), 1);
    assert_eq!(producer_end.remaining(), 1);
    assert_eq!(producer_end.push(2), Ok(()));
    assert!(producer_end.is_full());
    assert_eq!(producer_end.push(3), Err(3));
    assert_eq!(consumer_end.pop(), Some(1));
    assert_eq!(consumer_end.pop(), Some(2));
    assert_eq!(consumer_end.pop(), None);
    assert_eq!(producer_end.capacity(), 2);
}

#[test]
fn an_end_pushes_slices() {
    let (mut producer_end, mut consumer_end) = RingBuffer::<u32>::new(3).split();
    let out = producer_end.push_slice(&[1, 2]);
    assert_eq!((out.written, out.notify, out.waiting), (2, false, false));
    let out = producer_end.push_slice(&[3, 4]);
    assert_eq!((out.written, out.notify, out.waiting), (1, false, false));
    assert_eq!(producer_end.push_slice_resume(&[4]), None);
    assert_eq!(consumer_end.pop(), Some(1));
    assert_eq!(consumer_end.pop(), Some(2));
    assert_eq!(consumer_end.pop(), Some(3));
    assert_eq!(consumer_end.pop(), None);
}

#[test]
fn an_end_leaves_a_slice_for_a_reader() {
    let (mut producer_end, mut consumer_end) = RingBuffer::<u32>::new(3).split();
    producer_end.set_sleep_copy(SleepCopy { reader: false, writer: true });
    let out = producer_end.push_slice(&[1, 2, 3]);
    assert_eq!((out.written, out.notify, out.waiting), (0, false, true));
    assert_eq!(producer_end.push_slice_resume(&[1, 2, 3]), None);
    let (mut rb, handle) = consumer_end.acquire();
    match rb.replace_saved(SavedBuffer::Empty) {
        SavedBuffer::Writer(left) => {
            assert_eq!(left, [1, 2, 3]);
            rb.replace_saved(SavedBuffer::Copied(2, left));
        }
        _ => panic!("no slice was left"),
    }
    handle.release_write(rb);
    assert_eq!(producer_end.push_slice_resume(&[1, 2, 3]), Some(3));
    assert_eq!(consumer_end.pop(), Some(3));
    assert_eq!(consumer_end.pop(), None);
}

#[test]
fn an_end_is_written_to() {
    let (mut producer_end, mut consumer_end) = RingBuffer::<u8>::new(2).split();
    assert!(matches!(producer_end.write(&[1, 2, 3]).action, WriteAction::Done(2)));
    assert!(matches!(producer_end.write(&[3]).action, WriteAction::Retry));
    producer_end.set_nonblocking();
    assert!(matches!(producer_end.write(&[3]).action, WriteAction::WouldBlock));
    assert!(matches!(producer_end.write_resume(&[3]), WriteAction::Wait));
    assert_eq!(consumer_end.pop(), Some(1));
    let (mut rb, handle) = consumer_end.acquire();
    rb.replace_saved(SavedBuffer::Copied(0, vec![]));
    handle.release_write(rb);
    assert!(matches!(producer_end.write_resume(&[3]), WriteAction::Done(1)));
    assert!(consumer_end.close().is_none());
    assert!(matches!(producer_end.write(&[4]).action, WriteAction::Done(0)));
}

#[test]
fn the_last_end_to_close_gets_the_buffer() {
    let item = Rc::new(());
    let (mut producer_end, mut consumer_end) = RingBuffer::<Rc<()>>::new(3).split();
    for _ in 0..3 {
        assert!(producer_end.push(item.clone()).is_ok());
    }
    assert_eq!(consumer_end.pop(), Some(item.clone()));
    assert!(producer_end.close().is_none());
    assert_eq!(Rc::strong_count(&item), 3);
    let rb = consumer_end.close().unwrap();
    assert_eq!(rb.len(), 2);
    drop(rb);
    assert_eq!(Rc::strong_count(&item), 1);
    let (producer_end, consumer_end) = RingBuffer::<u32>::new(3).split();
    drop(consumer_end);
    assert_eq!(producer_end.close().unwrap().capacity(), 3);
}

//! The two ends of a ring buffer that threads share.

use std::marker::PhantomData;
use std::sync::Arc;
use vstd::prelude::*;
use vstd::rwlock::{RwLock, RwLockPredicate, WriteHandle};
use crate::byte_io::{bytes_pushed, bytes_resumed, WriteAction, WriteStep};
use crate::consumer::Consumer;
use crate::gate::{passed, Entrance, Gate};
use crate::producer::Producer;
use crate::ring_buffer::{after_pop, after_push, RingBuffer, SleepCopy};
use crate::slices::{slice_pushed, slice_resumed, PushSlice};

verus! {

/// What holds of a shared ring buffer whenever no end is at work on it: it is well
/// formed, and its capacity is the one that it was made with.
pub ghost struct SharedInv {
    /// The capacity.
    pub capacity: int,
}

impl<T> RwLockPredicate<RingBuffer<T>> for SharedInv {
    open spec fn inv(self, rb: RingBuffer<T>) -> bool {
        rb.inv() && rb.spec_capacity() == self.capacity
    }
}

/// An end has taken the ring buffer `before` from the lock, and has given `after` back
/// to the same lock. What it finds there is up to what both ends have done until then.
pub open spec fn visited<T>(
    lock: RwLock<RingBuffer<T>, SharedInv>,
    before: RingBuffer<T>,
    after: RingBuffer<T>,
) -> bool {
    passed(lock, before, after)
}

/// The producer's share of a ring buffer. It is given up with [`ProducerEnd::close`].
///
/// What the end does, it does through any way to the ring buffer that records every turn,
/// and it knows no other: so no operation can take the ring buffer twice, or change it
/// unseen.
pub struct ProducerEnd<T, D = Gate<RingBuffer<T>, SharedInv>> {
    door: D,
    nonblocking: bool,
    sleep_copy: SleepCopy,
    items: PhantomData<T>,
}

/// The consumer's share of a ring buffer. It is given up with [`ConsumerEnd::close`].
///
/// As with [`ProducerEnd`], every turn of it is recorded.
pub struct ConsumerEnd<T, D = Gate<RingBuffer<T>, SharedInv>> {
    door: D,
    nonblocking: bool,
    items: PhantomData<T>,
}

impl<T, D: Entrance<RingBuffer<T>, SharedInv>> ProducerEnd<T, D> {
    /// The lock that the ring buffer is kept under.
    pub open spec fn lock(&self) -> RwLock<RingBuffer<T>, SharedInv> {
        *self.share()
    }

    /// This end's share of the lock.
    pub closed spec fn share(&self) -> Arc<RwLock<RingBuffer<T>, SharedInv>> {
        self.door.share()
    }

    /// The ring buffer as this end has found it in each of its turns, in their order.
    pub closed spec fn found(&self) -> Seq<RingBuffer<T>> {
        self.door.found()
    }

    /// Whether a write to a full buffer fails instead of waiting.
    pub closed spec fn is_nonblocking(&self) -> bool {
        self.nonblocking
    }

    /// Which ends may leave their buffers for the other one and sleep.
    pub closed spec fn leaves_buffers(&self) -> SleepCopy {
        self.sleep_copy
    }

    /// `Arc::strong_count`, asked of this end's own share of the ring buffer, may
    /// answer with `ends`. Which answer it gives is up to what other threads clone
    /// and drop meanwhile.
    pub closed spec fn may_count(&self, ends: usize) -> bool {
        self.door.may_count(ends)
    }

    /// Everything but the record of turns is as in the other end.
    pub open spec fn same_but_found(&self, other: &Self) -> bool {
        &&& self.share() == other.share()
        &&& self.is_nonblocking() == other.is_nonblocking()
        &&& self.leaves_buffers() == other.leaves_buffers()
        &&& forall|ends: usize| #[trigger] self.may_count(ends) <==> other.may_count(ends)
        &&& forall|inner: Option<RwLock<RingBuffer<T>, SharedInv>>| #[trigger]
            self.may_be_last(inner) <==> other.may_be_last(inner)
    }

    /// Returns capacity of the ring buffer.
    ///
    /// The capacity of the buffer is constant.
    pub fn capacity(&self) -> (capacity: usize)
        ensures
            capacity == self.lock().pred().capacity,
    {
        self.door.look(RingBuffer::<T>::capacity)
    }

    /// Checks if the ring buffer is empty.
    ///
    /// The result is relevant until you push items to the producer.
    pub fn is_empty(&self) -> (empty: bool)
        ensures
            exists|rb: RingBuffer<T>| #[trigger]
                visited(self.lock(), rb, rb) && empty == (rb@.len() == 0),
    {
        let empty: bool = self.door.look(RingBuffer::<T>::is_empty);
        proof {
            let rb = choose|rb: RingBuffer<T>| #[trigger]
                passed(self.lock(), rb, rb) && call_ensures(
                    RingBuffer::<T>::is_empty,
                    (&rb,),
                    empty,
                );
            assert(visited(self.lock(), rb, rb));
        }
        empty
    }

    /// Checks if the ring buffer is full.
    ///
    /// *The result may become irrelevant at any time because of concurring activity of the consumer.*
    pub fn is_full(&self) -> (full: bool)
        ensures
            exists|rb: RingBuffer<T>| #[trigger]
                visited(self.lock(), rb, rb) && full == (rb@.len() == rb.spec_capacity()),
    {
        let full: bool = self.door.look(RingBuffer::<T>::is_full);
        proof {
            let rb = choose|rb: RingBuffer<T>| #[trigger]
                passed(self.lock(), rb, rb) && call_ensures(
                    RingBuffer::<T>::is_full,
                    (&rb,),
                    full,
                );
            assert(visited(self.lock(), rb, rb));
        }
        full
    }

    /// The length of the data stored in the buffer.
    ///
    /// Actual length may be equal to or less than the returned value.
    pub fn len(&self) -> (len: usize)
        ensures
            exists|rb: RingBuffer<T>| #[trigger]
                visited(self.lock(), rb, rb) && len == rb@.len(),
    {
        let len: usize = self.door.look(RingBuffer::<T>::len);
        proof {
            let rb = choose|rb: RingBuffer<T>| #[trigger]
                passed(self.lock(), rb, rb) && call_ensures(
                    RingBuffer::<T>::len,
                    (&rb,),
                    len,
                );
            assert(visited(self.lock(), rb, rb));
        }
        len
    }

    /// The remaining space in the buffer.
    ///
    /// Actual remaining space may be equal to or greater than the returned value.
    pub fn remaining(&self) -> (room: usize)
        ensures
            exists|rb: RingBuffer<T>| #[trigger]
                visited(self.lock(), rb, rb) && room == rb.spec_capacity() - rb@.len(),
    {
        let room: usize = self.door.look(RingBuffer::<T>::remaining);
        proof {
            let rb = choose|rb: RingBuffer<T>| #[trigger]
                passed(self.lock(), rb, rb) && call_ensures(
                    RingBuffer::<T>::remaining,
                    (&rb,),
                    room,
                );
            assert(visited(self.lock(), rb, rb));
        }
        room
    }

    /// Appends an element to the ring buffer.
    /// On failure returns an error containing the element that hasn't been appended.
    pub fn push(&mut self, elem: T) -> (result: Result<(), T>)
        ensures
            exists|before: RingBuffer<T>, after: RingBuffer<T>|
                {
                    &&& #[trigger] visited(old(self).lock(), before, after)
                    &&& final(self).found() == old(self).found().push(before)
                    &&& result == (if before@.len() < before.spec_capacity() {
                        Ok::<(), T>(())
                    } else {
                        Err(elem)
                    })
                    &&& after@ == after_push(before@, before.spec_capacity(), elem)
                    &&& after.same_setting(before)
                    &&& after.head_index() == before.head_index()
                },
            final(self).same_but_found(old(self)),
    {
        let ends: usize = self.door.count();
        let (mut rb, handle) = self.door.enter();
        let ghost before = rb;
        let result = outfit(&mut rb, ends, self.nonblocking, self.sleep_copy).push(elem);
        let ghost after = rb;
        handle.release_write(rb);
        assert(visited(old(self).lock(), before, after));
        result
    }

    /// The producer on the ring buffer that this end has taken, with the count of ends
    /// as it is now.
    pub fn producer<'a>(&self, rb: &'a mut RingBuffer<T>) -> (producer: Producer<'a, T>)
        ensures
            *producer.rb == *old(rb),
            *final(producer.rb) == *final(rb),
            producer.nonblocking == self.is_nonblocking(),
            self.may_count(producer.ends),
            producer.sleep_copy == self.leaves_buffers(),
    {
        outfit(rb, self.door.count(), self.nonblocking, self.sleep_copy)
    }

    /// Checks if the consumer end is still present: that is so where, by the count of
    /// this end's share, two ends or more hold the ring buffer. The consumer end may
    /// be dropped at any time, so it may be gone when the answer comes.
    pub fn is_consumer_alive(&self) -> (alive: bool)
        ensures
            exists|ends: usize| #[trigger] self.may_count(ends) && alive == (ends >= 2),
    {
        let ends: usize = self.door.count();
        assert(self.may_count(ends));
        ends >= 2
    }

    /// Makes a write to a full buffer fail instead of waiting.
    pub fn set_nonblocking(&mut self)
        ensures
            final(self).is_nonblocking(),
            final(self).lock() == old(self).lock(),
            final(self).leaves_buffers() == old(self).leaves_buffers(),
            final(self).found() == old(self).found(),
    {
        self.nonblocking = true;
    }

    /// Sets which ends may leave their buffers for the other one and sleep.
    pub fn set_sleep_copy(&mut self, sleep_copy: SleepCopy)
        ensures
            final(self).leaves_buffers() == sleep_copy,
            final(self).lock() == old(self).lock(),
            final(self).is_nonblocking() == old(self).is_nonblocking(),
            final(self).found() == old(self).found(),
    {
        self.sleep_copy = sleep_copy;
    }

    /// `Arc::into_inner`, given this end's share of the ring buffer, may answer with
    /// `inner`. Whether this is the last share is up to the other end.
    pub closed spec fn may_be_last(
        &self,
        inner: Option<RwLock<RingBuffer<T>, SharedInv>>,
    ) -> bool {
        self.door.may_be_last(inner)
    }

    /// Gives this end up. The last of the two ends to go gets the ring buffer, with the
    /// items that are left in it.
    ///
    /// The lock does not drop what it keeps. So where both ends are dropped without
    /// this call, the items that are left are not dropped.
    pub fn close(self) -> (rb: Option<RingBuffer<T>>)
        ensures
            exists|inner: Option<RwLock<RingBuffer<T>, SharedInv>>|
                {
                    &&& #[trigger] self.may_be_last(inner)
                    &&& rb is Some <==> inner is Some
                    &&& rb is Some ==> inner->Some_0 == self.lock() && call_ensures(
                        RwLock::<RingBuffer<T>, SharedInv>::into_inner,
                        (inner->Some_0,),
                        rb->Some_0,
                    )
                },
            rb is Some ==> self.lock().inv(rb->Some_0),
    {
        let rb = self.door.leave();
        assert forall|inner: Option<RwLock<RingBuffer<T>, SharedInv>>| #[trigger]
            self.door.may_be_last(inner) implies self.may_be_last(inner) by {}
        rb
    }
}

impl<T: Copy, D: Entrance<RingBuffer<T>, SharedInv>> ProducerEnd<T, D> {
    /// Appends elements from slice to the ring buffer.
    /// Elements should be [`Copy`](https://doc.rust-lang.org/std/marker/trait.Copy.html).
    ///
    /// This is [`Producer::push_slice`] on the shared ring buffer. Where the slice is
    /// left for a reader, the push goes on with [`ProducerEnd::push_slice_resume`].
    pub fn push_slice(&mut self, elems: &[T]) -> (out: PushSlice)
        ensures
            exists|before: RingBuffer<T>, after: RingBuffer<T>|
                {
                    &&& #[trigger] visited(old(self).lock(), before, after)
                    &&& final(self).found() == old(self).found().push(before)
                    &&& slice_pushed(before, after, old(self).leaves_buffers(), elems@, out)
                },
            final(self).same_but_found(old(self)),
    {
        let ends: usize = self.door.count();
        let (mut rb, handle) = self.door.enter();
        let ghost before = rb;
        let out = outfit(&mut rb, ends, self.nonblocking, self.sleep_copy).push_slice(elems);
        let ghost after = rb;
        handle.release_write(rb);
        assert(visited(old(self).lock(), before, after));
        out
    }

    /// Goes on with a push that has left its slice for a reader.
    ///
    /// Returns `None` as long as no reader has come by, and then the count of
    /// elements been copied by the reader or appended to the ring buffer.
    pub fn push_slice_resume(&mut self, elems: &[T]) -> (total: Option<usize>)
        ensures
            exists|before: RingBuffer<T>, after: RingBuffer<T>|
                {
                    &&& #[trigger] visited(old(self).lock(), before, after)
                    &&& final(self).found() == old(self).found().push(before)
                    &&& slice_resumed(before, after, elems@, total)
                },
            final(self).same_but_found(old(self)),
    {
        let ends: usize = self.door.count();
        let (mut rb, handle) = self.door.enter();
        let ghost before = rb;
        let total = outfit(&mut rb, ends, self.nonblocking, self.sleep_copy).push_slice_resume(elems);
        let ghost after = rb;
        handle.release_write(rb);
        assert(visited(old(self).lock(), before, after));
        total
    }
}

impl<D: Entrance<RingBuffer<u8>, SharedInv>> ProducerEnd<u8, D> {
    /// One pass of a write of the bytes in `buffer`.
    pub fn write(&mut self, buffer: &[u8]) -> (step: WriteStep)
        ensures
            exists|before: RingBuffer<u8>, after: RingBuffer<u8>, ends: usize|
                {
                    &&& #[trigger] visited(old(self).lock(), before, after)
                    &&& final(self).found() == old(self).found().push(before)
                    &&& #[trigger] old(self).may_count(ends)
                    &&& bytes_pushed(
                        before,
                        after,
                        old(self).leaves_buffers(),
                        ends >= 2,
                        old(self).is_nonblocking(),
                        buffer@,
                        step,
                    )
                },
            step.action is Done ==> step.action->Done_0 <= buffer@.len(),
            final(self).same_but_found(old(self)),
    {
        let ends: usize = self.door.count();
        let (mut rb, handle) = self.door.enter();
        let ghost before = rb;
        let mut producer = outfit(&mut rb, ends, self.nonblocking, self.sleep_copy);
        let step = producer.write(buffer);
        let ghost after = rb;
        handle.release_write(rb);
        assert(visited(old(self).lock(), before, after));
        assert(old(self).may_count(ends));
        step
    }

    /// Goes on with a write whose bytes have been left for a reader.
    pub fn write_resume(&mut self, buffer: &[u8]) -> (action: WriteAction)
        ensures
            exists|before: RingBuffer<u8>, after: RingBuffer<u8>, ends: usize|
                {
                    &&& #[trigger] visited(old(self).lock(), before, after)
                    &&& final(self).found() == old(self).found().push(before)
                    &&& #[trigger] old(self).may_count(ends)
                    &&& bytes_resumed(
                        before,
                        after,
                        ends >= 2,
                        old(self).is_nonblocking(),
                        buffer@,
                        action,
                    )
                },
            action is Done ==> action->Done_0 <= buffer@.len(),
            final(self).same_but_found(old(self)),
    {
        let ends: usize = self.door.count();
        let (mut rb, handle) = self.door.enter();
        let ghost before = rb;
        let mut producer = outfit(&mut rb, ends, self.nonblocking, self.sleep_copy);
        let action = producer.write_resume(buffer);
        let ghost after = rb;
        handle.release_write(rb);
        assert(visited(old(self).lock(), before, after));
        assert(old(self).may_count(ends));
        action
    }
}

impl<T, D: Entrance<RingBuffer<T>, SharedInv>> ConsumerEnd<T, D> {
    /// The lock that the ring buffer is kept under.
    pub open spec fn lock(&self) -> RwLock<RingBuffer<T>, SharedInv> {
        *self.share()
    }

    /// This end's share of the lock.
    pub closed spec fn share(&self) -> Arc<RwLock<RingBuffer<T>, SharedInv>> {
        self.door.share()
    }

    /// The ring buffer as this end has found it in each of its turns, in their order.
    pub closed spec fn found(&self) -> Seq<RingBuffer<T>> {
        self.door.found()
    }

    /// Whether a read from an empty buffer fails instead of waiting.
    pub closed spec fn is_nonblocking(&self) -> bool {
        self.nonblocking
    }

    /// Everything but the record of turns is as in the other end.
    pub open spec fn same_but_found(&self, other: &Self) -> bool {
        &&& self.share() == other.share()
        &&& self.is_nonblocking() == other.is_nonblocking()
        &&& forall|inner: Option<RwLock<RingBuffer<T>, SharedInv>>| #[trigger]
            self.may_be_last(inner) <==> other.may_be_last(inner)
    }

    /// The consumer on the ring buffer that this end has taken.
    pub fn consumer<'a>(&self, rb: &'a mut RingBuffer<T>) -> (consumer: Consumer<'a, T>)
        ensures
            *consumer.rb == *old(rb),
            *final(consumer.rb) == *final(rb),
            consumer.nonblocking == self.is_nonblocking(),
    {
        let mut consumer = Consumer::new(rb);
        consumer.nonblocking = self.nonblocking;
        consumer
    }

    /// Removes first item from the ring buffer and returns it, or `None` where there
    /// is none.
    pub fn pop(&mut self) -> (item: Option<T>)
        ensures
            exists|before: RingBuffer<T>, after: RingBuffer<T>|
                {
                    &&& #[trigger] visited(old(self).lock(), before, after)
                    &&& final(self).found() == old(self).found().push(before)
                    &&& item == (if before@.len() > 0 {
                        Some(before@[0])
                    } else {
                        None
                    })
                    &&& after@ == after_pop(before@)
                    &&& after.same_setting(before)
                    &&& after.tail_index() == before.tail_index()
                },
            final(self).same_but_found(old(self)),
    {
        let (mut rb, handle) = self.door.enter();
        let ghost before = rb;
        let item = Consumer::new(&mut rb).pop();
        let ghost after = rb;
        handle.release_write(rb);
        assert(visited(old(self).lock(), before, after));
        item
    }

    /// `Arc::into_inner`, given this end's share of the ring buffer, may answer with
    /// `inner`. Whether this is the last share is up to the other end.
    pub closed spec fn may_be_last(
        &self,
        inner: Option<RwLock<RingBuffer<T>, SharedInv>>,
    ) -> bool {
        self.door.may_be_last(inner)
    }

    /// Gives this end up. The last of the two ends to go gets the ring buffer, with the
    /// items that are left in it.
    ///
    /// The lock does not drop what it keeps. So where both ends are dropped without
    /// this call, the items that are left are not dropped.
    pub fn close(self) -> (rb: Option<RingBuffer<T>>)
        ensures
            exists|inner: Option<RwLock<RingBuffer<T>, SharedInv>>|
                {
                    &&& #[trigger] self.may_be_last(inner)
                    &&& rb is Some <==> inner is Some
                    &&& rb is Some ==> inner->Some_0 == self.lock() && call_ensures(
                        RwLock::<RingBuffer<T>, SharedInv>::into_inner,
                        (inner->Some_0,),
                        rb->Some_0,
                    )
                },
            rb is Some ==> self.lock().inv(rb->Some_0),
    {
        let rb = self.door.leave();
        assert forall|inner: Option<RwLock<RingBuffer<T>, SharedInv>>| #[trigger]
            self.door.may_be_last(inner) implies self.may_be_last(inner) by {}
        rb
    }
}

impl<T> ProducerEnd<T> {
    /// Takes the ring buffer for as long as this end works on it. The handle gives
    /// it back: that is due in any case, and what is given back must be well formed
    /// and of the same capacity. Until then the other end waits.
    ///
    /// What comes is what the lock hands out. The other end may have worked on the
    /// ring buffer at any time before, so nothing is known of the items in it. The turn is
    /// a guest's, and is not recorded.
    pub fn acquire(&self) -> (taken: (
        RingBuffer<T>,
        WriteHandle<'_, RingBuffer<T>, SharedInv>,
    ))
        ensures
            taken.0.inv(),
            taken.0.spec_capacity() == self.lock().pred().capacity,
            taken.1.rwlock() == self.lock(),
            call_ensures(
                RwLock::<RingBuffer<T>, SharedInv>::acquire_write,
                (&self.lock(),),
                taken,
            ),
    {
        self.door.welcome()
    }
}

impl<T> ConsumerEnd<T> {
    /// Takes the ring buffer for as long as this end works on it. The handle gives
    /// it back: that is due in any case, and what is given back must be well formed
    /// and of the same capacity. Until then the other end waits.
    ///
    /// What comes is what the lock hands out. The other end may have worked on the
    /// ring buffer at any time before, so nothing is known of the items in it. The turn is
    /// a guest's, and is not recorded.
    pub fn acquire(&self) -> (taken: (
        RingBuffer<T>,
        WriteHandle<'_, RingBuffer<T>, SharedInv>,
    ))
        ensures
            taken.0.inv(),
            taken.0.spec_capacity() == self.lock().pred().capacity,
            taken.1.rwlock() == self.lock(),
            call_ensures(
                RwLock::<RingBuffer<T>, SharedInv>::acquire_write,
                (&self.lock(),),
                taken,
            ),
    {
        self.door.welcome()
    }
}

/// The producer on a ring buffer that `ends` ends hold, with these settings.
fn outfit<'a, T>(
    rb: &'a mut RingBuffer<T>,
    ends: usize,
    nonblocking: bool,
    sleep_copy: SleepCopy,
) -> (producer: Producer<'a, T>)
    ensures
        *producer.rb == *old(rb),
        *final(producer.rb) == *final(rb),
        producer.nonblocking == nonblocking,
        producer.ends == ends,
        producer.sleep_copy == sleep_copy,
{
    let mut producer = Producer::new(rb, ends);
    producer.sleep_copy = sleep_copy;
    if nonblocking {
        producer.set_nonblocking();
    }
    producer
}

impl<T> RingBuffer<T> {
    /// Splits ring buffer into producer and consumer, which share it and block: both
    /// hold the one lock that was made around this very buffer.
    pub fn split(self) -> (ends: (ProducerEnd<T>, ConsumerEnd<T>))
        requires
            self.inv(),
        ensures
            ends.0.lock() == ends.1.lock(),
            ends.0.lock().pred().capacity == self.spec_capacity(),
            ends.0.found() == Seq::<RingBuffer<T>>::empty(),
            ends.1.found() == Seq::<RingBuffer<T>>::empty(),
            call_ensures(
                RwLock::<RingBuffer<T>, SharedInv>::new,
                (self, Ghost(SharedInv { capacity: self.spec_capacity() })),
                ends.0.lock(),
            ),
            !ends.0.is_nonblocking(),
            !ends.0.leaves_buffers().reader && !ends.0.leaves_buffers().writer,
            !ends.1.is_nonblocking(),
    {
        let ghost capacity = self.spec_capacity();
        let (first, second) = Gate::pair(self, Ghost(SharedInv { capacity }));
        (
            ProducerEnd {
                door: first,
                nonblocking: false,
                sleep_copy: SleepCopy { reader: false, writer: false },
                items: PhantomData,
            },
            ConsumerEnd { door: second, nonblocking: false, items: PhantomData },
        )
    }
}

} // verus!

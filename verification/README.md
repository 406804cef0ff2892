# ringbuf

A ring buffer with a producer end and a consumer end, verified with Verus.

- `src/ring_buffer.rs`: the buffer, its indices, and the slots that are free or occupied
- `src/producer.rs`, `src/slices.rs`, `src/byte_io.rs`: putting items in, one by one, by the slice, as bytes
- `src/consumer.rs`: taking items out
- `src/transfer.rs`: moving items between buffers and within one
- `src/shared.rs`: a buffer that two threads share
- `src/storage.rs`: where slots may lie
- `src/sync_spin.rs`, `src/mutex_spin.rs`: when a waiting thread spins, sleeps or blocks
- `src/async_wrap.rs`: an end for asynchronous code
- `src/laws.rs`: what holds of the library as a whole
- `src/outside.rs`: what is believed of other crates and of the standard library
- `app/`: the parts that read, write, lock and sleep

Contracts speak of a buffer's view, the sequence of its items, oldest first. A
producer or a consumer holds its buffer for as long as it works on it. Threads take
turns through the ends that `RingBuffer::split` hands out: each call on an end takes the
buffer, works on it and gives it back. The lock between the ends does not drop what it
keeps, so an end is given up with `close`: the last one to go gets the buffer, and the
items left in it are dropped with it, oldest first.

//! Reading bytes into a ring buffer and writing them to it.
//!
//! The reader and the waiting are up to the caller, who hands in what the read has
//! returned and does what the write says.

use vstd::prelude::*;
use crate::producer::{smaller, Producer};
use crate::ring_buffer::{free_ranges, RingBuffer, SleepCopy};
use crate::slices::{slice_pushed, slice_resumed, PushSlice};

verus! {

/// Why bytes could not be read into a ring buffer.
pub enum ReadFromError<E> {
    /// Read operation returned an invalid number.
    InvalidNumber,
    /// Read operation failed.
    Failed(E),
}

/// What a writer does next.
pub enum WriteAction {
    /// The write is done: so many bytes were written.
    Done(usize),
    /// The write fails, because it would have to wait.
    WouldBlock,
    /// The write starts again.
    Retry,
    /// The bytes were left for a reader: the write goes on when one has come by.
    Wait,
}

/// One pass of a write.
pub struct WriteStep {
    /// Whether sleeping threads are to be woken.
    pub notify: bool,
    /// What the writer does next.
    pub action: WriteAction,
}

/// The number of bytes that a read may deliver where `count` bytes were asked for
/// and `room` bytes are free in a row.
pub open spec fn window(count: Option<usize>, room: int) -> int {
    match count {
        Some(limit) => smaller(limit as int, room),
        None => room,
    }
}

/// What a writer does next when it has written `n` bytes.
pub open spec fn write_outcome(n: usize, alive: bool, nonblocking: bool) -> WriteAction {
    if n == 0 && alive {
        if nonblocking {
            WriteAction::WouldBlock
        } else {
            WriteAction::Retry
        }
    } else {
        WriteAction::Done(n)
    }
}

/// One pass of a write turns the one ring buffer into the other: the bytes are pushed
/// as a slice, and what the writer does next follows from what became of them.
pub open spec fn bytes_pushed(
    before: RingBuffer<u8>,
    after: RingBuffer<u8>,
    sleep_copy: SleepCopy,
    alive: bool,
    nonblocking: bool,
    bytes: Seq<u8>,
    step: WriteStep,
) -> bool {
    exists|out: PushSlice|
        {
            &&& #[trigger] slice_pushed(before, after, sleep_copy, bytes, out)
            &&& step.notify == out.notify
            &&& step.action == (if out.waiting {
                WriteAction::Wait
            } else {
                write_outcome(out.written, alive, nonblocking)
            })
        }
}

/// A write that has left its bytes for a reader goes on, and turns the one ring buffer
/// into the other.
pub open spec fn bytes_resumed(
    before: RingBuffer<u8>,
    after: RingBuffer<u8>,
    alive: bool,
    nonblocking: bool,
    bytes: Seq<u8>,
    action: WriteAction,
) -> bool {
    exists|total: Option<usize>|
        {
            &&& #[trigger] slice_resumed(before, after, bytes, total)
            &&& action == (match total {
                Some(n) => write_outcome(n, alive, nonblocking),
                None => WriteAction::Wait,
            })
        }
}

impl<'a> Producer<'a, u8> {
    /// The length of the buffer that a reader is to be given where at most `count`
    /// bytes are read: what is free in a row, and no more than `count`.
    pub fn read_window(&self, count: Option<usize>) -> (len: usize)
        requires
            self.ring().inv(),
        ensures
            len == window(count, self.ring().free_left().len() as int),
    {
        let ranges = free_ranges(self.rb.head(), self.rb.tail(), self.rb.slot_count());
        let room: usize = ranges.0.end - ranges.0.start;
        match count {
            Some(limit) => {
                if limit < room {
                    limit
                } else {
                    room
                }
            },
            None => room,
        }
    }

    /// Reads bytes and appends them to the ring buffer.
    ///
    /// The read operation has been given `buffer` to fill, no longer than
    /// [`Producer::read_window`] says, and has returned `outcome`.
    ///
    /// Returns `Ok(n)` if the read has succeeded. `n` is number of bytes been read.
    /// `n == 0` means that either the read returned zero or ring buffer is full.
    ///
    /// If the read has failed or returned an invalid number then error is returned.
    pub fn read_from<E>(&mut self, buffer: &[u8], outcome: Result<usize, E>) -> (result: Result<
        usize,
        ReadFromError<E>,
    >)
        requires
            old(self).rb.inv(),
            buffer@.len() <= old(self).rb.room(),
        ensures
            result == (match outcome {
                Ok(n) => if n <= buffer@.len() {
                    Ok(n)
                } else {
                    Err(ReadFromError::InvalidNumber)
                },
                Err(e) => Err(ReadFromError::Failed(e)),
            }),
            final(self).rb@ == (match result {
                Ok(n) => old(self).rb@ + buffer@.take(n as int),
                Err(_) => old(self).rb@,
            }),
            final(self).same_settings(old(self)),
            *final(final(self).rb) == *final(old(self).rb),
            final(self).rb.inv(),
            final(self).rb.same_setting(*old(self).rb),
            final(self).rb.head_index() == old(self).rb.head_index(),
    {
        match outcome {
            Ok(n) => {
                if n <= buffer.len() {
                    let bytes = vstd::slice::slice_subrange(buffer, 0, n);
                    let pushed = self.append_copies(bytes);
                    proof {
                        assert(bytes@ =~= buffer@.take(n as int));
                        assert(pushed == n);
                        assert(bytes@.take(n as int) =~= bytes@);
                    }
                    Ok(n)
                } else {
                    Err(ReadFromError::InvalidNumber)
                }
            },
            Err(e) => Err(ReadFromError::Failed(e)),
        }
    }

    /// One pass of a write of the bytes in `buffer`.
    pub fn write(&mut self, buffer: &[u8]) -> (step: WriteStep)
        requires
            old(self).rb.inv(),
        ensures
            bytes_pushed(
                *old(self).rb,
                *final(self).rb,
                old(self).sleep_copy,
                old(self).ends >= 2,
                old(self).nonblocking,
                buffer@,
                step,
            ),
            step.action is Done ==> step.action->Done_0 <= buffer@.len(),
            final(self).same_settings(old(self)),
            *final(final(self).rb) == *final(old(self).rb),
            final(self).rb.inv(),
    {
        let out = self.push_slice(buffer);
        let action = if out.waiting {
            WriteAction::Wait
        } else {
            self.write_action(out.written)
        };
        WriteStep { notify: out.notify, action }
    }

    /// Goes on with a write whose bytes have been left for a reader.
    pub fn write_resume(&mut self, buffer: &[u8]) -> (action: WriteAction)
        requires
            old(self).rb.inv(),
        ensures
            bytes_resumed(
                *old(self).rb,
                *final(self).rb,
                old(self).ends >= 2,
                old(self).nonblocking,
                buffer@,
                action,
            ),
            action is Done ==> action->Done_0 <= buffer@.len(),
            final(self).same_settings(old(self)),
            *final(final(self).rb) == *final(old(self).rb),
            final(self).rb.inv(),
    {
        match self.push_slice_resume(buffer) {
            Some(n) => self.write_action(n),
            None => WriteAction::Wait,
        }
    }

    /// What a writer does next when it has written `n` bytes. Where nothing was
    /// written and a consumer is there to make room, it tries again, or fails if it
    /// must not block.
    pub fn write_action(&self, n: usize) -> (action: WriteAction)
        ensures
            action == write_outcome(n, self.ends >= 2, self.nonblocking),
    {
        if n == 0 && self.is_consumer_alive() {
            if !self.nonblocking {
                WriteAction::Retry
            } else {
                WriteAction::WouldBlock
            }
        } else {
            WriteAction::Done(n)
        }
    }
}

} // verus!

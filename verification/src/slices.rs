//! Putting whole slices into a ring buffer, or into the hands of a reader.

use vstd::prelude::*;
use crate::producer::{smaller, Producer};
use crate::ring_buffer::{RingBuffer, SavedBuffer, SleepCopy};

verus! {

/// What became of a slice.
pub struct PushSlice {
    /// How many elements were written, to a sleeping reader and to the ring buffer.
    pub written: usize,
    /// Whether sleeping threads are to be woken.
    pub notify: bool,
    /// Whether the slice has been left for a reader to copy, so that the push goes
    /// on when one has come by.
    pub waiting: bool,
}

/// A reader's buffer has been filled from the front with the first of `elems`, as
/// many as fit, and is left as copied.
pub open spec fn handed_over<T>(
    before: SavedBuffer<T>,
    after: SavedBuffer<T>,
    elems: Seq<T>,
) -> bool {
    match (before, after) {
        (SavedBuffer::Reader(asked), SavedBuffer::Copied(n, got)) => {
            &&& n == smaller(elems.len() as int, asked@.len() as int)
            &&& got@ == elems.take(n as int) + asked@.skip(n as int)
        },
        _ => false,
    }
}

/// A push of a slice turns the one ring buffer into the other, with this outcome:
/// - Where readers may leave their buffers, and one has, it is filled.
/// - If that takes the whole slice, nothing else happens.
/// - Otherwise, where writers may leave their buffers and no buffer is left, the
///   slice is left for a reader.
/// - Otherwise as much of what is left of the slice as fits is appended to the ring
///   buffer.
pub open spec fn slice_pushed<T>(
    before: RingBuffer<T>,
    after: RingBuffer<T>,
    sleep_copy: SleepCopy,
    elems: Seq<T>,
    out: PushSlice,
) -> bool {
    let handed = sleep_copy.reader && before.saved() is Reader;
    let copied = if handed {
        smaller(elems.len() as int, before.saved()->Reader_0@.len() as int)
    } else {
        0
    };
    let pushed = smaller(elems.len() - copied, before.room());
    &&& after.spec_capacity() == before.spec_capacity()
    &&& after.sleepers() == before.sleepers()
    &&& after.head_index() == before.head_index()
    &&& out.notify == (handed && before.sleepers() > 0)
    &&& if handed && copied == elems.len() {
        &&& out.written == copied
        &&& !out.waiting
        &&& handed_over(before.saved(), after.saved(), elems)
        &&& after@ == before@
    } else if sleep_copy.writer && before.saved() is Empty {
        &&& out.written == 0
        &&& out.waiting
        &&& after.saved() is Writer
        &&& after.saved()->Writer_0@ == elems
        &&& after@ == before@
    } else {
        &&& out.written == copied + pushed
        &&& !out.waiting
        &&& if handed {
            handed_over(before.saved(), after.saved(), elems)
        } else {
            after.saved() == before.saved()
        }
        &&& after@ == before@ + elems.subrange(copied, copied + pushed)
    }
}

/// A push that has left its slice for a reader goes on, and turns the one ring
/// buffer into the other: nothing happens until a reader has come by. Then the
/// place of the saved buffer is free again, and as much as fits of what the reader
/// has not copied of the slice is appended to the ring buffer. A reader that says it
/// has copied more than the slice has copied all of it.
pub open spec fn slice_resumed<T>(
    before: RingBuffer<T>,
    after: RingBuffer<T>,
    elems: Seq<T>,
    total: Option<usize>,
) -> bool {
    &&& after.spec_capacity() == before.spec_capacity()
    &&& after.sleepers() == before.sleepers()
    &&& after.head_index() == before.head_index()
    &&& match before.saved() {
        SavedBuffer::Copied(n, buf) => {
            let copied = smaller(n as int, elems.len() as int);
            let pushed = smaller(elems.len() - copied, before.room());
            &&& after.saved() is Empty
            &&& total is Some
            &&& total->0 == copied + pushed
            &&& after@ == before@ + elems.subrange(copied, copied + pushed)
        },
        _ => {
            &&& total is None
            &&& after.saved() == before.saved()
            &&& after@ == before@
        },
    }
}

impl<'a, T: Copy> Producer<'a, T> {
    /// Appends as many elements from slice to the ring buffer as fit.
    pub(crate) fn append_copies(&mut self, elems: &[T]) -> (n: usize)
        requires
            old(self).rb.inv(),
        ensures
            n == smaller(elems@.len() as int, old(self).rb.room()),
            final(self).rb@ == old(self).rb@ + elems@.take(n as int),
            final(self).same_settings(old(self)),
            *final(final(self).rb) == *final(old(self).rb),
            final(self).rb.inv(),
            final(self).rb.same_setting(*old(self).rb),
            final(self).rb.head_index() == old(self).rb.head_index(),
    {
        let mut copies: Vec<Option<T>> = Vec::new();
        let mut i: usize = 0;
        while i < elems.len()
            invariant
                i <= elems@.len(),
                copies@.len() == i,
                forall|j: int| 0 <= j < i ==> #[trigger] copies@[j] == Some(elems@[j]),
            decreases elems@.len() - i,
        {
            copies.push(Some(elems[i]));
            i = i + 1;
        }
        let ghost given = copies@;
        let n = self.push_copy(copies.as_mut_slice());
        proof {
            assert(Seq::new(n as nat, |i: int| given[i]->Some_0) =~= elems@.take(n as int));
        }
        n
    }

    /// Appends as many elements from slice to the ring buffer as fit, without the
    /// first `done`.
    fn append_rest(&mut self, elems: &[T], done: usize) -> (n: usize)
        requires
            old(self).rb.inv(),
            done <= elems@.len(),
        ensures
            n == smaller(elems@.len() - done, old(self).rb.room()),
            final(self).rb@ == old(self).rb@ + elems@.subrange(done as int, done + n),
            final(self).same_settings(old(self)),
            *final(final(self).rb) == *final(old(self).rb),
            final(self).rb.inv(),
            final(self).rb.same_setting(*old(self).rb),
            final(self).rb.head_index() == old(self).rb.head_index(),
    {
        let rest = vstd::slice::slice_subrange(elems, done, elems.len());
        let n = self.append_copies(rest);
        proof {
            assert(rest@.take(n as int) =~= elems@.subrange(done as int, done + n));
        }
        n
    }

    /// Appends elements from slice to the ring buffer.
    /// Elements should be [`Copy`](https://doc.rust-lang.org/std/marker/trait.Copy.html).
    ///
    /// A reader that has left its buffer is handed elements first, and the others are
    /// appended. Where writers may leave their buffers, the slice may be left for a
    /// reader: then the push goes on with [`Producer::push_slice_resume`].
    ///
    /// Returns count of elements been handed to the reader and appended to the ring
    /// buffer.
    pub fn push_slice(&mut self, elems: &[T]) -> (out: PushSlice)
        requires
            old(self).rb.inv(),
        ensures
            slice_pushed(*old(self).rb, *final(self).rb, old(self).sleep_copy, elems@, out),
            final(self).same_settings(old(self)),
            *final(final(self).rb) == *final(old(self).rb),
            final(self).rb.inv(),
    {
        let mut written: usize = 0;
        let mut notify: bool = false;
        if self.sleep_copy.reader {
            match self.rb.replace_saved(SavedBuffer::Empty) {
                SavedBuffer::Reader(buf) => {
                    let mut buf = buf;
                    let ghost asked = buf@;
                    let copy_len: usize = if elems.len() < buf.len() {
                        elems.len()
                    } else {
                        buf.len()
                    };
                    let mut i: usize = 0;
                    while i < copy_len
                        invariant
                            i <= copy_len,
                            copy_len <= elems@.len(),
                            copy_len <= asked.len(),
                            buf@ == elems@.take(i as int) + asked.skip(i as int),
                        decreases copy_len - i,
                    {
                        buf[i] = elems[i];
                        i = i + 1;
                        proof {
                            assert(buf@ =~= elems@.take(i as int) + asked.skip(i as int));
                        }
                    }
                    self.rb.replace_saved(SavedBuffer::Copied(copy_len, buf));
                    written = copy_len;
                    notify = self.rb.num_sleepers() > 0;
                    if written == elems.len() {
                        return PushSlice { written, notify, waiting: false };
                    }
                },
                other => {
                    self.rb.replace_saved(other);
                },
            }
        }
        if self.sleep_copy.writer {
            let vacant: bool = match self.rb.saved_buf() {
                SavedBuffer::Empty => true,
                _ => false,
            };
            if vacant {
                self.rb.replace_saved(SavedBuffer::Writer(copy_of(elems)));
                return PushSlice { written, notify, waiting: true };
            }
        }
        let n = self.append_rest(elems, written);
        PushSlice { written: written + n, notify, waiting: false }
    }

    /// Goes on with a push that has left its slice for a reader.
    ///
    /// Returns `None` as long as no reader has come by, and then the count of
    /// elements been copied by the reader or appended to the ring buffer.
    pub fn push_slice_resume(&mut self, elems: &[T]) -> (total: Option<usize>)
        requires
            old(self).rb.inv(),
        ensures
            slice_resumed(*old(self).rb, *final(self).rb, elems@, total),
            final(self).same_settings(old(self)),
            *final(final(self).rb) == *final(old(self).rb),
            final(self).rb.inv(),
    {
        let num_copied: usize = match self.rb.saved_buf() {
            SavedBuffer::Copied(n, _) => *n,
            _ => {
                return None;
            },
        };
        self.rb.replace_saved(SavedBuffer::Empty);
        let copied: usize = if num_copied < elems.len() {
            num_copied
        } else {
            elems.len()
        };
        Some(copied + self.append_rest(elems, copied))
    }
}

/// A vector with the elements of a slice.
fn copy_of<T: Copy>(elems: &[T]) -> (copy: Vec<T>)
    ensures
        copy@ == elems@,
{
    let mut copy: Vec<T> = Vec::new();
    let mut i: usize = 0;
    while i < elems.len()
        invariant
            i <= elems@.len(),
            copy@ == elems@.take(i as int),
        decreases elems@.len() - i,
    {
        copy.push(elems[i]);
        i = i + 1;
        proof {
            assert(copy@ =~= elems@.take(i as int));
        }
    }
    proof {
        assert(elems@.take(i as int) =~= elems@);
    }
    copy
}

} // verus!

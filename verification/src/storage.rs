//! Where the slots of a ring buffer may lie.

use std::ops::Range;
use vstd::prelude::*;
use crate::outside::into_boxed_slice;

verus! {

/// Abstract storage for the ring buffer.
///
/// Storage items are stored as a contiguous array of slots. A slot is vacant or
/// holds an item.
pub trait Storage {
    /// Stored item.
    type Item;

    /// The slots.
    spec fn cells(&self) -> Seq<Option<Self::Item>>;

    /// Length of the storage.
    fn len(&self) -> (len: usize)
        ensures
            len == self.cells().len(),
    ;

    /// Checks if the storage has no slots.
    fn is_empty(&self) -> (empty: bool)
        ensures
            empty == (self.cells().len() == 0),
    {
        self.len() == 0
    }

    /// All slots.
    fn as_slice(&self) -> (slots: &[Option<Self::Item>])
        ensures
            slots@ == self.cells(),
    ;

    /// All slots, for writing.
    fn as_mut_slice(&mut self) -> (slots: &mut [Option<Self::Item>])
        ensures
            slots@ == old(self).cells(),
            final(self).cells() == final(slots)@,
    ;

    /// Returns a slice of storage in specified `range`.
    fn slice(&self, range: Range<usize>) -> (slots: &[Option<Self::Item>])
        requires
            range.start <= range.end <= self.cells().len(),
        ensures
            slots@ == self.cells().subrange(range.start as int, range.end as int),
    {
        vstd::slice::slice_subrange(self.as_slice(), range.start, range.end)
    }

    /// Returns a mutable slice of storage in specified `range`.
    fn slice_mut(&mut self, range: Range<usize>) -> (slots: &mut [Option<Self::Item>])
        requires
            range.start <= range.end <= old(self).cells().len(),
        ensures
            slots@ == old(self).cells().subrange(range.start as int, range.end as int),
            final(self).cells() == old(self).cells().take(range.start as int) + final(slots)@
                + old(self).cells().skip(range.end as int),
    {
        let (low, high) = self.as_mut_slice().split_at_mut(range.start);
        let (slots, beyond) = high.split_at_mut(range.end - range.start);
        slots
    }
}

/// Storage in a slice that lies elsewhere.
pub struct Ref<'a, T> {
    /// The slots.
    pub slots: &'a mut [Option<T>],
}

impl<'a, T> Storage for Ref<'a, T> {
    type Item = T;

    open spec fn cells(&self) -> Seq<Option<T>> {
        self.slots@
    }

    fn len(&self) -> (len: usize) {
        self.slots.len()
    }

    fn as_slice(&self) -> (slots: &[Option<T>]) {
        &*self.slots
    }

    fn as_mut_slice(&mut self) -> (slots: &mut [Option<T>])
        ensures
            final(final(self).slots)@ == final(old(self).slots)@,
    {
        &mut *self.slots
    }

    fn slice_mut(&mut self, range: Range<usize>) -> (slots: &mut [Option<T>])
        ensures
            final(final(self).slots)@ == final(old(self).slots)@,
    {
        let (low, high) = self.slots.split_at_mut(range.start);
        let (slots, beyond) = high.split_at_mut(range.end - range.start);
        slots
    }
}

/// Storage in the slice. What comes of a reference is stated at `from`, of what it
/// refers to now and in the end.
impl<'a, T> From<&'a mut [Option<T>]> for Ref<'a, T> {
    fn from(value: &'a mut [Option<T>]) -> (converted: Self)
        ensures
            converted.slots@ == old(value)@,
            final(converted.slots)@ == final(value)@,
    {
        Ref { slots: value }
    }
}

impl<'a, T> vstd::std_specs::convert::FromSpecImpl<&'a mut [Option<T>]> for Ref<'a, T> {
    open spec fn obeys_from_spec() -> bool {
        false
    }

    open spec fn from_spec(value: &'a mut [Option<T>]) -> Self {
        Ref { slots: value }
    }
}

/// The slice that the storage lies in. What comes of a reference is stated at
/// `from`, of what it refers to now and in the end.
impl<'a, T> From<Ref<'a, T>> for &'a mut [Option<T>] {
    fn from(value: Ref<'a, T>) -> (converted: Self)
        ensures
            converted@ == value.cells(),
            final(converted)@ == final(value.slots)@,
    {
        value.slots
    }
}

impl<'a, T> vstd::std_specs::convert::FromSpecImpl<Ref<'a, T>> for &'a mut [Option<T>] {
    open spec fn obeys_from_spec() -> bool {
        false
    }

    open spec fn from_spec(value: Ref<'a, T>) -> Self {
        value.slots
    }
}

/// Storage that lies in the value itself.
pub struct Owning<T: ?Sized> {
    /// The slots.
    pub data: T,
}

/// Storage in the value.
impl<T> From<T> for Owning<T> {
    fn from(value: T) -> (converted: Self) {
        Owning { data: value }
    }
}

impl<T> vstd::std_specs::convert::FromSpecImpl<T> for Owning<T> {
    open spec fn obeys_from_spec() -> bool {
        true
    }

    open spec fn from_spec(value: T) -> Self {
        Owning { data: value }
    }
}

/// Storage in an array.
pub type Array<T, const N: usize> = Owning<[Option<T>; N]>;

impl<T, const N: usize> Storage for Owning<[Option<T>; N]> {
    type Item = T;

    open spec fn cells(&self) -> Seq<Option<T>> {
        self.data@
    }

    fn len(&self) -> (len: usize) {
        N
    }

    fn as_slice(&self) -> (slots: &[Option<T>]) {
        self.data.as_slice()
    }

    fn as_mut_slice(&mut self) -> (slots: &mut [Option<T>]) {
        &mut self.data
    }
}

/// The array that the storage lies in.
impl<T, const N: usize> From<Owning<[Option<T>; N]>> for [Option<T>; N] {
    fn from(value: Owning<[Option<T>; N]>) -> (converted: Self) {
        value.data
    }
}

impl<T, const N: usize> vstd::std_specs::convert::FromSpecImpl<Owning<[Option<T>; N]>> for [Option<T>; N] {
    open spec fn obeys_from_spec() -> bool {
        true
    }

    open spec fn from_spec(value: Owning<[Option<T>; N]>) -> Self {
        value.data
    }
}

/// Storage in a slice.
pub type Slice<T> = Owning<[Option<T>]>;

impl<T> Storage for Owning<[Option<T>]> {
    type Item = T;

    open spec fn cells(&self) -> Seq<Option<T>> {
        self.data@
    }

    fn len(&self) -> (len: usize) {
        self.data.len()
    }

    fn as_slice(&self) -> (slots: &[Option<T>]) {
        &self.data
    }

    fn as_mut_slice(&mut self) -> (slots: &mut [Option<T>]) {
        &mut self.data
    }
}

/// Storage on the heap.
pub struct Heap<T> {
    /// The slots.
    pub data: Box<[Option<T>]>,
}

impl<T> Storage for Heap<T> {
    type Item = T;

    open spec fn cells(&self) -> Seq<Option<T>> {
        self.data@
    }

    fn len(&self) -> (len: usize) {
        self.data.len()
    }

    fn as_slice(&self) -> (slots: &[Option<T>]) {
        &*self.data
    }

    fn as_mut_slice(&mut self) -> (slots: &mut [Option<T>]) {
        &mut *self.data
    }
}

impl<T> Heap<T> {
    /// Allocates storage with `capacity` vacant slots.
    pub fn new(capacity: usize) -> (heap: Heap<T>)
        ensures
            heap.cells() == Seq::new(capacity as nat, |i: int| None::<T>),
    {
        let mut slots: Vec<Option<T>> = Vec::with_capacity(capacity);
        while slots.len() < capacity
            invariant
                slots.len() <= capacity,
                forall|i: int| 0 <= i < slots.len() ==> slots@[i] is None,
            decreases capacity - slots.len(),
        {
            slots.push(None);
        }
        proof {
            assert(slots@ =~= Seq::new(capacity as nat, |i: int| None::<T>));
        }
        Heap { data: into_boxed_slice(slots) }
    }
}

/// Storage in the box.
impl<T> From<Box<[Option<T>]>> for Heap<T> {
    fn from(value: Box<[Option<T>]>) -> (converted: Self) {
        Heap { data: value }
    }
}

impl<T> vstd::std_specs::convert::FromSpecImpl<Box<[Option<T>]>> for Heap<T> {
    open spec fn obeys_from_spec() -> bool {
        true
    }

    open spec fn from_spec(value: Box<[Option<T>]>) -> Self {
        Heap { data: value }
    }
}

/// The box that the storage lies in.
impl<T> From<Heap<T>> for Box<[Option<T>]> {
    fn from(value: Heap<T>) -> (converted: Self) {
        value.data
    }
}

impl<T> vstd::std_specs::convert::FromSpecImpl<Heap<T>> for Box<[Option<T>]> {
    open spec fn obeys_from_spec() -> bool {
        true
    }

    open spec fn from_spec(value: Heap<T>) -> Self {
        value.data
    }
}

} // verus!

//! What the library takes from other crates and from the parts of the standard
//! library that have no specification: every item here is believed, not proved.

use vstd::prelude::*;

verus! {

/// A value of `cache_padded` with the length of a cache line to itself.
#[verifier::external_type_specification]
#[verifier::external_body]
#[verifier::reject_recursive_types(T)]
pub struct ExCachePadded<T>(cache_padded::CachePadded<T>);

/// The index that a padded cell holds.
pub uninterp spec fn padded_value(cell: cache_padded::CachePadded<usize>) -> usize;

/// Calls `CachePadded::new`: the padded cell holds the value it was made from.
#[allow(deprecated)]
#[verifier::external_body]
pub(crate) fn pad(value: usize) -> (cell: cache_padded::CachePadded<usize>)
    ensures
        padded_value(cell) == value,
{
    cache_padded::CachePadded::new(value)
}

/// Reads a padded cell through its `Deref` impl, which hands out the value that
/// the cell holds. It neither panics nor opens an invariant.
#[verifier::external_body]
pub(crate) fn padded_load(cell: &cache_padded::CachePadded<usize>) -> (value: usize)
    ensures
        value == padded_value(*cell),
    opens_invariants none
    no_unwind
{
    **cell
}

/// Calls `<[V]>::get_mut` with an index: it hands out the element there, for writing,
/// and `None` where the index is past the last one. It neither panics nor opens
/// an invariant.
#[verifier::external_body]
pub(crate) fn element_mut<V>(elems: &mut Vec<V>, index: usize) -> (element: Option<&mut V>)
    ensures
        element is Some <==> index < old(elems)@.len(),
        element is Some ==> *element->Some_0 == old(elems)@[index as int] && final(elems)@
            == old(elems)@.update(index as int, *final(element->Some_0)),
        element is None ==> final(elems)@ == old(elems)@,
    opens_invariants none
    no_unwind
{
    elems.get_mut(index)
}

/// Calls `rand::random`, which draws from a generator of the thread's own. Any
/// value may come back, so nothing is claimed of it.
#[verifier::external_body]
pub(crate) fn random_index() -> (value: usize) {
    rand::random::<usize>()
}

/// Calls `Arc::strong_count`, which other threads change at any time by what they
/// clone and drop, so nothing is claimed of it.
#[verifier::external_body]
pub(crate) fn strong_count<V>(shared: &std::sync::Arc<V>) -> (count: usize) {
    std::sync::Arc::strong_count(shared)
}

/// Calls `Arc::into_inner`: what comes out, if anything does, is what the shares are of.
/// It comes out where this is the last share, and other threads drop theirs at any
/// time, so nothing is claimed of when that is.
#[verifier::external_body]
pub(crate) fn last_share<V>(shared: std::sync::Arc<V>) -> (inner: Option<V>)
    ensures
        inner is Some ==> inner->Some_0 == *shared,
{
    std::sync::Arc::into_inner(shared)
}

/// Calls `Vec::into_boxed_slice`, which hands out the elements of the vector in a
/// box, in their order.
#[verifier::external_body]
pub(crate) fn into_boxed_slice<V>(elems: Vec<V>) -> (boxed: Box<[V]>)
    ensures
        boxed@ == elems@,
{
    elems.into_boxed_slice()
}

} // verus!

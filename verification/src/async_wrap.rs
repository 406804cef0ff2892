//! An end of a ring buffer for use in asynchronous code.

use vstd::prelude::*;
use vstd::pervasive::cloned;

verus! {

/// A reference to a ring buffer, as a producer where `P`, as a consumer where `C`.
pub struct Caching<R, const P: bool, const C: bool> {
    rb: R,
}

/// A reference to a ring buffer that only looks at it.
pub struct Obs<R> {
    rb: R,
}

impl<R> Obs<R> {
    /// The reference.
    pub closed spec fn target(&self) -> R {
        self.rb
    }

    /// The reference.
    pub fn rb_ref(&self) -> (rb: &R)
        ensures
            *rb == self.target(),
    {
        &self.rb
    }
}

impl<R, const P: bool, const C: bool> Caching<R, P, C> {
    /// The reference.
    pub closed spec fn target(&self) -> R {
        self.rb
    }

    /// An end that holds the reference.
    pub fn new(rb: R) -> (caching: Self)
        ensures
            caching.target() == rb,
    {
        Caching { rb }
    }

    /// A reference that only looks at the ring buffer.
    pub fn observe(&self) -> (obs: Obs<R>) where R: Clone
        ensures
            cloned(self.target(), obs.target()),
    {
        Obs { rb: self.rb.clone() }
    }

    /// The reference.
    pub fn rb_ref(&self) -> (rb: &R)
        ensures
            *rb == self.target(),
    {
        &self.rb
    }

    /// Gives up the end for the reference that it holds.
    pub fn into_rb_ref(self) -> (rb: R)
        ensures
            rb == self.target(),
    {
        self.rb
    }
}

/// An end that is there until it is closed.
pub struct AsyncWrap<R, const P: bool, const C: bool> {
    base: Option<Caching<R, P, C>>,
}

/// The end that items are put in at.
pub type AsyncProd<R> = AsyncWrap<R, true, false>;

/// The end that items are taken out at.
pub type AsyncCons<R> = AsyncWrap<R, false, true>;

impl<R, const P: bool, const C: bool> AsyncWrap<R, P, C> {
    /// The end, if it is not closed.
    pub closed spec fn inner(&self) -> Option<Caching<R, P, C>> {
        self.base
    }

    /// An end that holds a reference to a ring buffer.
    pub fn new(rb: R) -> (wrap: Self)
        ensures
            wrap.inner() is Some,
            wrap.inner()->0.target() == rb,
    {
        AsyncWrap { base: Some(Caching::new(rb)) }
    }

    /// A reference that only looks at the ring buffer.
    pub fn observe(&self) -> (obs: Obs<R>) where R: Clone
        requires
            self.inner() is Some,
        ensures
            cloned(self.inner()->0.target(), obs.target()),
    {
        self.base().observe()
    }

    /// The end.
    pub fn base(&self) -> (base: &Caching<R, P, C>)
        requires
            self.inner() is Some,
        ensures
            *base == self.inner()->0,
    {
        self.base.as_ref().unwrap()
    }

    /// The end, for writing.
    pub fn base_mut(&mut self) -> (base: &mut Caching<R, P, C>)
        requires
            old(self).inner() is Some,
        ensures
            *base == old(self).inner()->0,
            final(self).inner() == Some(*final(base)),
    {
        self.base.as_mut().unwrap()
    }

    /// The reference to the ring buffer.
    pub fn rb_ref(&self) -> (rb: &R)
        requires
            self.inner() is Some,
        ensures
            *rb == self.inner()->0.target(),
    {
        self.base().rb_ref()
    }

    /// Gives up the end for the reference that it holds.
    pub fn into_rb_ref(self) -> (rb: R)
        requires
            self.inner() is Some,
        ensures
            rb == self.inner()->0.target(),
    {
        self.base.unwrap().into_rb_ref()
    }
}

} // verus!

//! The way to a value that two sides share, with a record of every turn.
//!
//! Nothing here knows what the value is, so nothing here can change it.

use std::sync::Arc;
use vstd::prelude::*;
use vstd::rwlock::{RwLock, RwLockPredicate, WriteHandle};
use crate::outside::{last_share, strong_count};

verus! {

/// One side has taken the value `before` from the lock, and has given `after` back to the
/// same lock. What it finds there is up to what both sides have done until then.
pub open spec fn passed<'a, V, P: RwLockPredicate<V>>(
    lock: RwLock<V, P>,
    before: V,
    after: V,
) -> bool {
    exists|handle: WriteHandle<'a, V, P>|
        {
            &&& #[trigger] call_ensures(
                RwLock::<V, P>::acquire_write,
                (&lock,),
                (before, handle),
            )
            &&& call_ensures(WriteHandle::<'a, V, P>::release_write, (handle, after), ())
            &&& lock.inv(before)
            &&& lock.inv(after)
        }
}

/// A way to a value that is kept under a lock. Who has only this can change the value in
/// no turn that the record does not show.
pub trait Entrance<V, P: RwLockPredicate<V>>: Sized {
    /// This side's share of the lock.
    spec fn share(&self) -> Arc<RwLock<V, P>>;

    /// What this side has found in its turns, in their order.
    spec fn found(&self) -> Seq<V>;

    /// `Arc::strong_count`, asked of this side's own share, may answer with `sides`. Which
    /// answer it gives is up to what other threads clone and drop meanwhile.
    spec fn may_count(&self, sides: usize) -> bool;

    /// `Arc::into_inner`, given this side's share, may answer with `inner`. Whether this is
    /// the last share is up to the other side.
    spec fn may_be_last(&self, inner: Option<RwLock<V, P>>) -> bool;

    /// Begins a turn: takes the value, which the handle gives back.
    fn enter<'a>(&'a mut self) -> (turn: (V, WriteHandle<'a, V, P>))
        ensures
            call_ensures(RwLock::<V, P>::acquire_write, (&*old(self).share(),), turn),
            old(self).share().inv(turn.0),
            turn.1.rwlock() == *old(self).share(),
            final(self).share() == old(self).share(),
            final(self).found() == old(self).found().push(turn.0),
            forall|sides: usize| #[trigger]
                final(self).may_count(sides) <==> old(self).may_count(sides),
            forall|inner: Option<RwLock<V, P>>| #[trigger]
                final(self).may_be_last(inner) <==> old(self).may_be_last(inner),
    ;

    /// Takes the value, looks at it and gives it back as it was.
    fn look<R, F: Fn(&V) -> R>(&self, f: F) -> (seen: R)
        requires
            forall|value: V| #[trigger] self.share().inv(value) ==> f.requires((&value,)),
        ensures
            exists|value: V| #[trigger]
                passed(*self.share(), value, value) && f.ensures((&value,), seen),
    ;

    /// How many sides there are.
    fn count(&self) -> (sides: usize)
        ensures
            self.may_count(sides),
    ;

    /// Gives this side up. The last of the two sides to go gets the value.
    fn leave(self) -> (value: Option<V>)
        ensures
            exists|inner: Option<RwLock<V, P>>|
                {
                    &&& #[trigger] self.may_be_last(inner)
                    &&& value is Some <==> inner is Some
                    &&& value is Some ==> inner->Some_0 == *self.share() && call_ensures(
                        RwLock::<V, P>::into_inner,
                        (inner->Some_0,),
                        value->Some_0,
                    )
                },
            value is Some ==> self.share().inv(value->Some_0),
    ;
}

/// One side's share of a value that is kept under a lock.
pub struct Gate<V, P: RwLockPredicate<V>> {
    shared: Arc<RwLock<V, P>>,
    found: Ghost<Seq<V>>,
}

impl<V, P: RwLockPredicate<V>> Entrance<V, P> for Gate<V, P> {
    closed spec fn share(&self) -> Arc<RwLock<V, P>> {
        self.shared
    }

    closed spec fn found(&self) -> Seq<V> {
        self.found@
    }

    closed spec fn may_count(&self, sides: usize) -> bool {
        call_ensures(strong_count::<RwLock<V, P>>, (&self.shared,), sides)
    }

    closed spec fn may_be_last(&self, inner: Option<RwLock<V, P>>) -> bool {
        call_ensures(last_share::<RwLock<V, P>>, (self.shared,), inner)
    }

    fn enter<'a>(&'a mut self) -> (turn: (V, WriteHandle<'a, V, P>)) {
        let turn = self.shared.acquire_write();
        self.found = Ghost(self.found@.push(turn.0));
        turn
    }

    fn look<R, F: Fn(&V) -> R>(&self, f: F) -> (seen: R) {
        let (value, handle) = self.shared.acquire_write();
        let ghost found = value;
        assert(self.share().inv(value));
        let seen = f(&value);
        handle.release_write(value);
        assert(passed(*self.share(), found, found));
        seen
    }

    fn count(&self) -> (sides: usize) {
        strong_count(&self.shared)
    }

    fn leave(self) -> (value: Option<V>) {
        let inner = last_share(self.shared);
        assert(self.may_be_last(inner));
        match inner {
            Some(lock) => Some(lock.into_inner()),
            None => None,
        }
    }
}

impl<V, P: RwLockPredicate<V>> Gate<V, P> {
    /// Puts a value under a lock that two sides share.
    pub fn pair(value: V, pred: Ghost<P>) -> (gates: (Gate<V, P>, Gate<V, P>))
        requires
            pred@.inv(value),
        ensures
            gates.0.share() == gates.1.share(),
            gates.0.share().pred() == pred@,
            call_ensures(RwLock::<V, P>::new, (value, pred), *gates.0.share()),
            gates.0.found() == Seq::<V>::empty(),
            gates.1.found() == Seq::<V>::empty(),
    {
        let shared = Arc::new(RwLock::new(value, pred));
        (
            Gate { shared: shared.clone(), found: Ghost(Seq::empty()) },
            Gate { shared, found: Ghost(Seq::empty()) },
        )
    }

    /// Takes the value for a guest, whose turn is in no record.
    pub fn welcome(&self) -> (turn: (V, WriteHandle<'_, V, P>))
        ensures
            call_ensures(RwLock::<V, P>::acquire_write, (&*self.share(),), turn),
            self.share().inv(turn.0),
            turn.1.rwlock() == *self.share(),
    {
        self.shared.acquire_write()
    }
}

} // verus!

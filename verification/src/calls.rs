//! Asking a closure for items, with a record of what it has answered.

use vstd::prelude::*;

verus! {

/// What it takes to ask: only a record of calls can make one, so that no answer goes
/// unrecorded.
pub struct Leave {
    granted: (),
}

/// A type by another name. A bound on `Itself` is a bound on the type, but Rust does not take
/// it as a hint of how often a closure can be called.
pub trait Named {
    /// The type.
    type Itself;
}

impl<X> Named for X {
    type Itself = X;
}

/// What can be asked for items until there are no more: every closure that returns an
/// item or `None`. Who has nothing but a source can ask it only through [`Calls`], or call
/// it a single time and then has it no more.
pub trait Source<T>: Sized where <Self as Named>::Itself: FnOnce() -> Option<T> {
    /// Calls it once. What it may answer is taken to stay the same.
    fn ask(&mut self, leave: &Leave) -> (answer: Option<T>)
        requires
            old(self).requires(()),
        ensures
            old(self).ensures((), answer),
            *final(self) == *old(self),
    ;
}

impl<T, F: FnMut() -> Option<T>> Source<T> for F {
    fn ask(&mut self, leave: &Leave) -> (answer: Option<T>) {
        self()
    }
}

/// A source and the answers that it has given, in the order of the calls.
pub struct Calls<F, T> {
    source: F,
    answers: Ghost<Seq<Option<T>>>,
}

/// The answers that a source has given in all, in the order of the calls. It can be
/// asked no more.
pub struct Answers<F, T> {
    source: Ghost<F>,
    answers: Ghost<Seq<Option<T>>>,
}

impl<F, T> Answers<F, T> {
    /// What was asked.
    pub closed spec fn source(&self) -> F {
        self.source@
    }

    /// The answers.
    pub closed spec fn answers(&self) -> Seq<Option<T>> {
        self.answers@
    }
}

impl<F: Source<T>, T> Calls<F, T> where <F as Named>::Itself: FnOnce() -> Option<T> {
    /// What is asked.
    pub closed spec fn source(&self) -> F {
        self.source
    }

    /// The answers so far.
    pub closed spec fn answers(&self) -> Seq<Option<T>> {
        self.answers@
    }

    /// Takes over a source that has not been asked yet.
    pub fn new(source: F) -> (calls: Calls<F, T>)
        ensures
            calls.source() == source,
            calls.answers() == Seq::<Option<T>>::empty(),
    {
        Calls { source, answers: Ghost(Seq::empty()) }
    }

    /// Asks once, and records the answer.
    pub fn ask(&mut self) -> (answer: Option<T>)
        requires
            old(self).source().requires(()),
        ensures
            old(self).source().ensures((), answer),
            final(self).source() == old(self).source(),
            final(self).answers() == old(self).answers().push(answer),
    {
        let answer = self.source.ask(&Leave { granted: () });
        self.answers = Ghost(self.answers@.push(answer));
        answer
    }

    /// Asks no more.
    pub fn finish(self) -> (answers: Answers<F, T>)
        ensures
            answers.source() == self.source(),
            answers.answers() == self.answers(),
    {
        Answers { source: Ghost(self.source), answers: self.answers }
    }
}

} // verus!

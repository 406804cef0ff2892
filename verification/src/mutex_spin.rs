//! Locking a mutex: spinning first, then blocked.

use vstd::prelude::*;

verus! {

/// How many pause instructions a spinning thread executes before it tries to lock.
pub const LOCK_PAUSES: u32 = 5;

/// What came of an attempt to lock a mutex without blocking.
#[derive(Clone, Copy, Debug, PartialEq, Eq, Structural)]
pub enum TryLock {
    /// The mutex is locked.
    Acquired,
    /// Another thread has locked it.
    WouldBlock,
    /// The mutex is poisoned.
    Poisoned,
}

/// What a thread that locks a mutex does next.
#[derive(Clone, Copy, Debug, PartialEq, Eq, Structural)]
pub enum LockAction {
    /// Pause, then try to lock without blocking.
    Try,
    /// Lock, and block until that is done.
    Lock,
    /// Return the locked mutex.
    ReturnLocked,
    /// Return the poisoned mutex.
    ReturnPoisoned,
}

/// A trait to provide a customizable spin-first lock mechanism.
pub trait SpinFirst {
    /// The cycle counter when the locking began.
    spec fn start_cycles(&self) -> int;

    /// Attempts to lock the mutex with a spin loop for a specified number of CPU cycles, before
    /// falling back to a lock that blocks.
    ///
    /// # Parameters
    /// - `spin_cycles`: The number of CPU cycles to spin before falling back.
    /// - `attempt`: What came of the last attempt, if there was one.
    /// - `now`: What the cycle counter reads.
    fn spin_first_lock(&self, spin_cycles: u64, attempt: Option<TryLock>, now: u64) -> (action:
        LockAction)
        ensures
            action == (match attempt {
                Some(TryLock::Acquired) => LockAction::ReturnLocked,
                Some(TryLock::Poisoned) => LockAction::ReturnPoisoned,
                _ => if now < self.start_cycles() + spin_cycles {
                    LockAction::Try
                } else {
                    LockAction::Lock
                },
            }),
    ;
}

/// The locking of a mutex that began at a reading of the cycle counter.
pub struct Locking {
    /// The cycle counter when the locking began.
    pub start_cycles: u64,
}

impl SpinFirst for Locking {
    open spec fn start_cycles(&self) -> int {
        self.start_cycles as int
    }

    fn spin_first_lock(&self, spin_cycles: u64, attempt: Option<TryLock>, now: u64) -> (action:
        LockAction) {
        match attempt {
            Some(TryLock::Acquired) => LockAction::ReturnLocked,
            Some(TryLock::Poisoned) => LockAction::ReturnPoisoned,
            // The counters of two processors may differ.
            _ => if now < self.start_cycles || now - self.start_cycles < spin_cycles {
                LockAction::Try
            } else {
                LockAction::Lock
            },
        }
    }
}

} // verus!

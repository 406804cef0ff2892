//! Waiting for a condition: spinning first, then asleep.
//!
//! The decisions stand here. Reading the clock, locking and sleeping are up to the
//! thread that waits, which hands in what it has found and does what it is told.

use vstd::prelude::*;

verus! {

/// How many pause instructions a spinning thread executes between two checks.
pub const CHECK_PAUSES: u32 = 2;

/// A thread that waits for a condition.
pub struct Waiter {
    /// The cycle counter when the wait began.
    pub start: u64,
    /// The number of cycles to spin before sleeping.
    pub cycles: u64,
    /// Whether the thread has given up spinning and is counted as a sleeper.
    pub sleeping: bool,
}

/// What a waiting thread does next.
#[derive(Clone, Copy, Debug, PartialEq, Eq, Structural)]
pub enum WaitAction {
    /// The condition is met: the wait is over.
    Return,
    /// Pause, then check again.
    Pause,
    /// The spinning is over: lock and check again, now as a sleeper.
    FallAsleep,
    /// Sleep until woken, then check again.
    Sleep,
}

impl Waiter {
    /// A wait that begins when the cycle counter stands at `start`.
    pub fn new(start: u64, cycles: u64) -> (waiter: Waiter)
        ensures
            waiter == (Waiter { start, cycles, sleeping: false }),
    {
        Waiter { start, cycles, sleeping: false }
    }

    /// What the thread does next: it returns as soon as the condition is met, sleeps
    /// on where it sleeps, and falls asleep once it has spun for more cycles than it
    /// may and need not stay awake.
    pub open spec fn next_action(
        &self,
        condition: bool,
        no_sleep_condition: bool,
        now: u64,
    ) -> WaitAction {
        if condition {
            WaitAction::Return
        } else if self.sleeping {
            WaitAction::Sleep
        } else if !no_sleep_condition && now > self.start + self.cycles {
            WaitAction::FallAsleep
        } else {
            WaitAction::Pause
        }
    }
}

/// Spins for a given number of cycles checking a condition, then sleeps if the condition is not met.
///
/// # Parameters
/// - `waiter`: The thread that waits.
/// - `condition`: Whether the condition is met.
/// - `no_sleep_condition`: Whether to never fall asleep and just keep spinning.
/// - `now`: What the cycle counter reads.
/// - `num_sleepers`: The count of sleeping threads, which wraps around.
pub fn check_and_sleep(
    waiter: &mut Waiter,
    condition: bool,
    no_sleep_condition: bool,
    now: u64,
    num_sleepers: &mut usize,
) -> (action: WaitAction)
    ensures
        action == old(waiter).next_action(condition, no_sleep_condition, now),
        final(waiter).start == old(waiter).start,
        final(waiter).cycles == old(waiter).cycles,
        final(waiter).sleeping == (action is FallAsleep || action is Sleep),
        *final(num_sleepers) == (if action is FallAsleep {
            old(num_sleepers).wrapping_add(1)
        } else if action is Return && old(waiter).sleeping {
            old(num_sleepers).wrapping_sub(1)
        } else {
            *old(num_sleepers)
        }),
{
    if condition {
        if waiter.sleeping {
            *num_sleepers = num_sleepers.wrapping_sub(1);
            waiter.sleeping = false;
        }
        return WaitAction::Return;
    }
    if waiter.sleeping {
        return WaitAction::Sleep;
    }
    if !no_sleep_condition && now > waiter.start && now - waiter.start > waiter.cycles {
        *num_sleepers = num_sleepers.wrapping_add(1);
        waiter.sleeping = true;
        return WaitAction::FallAsleep;
    }
    WaitAction::Pause
}

/// The number of pauses in the next turn of a loop with a growing delay: twice as
/// many as in the last turn, and one again when there would be 32 or more.
pub fn next_pauses(npauses: u32) -> (next: u32)
    requires
        npauses < 32,
    ensures
        next == (if npauses == 0 {
            2
        } else if npauses >= 16 {
            1
        } else {
            2 * npauses as int
        }),
        1 <= next < 32,
{
    let last: u32 = if npauses < 1 {
        1
    } else {
        npauses
    };
    let next: u32 = 2 * last;
    if next >= 32 {
        1
    } else {
        next
    }
}

} // verus!

use ringbuf::async_wrap::{AsyncCons, AsyncProd};
use ringbuf::mutex_spin::{LockAction, Locking, SpinFirst, TryLock};
use ringbuf::sync_spin::{check_and_sleep, next_pauses, WaitAction, Waiter};

#[test]
fn a_condition_that_is_met_ends_the_wait() {
    let mut waiter = Waiter::new(100, 50);
    let mut sleepers = 4;
    assert_eq!(check_and_sleep(&mut waiter, true, false, 1000, &mut sleepers), WaitAction::Return);
    assert_eq!(sleepers, 4);
}

#[test]
fn a_thread_spins_then_sleeps_then_returns() {
    let mut waiter = Waiter::new(100, 50);
    let mut sleepers = 4;
    assert_eq!(check_and_sleep(&mut waiter, false, false, 150, &mut sleepers), WaitAction::Pause);
    assert_eq!(sleepers, 4);
    let action = check_and_sleep(&mut waiter, false, false, 151, &mut sleepers);
    assert_eq!(action, WaitAction::FallAsleep);
    assert_eq!(sleepers, 5);
    assert!(waiter.sleeping);
    assert_eq!(check_and_sleep(&mut waiter, false, true, 152, &mut sleepers), WaitAction::Sleep);
    assert_eq!(sleepers, 5);
    assert_eq!(check_and_sleep(&mut waiter, true, false, 153, &mut sleepers), WaitAction::Return);
    assert_eq!(sleepers, 4);
    assert!(!waiter.sleeping);
}

#[test]
fn a_thread_that_is_to_stay_awake_spins_on() {
    let mut waiter = Waiter::new(100, 50);
    let mut sleepers = 0;
    for now in 0..1000 {
        let action = check_and_sleep(&mut waiter, false, true, now, &mut sleepers);
        assert_eq!(action, WaitAction::Pause);
    }
    assert_eq!(sleepers, 0);
}

#[test]
fn the_count_of_sleepers_wraps_around() {
    let mut waiter = Waiter::new(0, 0);
    let mut sleepers = usize::MAX;
    check_and_sleep(&mut waiter, false, false, 1, &mut sleepers);
    assert_eq!(sleepers, 0);
    check_and_sleep(&mut waiter, true, false, 1, &mut sleepers);
    assert_eq!(sleepers, usize::MAX);
}

#[test]
fn pauses_double_up_to_a_limit() {
    let mut pauses = 0;
    let mut seen = Vec::new();
    for _ in 0..7 {
        pauses = next_pauses(pauses);
        seen.push(pauses);
    }
    assert_eq!(seen, vec![2, 4, 8, 16, 1, 2, 4]);
}

#[test]
fn a_lock_is_tried_until_the_cycles_are_spent() {
    let locking = Locking { start_cycles: 100 };
    assert_eq!(locking.spin_first_lock(10, None, 109), LockAction::Try);
    let blocked = Some(TryLock::WouldBlock);
    assert_eq!(locking.spin_first_lock(10, blocked, 109), LockAction::Try);
    assert_eq!(locking.spin_first_lock(10, blocked, 110), LockAction::Lock);
    assert_eq!(locking.spin_first_lock(0, None, 100), LockAction::Lock);
}

#[test]
fn an_attempt_that_settles_the_matter_is_returned() {
    let locking = Locking { start_cycles: 100 };
    let acquired = Some(TryLock::Acquired);
    assert_eq!(locking.spin_first_lock(10, acquired, 500), LockAction::ReturnLocked);
    let poisoned = Some(TryLock::Poisoned);
    assert_eq!(locking.spin_first_lock(10, poisoned, 500), LockAction::ReturnPoisoned);
}

#[test]
fn an_async_end_holds_its_reference() {
    let mut end = AsyncProd::<String>::new(String::from("ring"));
    assert_eq!(end.rb_ref(), "ring");
    assert_eq!(end.observe().rb_ref(), "ring");
    assert_eq!(end.base().rb_ref(), "ring");
    *end.base_mut() = ringbuf::async_wrap::Caching::new(String::from("other"));
    assert_eq!(end.into_rb_ref(), "other");
    let end = AsyncCons::<u32>::new(7);
    assert_eq!(end.into_rb_ref(), 7);
}

#[test]
fn a_lock_may_be_tried_for_any_number_of_cycles() {
    let locking = Locking { start_cycles: 100 };
    assert_eq!(locking.spin_first_lock(u64::MAX, None, 100), LockAction::Try);
    assert_eq!(locking.spin_first_lock(u64::MAX, None, u64::MAX), LockAction::Try);
    assert_eq!(locking.spin_first_lock(10, None, 99), LockAction::Try);
    let acquired = Some(TryLock::Acquired);
    assert_eq!(locking.spin_first_lock(u64::MAX, acquired, 101), LockAction::ReturnLocked);
}

#[test]
fn a_thread_may_spin_for_any_number_of_cycles() {
    let mut waiter = Waiter::new(100, u64::MAX);
    let mut sleepers = 0;
    let action = check_and_sleep(&mut waiter, false, false, u64::MAX, &mut sleepers);
    assert_eq!(action, WaitAction::Pause);
    let action = check_and_sleep(&mut waiter, false, false, 5, &mut sleepers);
    assert_eq!(action, WaitAction::Pause);
    assert_eq!(sleepers, 0);
}

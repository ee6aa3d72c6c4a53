use vauth::lockout::LockoutTracker;

const SEC: u64 = 1_000_000_000;
const NS: u128 = 1_000_000_000;

#[test]
fn five_failures_lock_out_for_five_minutes() {
    let mut t = LockoutTracker::new(5, 300);
    for i in 0..4 {
        t.record_failure_at(i * SEC);
        assert_eq!(t.check_locked_at(i * SEC), None);
    }
    t.record_failure_at(10 * SEC);
    assert_eq!(t.consecutive_failures(), 5);
    assert_eq!(t.check_locked_at(10 * SEC), Some(300 * NS));
    assert_eq!(t.check_locked_at(11 * SEC), Some(299 * NS));
    assert_eq!(t.check_locked_at(310 * SEC - 1), Some(1));
    assert_eq!(t.check_locked_at(310 * SEC), None);
}

#[test]
fn success_clears_lockout_and_count() {
    let mut t = LockoutTracker::new(2, 60);
    t.record_failure_at(0);
    t.record_failure_at(1);
    assert!(t.check_locked_at(2).is_some());
    t.record_success();
    assert_eq!(t.consecutive_failures(), 0);
    assert_eq!(t.check_locked_at(2), None);
    t.record_failure_at(3);
    assert_eq!(t.check_locked_at(4), None);
}

#[test]
fn further_failures_restart_the_lockout() {
    let mut t = LockoutTracker::new(1, 10);
    t.record_failure_at(0);
    assert_eq!(t.check_locked_at(5 * SEC), Some(5 * NS));
    t.record_failure_at(8 * SEC);
    assert_eq!(t.check_locked_at(9 * SEC), Some(9 * NS));
}

#[test]
fn zero_threshold_locks_on_first_failure() {
    let mut t = LockoutTracker::new(0, 1);
    assert_eq!(t.check_locked_at(0), None);
    t.record_failure_at(0);
    assert_eq!(t.check_locked_at(0), Some(NS));
}

#[test]
fn huge_lockout_is_exact() {
    let mut t = LockoutTracker::new(1, u64::MAX);
    t.record_failure_at(7);
    assert_eq!(t.check_locked_at(7), Some(u64::MAX as u128 * NS));
    assert_eq!(t.check_locked_at(u64::MAX), Some(u64::MAX as u128 * NS + 7 - u64::MAX as u128));
}

#[test]
fn clock_based_methods_agree() {
    let mut t = LockoutTracker::new(1, 3600);
    assert_eq!(t.check_locked(), None);
    t.record_failure();
    let r = t.check_locked().expect("locked");
    assert!(r <= 3600 * NS && r > 3500 * NS);
    t.record_success();
    assert_eq!(t.check_locked(), None);
}

use mtime::usage::{usage_delta, RUsage};

#[test]
fn timevals_become_microseconds() {
    let u = RUsage::from_timevals(2, 500_000, 0, 42).unwrap();
    assert_eq!(u.user_tv_usec, 2_500_000);
    assert_eq!(u.system_tv_usec, 42);
}

#[test]
fn timevals_that_do_not_fit_are_refused() {
    assert_eq!(RUsage::from_timevals(i64::MAX, 0, 0, 0), None);
    assert_eq!(RUsage::from_timevals(0, 0, i64::MIN, 0), None);
}

#[test]
fn delta_between_snapshots() {
    let a = RUsage { user_tv_usec: 100, system_tv_usec: 50 };
    let b = RUsage { user_tv_usec: 160, system_tv_usec: 75 };
    assert_eq!(usage_delta(&a, &b), Some(RUsage { user_tv_usec: 60, system_tv_usec: 25 }));
    assert_eq!(usage_delta(&b, &a), None);
}

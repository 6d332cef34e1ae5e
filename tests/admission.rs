use parallel::admission::{next_backoff, Admission};

#[test]
fn ceiling_bounds_running_jobs() {
    let mut a = Admission::new(2, None);
    assert!(a.try_admit(0));
    assert!(a.try_admit(0));
    assert!(!a.try_admit(0));
    assert_eq!(a.running_jobs(), 2);
    a.release();
    assert!(a.try_admit(0));
}

#[test]
fn memory_floor_blocks_until_it_clears() {
    let mut a = Admission::new(4, Some(1000));
    for _ in 0..50 {
        assert!(!a.try_admit(999));
    }
    assert_eq!(a.running_jobs(), 0);
    assert!(a.try_admit(1000));
    assert_eq!(a.running_jobs(), 1);
}

#[test]
fn zero_ceiling_admits_nothing() {
    let mut a = Admission::new(0, None);
    assert!(!a.try_admit(u64::MAX));
}

#[test]
fn backoff_doubles_up_to_the_bound() {
    assert_eq!(next_backoff(0, 100), 1);
    assert_eq!(next_backoff(1, 100), 2);
    assert_eq!(next_backoff(40, 100), 80);
    assert_eq!(next_backoff(80, 100), 100);
    assert_eq!(next_backoff(100, 100), 100);
    assert_eq!(next_backoff(u64::MAX, u64::MAX), u64::MAX);
    assert_eq!(next_backoff(0, 0), 0);
}

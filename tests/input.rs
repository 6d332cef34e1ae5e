use parallel::input::{estimate_remaining, Claim, InputsLock};

fn records(n: usize) -> Vec<String> {
    (0..n).map(|i| format!("r{}", i)).collect()
}

/// Claims round-robin for `workers` workers, each asking for `batch` records.
fn run_claims(n: usize, workers: usize, batch: usize) -> Vec<(usize, String)> {
    let mut lock = InputsLock::new(records(n));
    let mut got = Vec::new();
    let mut done = vec![false; workers];
    while done.iter().any(|d| !d) {
        for w in 0..workers {
            if done[w] {
                continue;
            }
            match lock.next_batch(batch) {
                Claim::Batch(start, recs) => {
                    for (k, r) in recs.into_iter().enumerate() {
                        got.push((start + k, r));
                    }
                }
                Claim::Exhausted => done[w] = true,
                Claim::Wait => panic!("a closed source never waits"),
            }
        }
    }
    got
}

#[test]
fn every_record_claimed_once_for_any_worker_count() {
    for workers in [1usize, 4, 64] {
        for batch in [1usize, 3] {
            let got = run_claims(100, workers, batch);
            assert_eq!(got.len(), 100);
            for (i, (seq, r)) in got.iter().enumerate() {
                assert_eq!(*seq, i);
                assert_eq!(r, &format!("r{}", i));
            }
        }
    }
}

#[test]
fn batch_is_cut_at_the_end() {
    let mut lock = InputsLock::new(records(5));
    match lock.next_batch(4) {
        Claim::Batch(0, v) => assert_eq!(v, vec!["r0", "r1", "r2", "r3"]),
        other => panic!("unexpected {:?}", other),
    }
    match lock.next_batch(4) {
        Claim::Batch(4, v) => assert_eq!(v, vec!["r4"]),
        other => panic!("unexpected {:?}", other),
    }
    assert!(matches!(lock.next_batch(4), Claim::Exhausted));
    assert_eq!(lock.claimed(), 5);
}

#[test]
fn empty_input_is_exhausted() {
    let mut lock = InputsLock::new(Vec::new());
    assert!(matches!(lock.next_batch(1), Claim::Exhausted));
    assert_eq!(lock.total(), Some(0));
}

#[test]
fn streaming_source_waits_until_closed() {
    let mut lock = InputsLock::streaming();
    assert_eq!(lock.total(), None);
    assert!(matches!(lock.next_batch(2), Claim::Wait));
    lock.push("a".to_string());
    match lock.next_batch(2) {
        Claim::Batch(0, v) => assert_eq!(v, vec!["a"]),
        other => panic!("unexpected {:?}", other),
    }
    assert!(matches!(lock.next_batch(2), Claim::Wait));
    lock.close();
    assert!(matches!(lock.next_batch(2), Claim::Exhausted));
    assert_eq!(lock.total(), Some(1));
}

#[test]
fn eta_from_rate() {
    assert_eq!(estimate_remaining(2, Some(10), 6), Some(24));
    assert_eq!(estimate_remaining(10, Some(10), 50), Some(0));
    assert_eq!(estimate_remaining(0, Some(10), 5), None);
    assert_eq!(estimate_remaining(3, None, 5), None);
    assert_eq!(estimate_remaining(1, Some(u64::MAX), u64::MAX), Some(u64::MAX));
    let mut lock = InputsLock::new(records(4));
    let _ = lock.next_batch(1);
    assert_eq!(lock.eta(10), Some(30));
    let mut s = InputsLock::streaming();
    s.push("x".to_string());
    let _ = s.next_batch(1);
    assert_eq!(s.eta(10), None);
}

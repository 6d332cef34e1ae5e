use parallel::job_log::{success_seq, LogEntry, Resume};
use parallel::supervisor::JobStatus;

fn entry(seq: u64, status: JobStatus) -> LogEntry {
    LogEntry { seq, status, start: 100 + seq, end: 205, command: format!("echo {}", seq) }
}

#[test]
fn entry_line_format() {
    assert_eq!(entry(7, JobStatus::Success).to_line(), "7\tsuccess\t107\t205\techo 7\n");
    assert_eq!(entry(0, JobStatus::Failure(2)).to_line(), "0\tfailure\t100\t205\techo 0\n");
    assert_eq!(entry(12, JobStatus::TimedOut).to_line(), "12\ttimeout\t112\t205\techo 12\n");
}

#[test]
fn success_lines_read_back() {
    assert_eq!(success_seq(&entry(42, JobStatus::Success).to_line()), Some(42));
    assert_eq!(success_seq(&entry(42, JobStatus::Failure(1)).to_line()), None);
    assert_eq!(success_seq("18446744073709551615\tsuccess\t"), Some(u64::MAX));
    assert_eq!(success_seq("18446744073709551616\tsuccess\t"), None);
    assert_eq!(success_seq("\tsuccess\t"), None);
    assert_eq!(success_seq("5\tsuccess"), None);
    assert_eq!(success_seq("x5\tsuccess\t"), None);
}

#[test]
fn resume_skips_logged_successes() {
    let lines: Vec<String> = vec![
        entry(1, JobStatus::Success).to_line(),
        entry(2, JobStatus::Success).to_line(),
        entry(3, JobStatus::SpawnError).to_line(),
    ];
    let r = Resume::from_log(&lines);
    let rerun: Vec<u64> = (1..=5).filter(|&s| r.should_run(s)).collect();
    assert_eq!(rerun, vec![3, 4, 5]);
    let fresh = Resume::fresh();
    assert!((1..=5).all(|s| fresh.should_run(s)));
}

//! Decisions of the per-job supervisor: when to signal or kill a job, and
//! what its final status is.

use vstd::prelude::*;

verus! {

/// How a child process ended, as the operating system reported it.
#[derive(Debug, Clone, Copy, PartialEq, Eq, Structural)]
pub enum Outcome {
    /// The executable could not be started at all.
    NotStarted,
    /// The process exited with this code.
    Exited(i32),
    /// The process was ended by this signal.
    Killed(i32),
}

/// The final status of a job.
#[derive(Debug, Clone, Copy, PartialEq, Eq, Structural)]
pub enum JobStatus {
    Success,
    Failure(i32),
    Signaled(i32),
    TimedOut,
    SpawnError,
    /// Reading the job's output failed; what was captured is kept.
    OutputError,
}

/// What the supervisor does next with a running job.
#[derive(Debug, Clone, Copy, PartialEq, Eq, Structural)]
pub enum KillAction {
    /// Let it run.
    Wait,
    /// Send the termination signal to its process group.
    Terminate,
    /// Force-kill its process group.
    Kill,
}

/// The status of a job from how it ended, whether its timeout expired and
/// whether reading its output failed. A job whose timeout expired is timed
/// out whatever its own exit code.
pub open spec fn status_of(outcome: Outcome, timed_out: bool, capture_failed: bool) -> JobStatus {
    match outcome {
        Outcome::NotStarted => JobStatus::SpawnError,
        _ => if timed_out {
            JobStatus::TimedOut
        } else if capture_failed {
            JobStatus::OutputError
        } else {
            match outcome {
                Outcome::Exited(c) => if c == 0 {
                    JobStatus::Success
                } else {
                    JobStatus::Failure(c)
                },
                Outcome::Killed(s) => JobStatus::Signaled(s),
                Outcome::NotStarted => JobStatus::SpawnError,
            }
        },
    }
}

/// Classifies a finished job.
pub fn classify(outcome: Outcome, timed_out: bool, capture_failed: bool) -> (r: JobStatus)
    ensures
        r == status_of(outcome, timed_out, capture_failed),
{
    match outcome {
        Outcome::NotStarted => JobStatus::SpawnError,
        Outcome::Exited(c) => {
            if timed_out {
                JobStatus::TimedOut
            } else if capture_failed {
                JobStatus::OutputError
            } else if c == 0 {
                JobStatus::Success
            } else {
                JobStatus::Failure(c)
            }
        },
        Outcome::Killed(s) => {
            if timed_out {
                JobStatus::TimedOut
            } else if capture_failed {
                JobStatus::OutputError
            } else {
                JobStatus::Signaled(s)
            }
        },
    }
}

/// What to do with a running job at time `elapsed` since its start: signal
/// it once its timeout has expired or a shutdown was requested, and force-kill
/// it once the grace interval after that signal has passed.
pub open spec fn kill_step_of(
    timeout: Option<u64>,
    grace: u64,
    elapsed: u64,
    signalled_at: Option<u64>,
    shutdown: bool,
) -> KillAction {
    match signalled_at {
        Some(s) => if elapsed as int >= s as int + grace as int {
            KillAction::Kill
        } else {
            KillAction::Wait
        },
        None => if shutdown || (timeout is Some && elapsed >= timeout.unwrap()) {
            KillAction::Terminate
        } else {
            KillAction::Wait
        },
    }
}

/// The supervisor's decision for a running job; `signalled_at` is when the
/// termination signal was sent, if it was.
pub fn kill_step(
    timeout: Option<u64>,
    grace: u64,
    elapsed: u64,
    signalled_at: Option<u64>,
    shutdown: bool,
) -> (r: KillAction)
    ensures
        r == kill_step_of(timeout, grace, elapsed, signalled_at, shutdown),
{
    match signalled_at {
        Some(s) => {
            if elapsed >= s && elapsed - s >= grace {
                KillAction::Kill
            } else {
                KillAction::Wait
            }
        },
        None => {
            let expired = match timeout {
                Some(t) => elapsed >= t,
                None => false,
            };
            if shutdown || expired {
                KillAction::Terminate
            } else {
                KillAction::Wait
            }
        },
    }
}

/// A job is never left running past its timeout: it is signalled as soon as
/// the timeout expires, force-killed once the grace interval after that has
/// passed, and then reported as timed out, whatever its own exit.
pub proof fn lemma_timeout_enforced(t: u64, grace: u64, e: u64, later: u64, outcome: Outcome, capture_failed: bool)
    requires
        e >= t,
        later as int >= e as int + grace as int,
        !(outcome is NotStarted),
    ensures
        kill_step_of(Some(t), grace, e, None, false) == KillAction::Terminate,
        kill_step_of(Some(t), grace, later, Some(e), false) == KillAction::Kill,
        status_of(outcome, true, capture_failed) == JobStatus::TimedOut,
{
}

/// Whether every status in the list is a success.
pub open spec fn all_succeeded(statuses: Seq<JobStatus>) -> bool {
    forall|i: int| 0 <= i < statuses.len() ==> statuses[i] == JobStatus::Success
}

/// The exit code of the whole run: 0 if every job succeeded, 1 otherwise.
pub fn run_exit_code(statuses: &Vec<JobStatus>) -> (r: i32)
    ensures
        r == (if all_succeeded(statuses@) { 0i32 } else { 1i32 }),
{
    let mut i: usize = 0;
    while i < statuses.len()
        invariant
            i <= statuses.len(),
            all_succeeded(statuses@.subrange(0, i as int)),
        decreases statuses.len() - i,
    {
        if statuses[i] != JobStatus::Success {
            assert(!all_succeeded(statuses@)) by {
                assert(statuses@[i as int] != JobStatus::Success);
            }
            return 1;
        }
        assert(all_succeeded(statuses@.subrange(0, i + 1))) by {
            assert forall|j: int| 0 <= j < i + 1 implies #[trigger] statuses@.subrange(0, i + 1)[j] == JobStatus::Success by {
                if j < i {
                    assert(statuses@.subrange(0, i + 1)[j] == statuses@.subrange(0, i as int)[j]);
                }
            }
        }
        i = i + 1;
    }
    assert(statuses@.subrange(0, i as int) =~= statuses@);
    0
}

} // verus!

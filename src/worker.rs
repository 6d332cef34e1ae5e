//! The state machine of one worker slot. The caller performs each action and
//! reports what came of it as the next event.

use vstd::prelude::*;

verus! {

/// Where a worker slot stands.
#[derive(Debug, Clone, Copy, PartialEq, Eq, Structural)]
pub enum SlotState {
    Idle,
    Admitting,
    Claiming,
    Building,
    Running,
    Finalizing,
    Retired,
}

/// What came of the last action.
#[derive(Debug, Clone, Copy, PartialEq, Eq, Structural)]
pub enum Event {
    /// The slot is ready for its next step.
    Ready,
    /// The admission controller answered.
    Admitted(bool),
    /// A record was claimed.
    Claimed,
    /// Nothing to claim yet; more may come.
    NothingYet,
    /// The input is exhausted.
    Exhausted,
    /// The command was built, or could not be.
    Built(bool),
    /// The job finished, in whatever way.
    Finished,
    /// The job's result was logged and reported.
    Recorded,
}

/// What the caller does next.
#[derive(Debug, Clone, Copy, PartialEq, Eq, Structural)]
pub enum Action {
    /// Ask the admission controller for a slot.
    Admit,
    /// Wait a backoff interval, then ask for admission again.
    BackOffAdmit,
    /// Claim the next record from the input.
    Claim,
    /// Wait a backoff interval, then claim again.
    BackOffClaim,
    /// Build the command for the claimed record.
    Build,
    /// Spawn and supervise the job.
    Spawn,
    /// Append the job's result to the job log, then hand it to the collector.
    Record,
    /// Give back the admission slot and carry on.
    Release,
    /// Give back the admission slot and stop.
    ReleaseAndStop,
    /// Stop; no slot is held.
    Stop,
    /// The event does not apply in this state: nothing to do.
    Ignore,
}

/// The transition of a slot on an event, given whether a shutdown was
/// requested. Once shut down, a slot claims nothing new, but a running job is
/// carried through to its record.
pub open spec fn step_of(s: SlotState, e: Event, shutdown: bool) -> (SlotState, Action) {
    match (s, e) {
        (SlotState::Idle, Event::Ready) => if shutdown {
            (SlotState::Retired, Action::Stop)
        } else {
            (SlotState::Admitting, Action::Admit)
        },
        (SlotState::Admitting, Event::Admitted(ok)) => if shutdown {
            (SlotState::Retired, if ok { Action::ReleaseAndStop } else { Action::Stop })
        } else if ok {
            (SlotState::Claiming, Action::Claim)
        } else {
            (SlotState::Admitting, Action::BackOffAdmit)
        },
        (SlotState::Claiming, Event::Claimed) => if shutdown {
            (SlotState::Retired, Action::ReleaseAndStop)
        } else {
            (SlotState::Building, Action::Build)
        },
        (SlotState::Claiming, Event::NothingYet) => if shutdown {
            (SlotState::Retired, Action::ReleaseAndStop)
        } else {
            (SlotState::Claiming, Action::BackOffClaim)
        },
        (SlotState::Claiming, Event::Exhausted) => (SlotState::Retired, Action::ReleaseAndStop),
        (SlotState::Building, Event::Built(ok)) => if shutdown {
            (SlotState::Retired, Action::ReleaseAndStop)
        } else if ok {
            (SlotState::Running, Action::Spawn)
        } else {
            (SlotState::Finalizing, Action::Record)
        },
        (SlotState::Running, Event::Finished) => (SlotState::Finalizing, Action::Record),
        (SlotState::Finalizing, Event::Recorded) => if shutdown {
            (SlotState::Retired, Action::ReleaseAndStop)
        } else {
            (SlotState::Idle, Action::Release)
        },
        _ => (s, Action::Ignore),
    }
}

/// One step of a worker slot.
pub fn step(s: SlotState, e: Event, shutdown: bool) -> (r: (SlotState, Action))
    ensures
        r == step_of(s, e, shutdown),
{
    match s {
        SlotState::Idle => match e {
            Event::Ready => if shutdown {
                (SlotState::Retired, Action::Stop)
            } else {
                (SlotState::Admitting, Action::Admit)
            },
            _ => (s, Action::Ignore),
        },
        SlotState::Admitting => match e {
            Event::Admitted(ok) => {
                if shutdown {
                    (SlotState::Retired, if ok { Action::ReleaseAndStop } else { Action::Stop })
                } else if ok {
                    (SlotState::Claiming, Action::Claim)
                } else {
                    (SlotState::Admitting, Action::BackOffAdmit)
                }
            },
            _ => (s, Action::Ignore),
        },
        SlotState::Claiming => match e {
            Event::Claimed => if shutdown {
                (SlotState::Retired, Action::ReleaseAndStop)
            } else {
                (SlotState::Building, Action::Build)
            },
            Event::NothingYet => if shutdown {
                (SlotState::Retired, Action::ReleaseAndStop)
            } else {
                (SlotState::Claiming, Action::BackOffClaim)
            },
            Event::Exhausted => (SlotState::Retired, Action::ReleaseAndStop),
            _ => (s, Action::Ignore),
        },
        SlotState::Building => match e {
            Event::Built(ok) => {
                if shutdown {
                    (SlotState::Retired, Action::ReleaseAndStop)
                } else if ok {
                    (SlotState::Running, Action::Spawn)
                } else {
                    (SlotState::Finalizing, Action::Record)
                }
            },
            _ => (s, Action::Ignore),
        },
        SlotState::Running => match e {
            Event::Finished => (SlotState::Finalizing, Action::Record),
            _ => (s, Action::Ignore),
        },
        SlotState::Finalizing => match e {
            Event::Recorded => if shutdown {
                (SlotState::Retired, Action::ReleaseAndStop)
            } else {
                (SlotState::Idle, Action::Release)
            },
            _ => (s, Action::Ignore),
        },
        SlotState::Retired => (s, Action::Ignore),
    }
}

/// Whether a slot in this state holds an admission slot.
pub open spec fn holds_slot(s: SlotState) -> bool {
    match s {
        SlotState::Claiming | SlotState::Building | SlotState::Running | SlotState::Finalizing => true,
        _ => false,
    }
}

/// Whether an action gives back the admission slot.
pub open spec fn releases(a: Action) -> bool {
    a == Action::Release || a == Action::ReleaseAndStop
}

/// After a shutdown request no slot claims, builds or spawns anything new:
/// every step either retires the slot or carries an in-flight job on to its
/// record. A running job is not cut short by the step itself; and a job is
/// recorded only once it has finished, or failed to build.
pub proof fn lemma_shutdown_stops_claims(s: SlotState, e: Event)
    ensures
        ({
            let (n, a) = step_of(s, e, true);
            &&& a != Action::Claim && a != Action::BackOffClaim && a != Action::Build
            &&& a != Action::Spawn && a != Action::Admit && a != Action::BackOffAdmit
            &&& n != s ==> (n == SlotState::Retired || (s == SlotState::Running && n
                == SlotState::Finalizing))
            &&& n == s ==> (a == Action::Ignore || a == Action::Stop)
        }),
        step_of(SlotState::Running, Event::Finished, true) == (SlotState::Finalizing, Action::Record),
        forall|sh: bool|
            #[trigger] step_of(s, e, sh).1 == Action::Record ==> (s == SlotState::Running && e == Event::Finished)
                || (s == SlotState::Building && e == Event::Built(false) && !sh),
{
}

/// A slot never leaks or double-frees its admission slot: a step releases it
/// exactly when the slot held one and no longer does.
pub proof fn lemma_slot_accounting(s: SlotState, e: Event, shutdown: bool)
    ensures
        ({
            let (n, a) = step_of(s, e, shutdown);
            &&& (s == SlotState::Admitting && e == Event::Admitted(true)) ==> (holds_slot(n) || releases(a))
            &&& releases(a) ==> holds_slot(s) || (s == SlotState::Admitting && e == Event::Admitted(true))
            &&& !(s == SlotState::Admitting && e == Event::Admitted(true)) ==> (holds_slot(s) == (holds_slot(n)
                || releases(a)))
        }),
{
}

} // verus!

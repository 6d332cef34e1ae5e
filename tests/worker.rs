use parallel::worker::{step, Action, Event, SlotState};

#[test]
fn a_full_job_cycle() {
    let (s, a) = step(SlotState::Idle, Event::Ready, false);
    assert_eq!((s, a), (SlotState::Admitting, Action::Admit));
    let (s, a) = step(s, Event::Admitted(false), false);
    assert_eq!((s, a), (SlotState::Admitting, Action::BackOffAdmit));
    let (s, a) = step(s, Event::Admitted(true), false);
    assert_eq!((s, a), (SlotState::Claiming, Action::Claim));
    let (s, a) = step(s, Event::NothingYet, false);
    assert_eq!((s, a), (SlotState::Claiming, Action::BackOffClaim));
    let (s, a) = step(s, Event::Claimed, false);
    assert_eq!((s, a), (SlotState::Building, Action::Build));
    let (s, a) = step(s, Event::Built(true), false);
    assert_eq!((s, a), (SlotState::Running, Action::Spawn));
    let (s, a) = step(s, Event::Finished, false);
    assert_eq!((s, a), (SlotState::Finalizing, Action::Record));
    let (s, a) = step(s, Event::Recorded, false);
    assert_eq!((s, a), (SlotState::Idle, Action::Release));
}

#[test]
fn build_failure_skips_running() {
    assert_eq!(step(SlotState::Building, Event::Built(false), false), (SlotState::Finalizing, Action::Record));
}

#[test]
fn exhaustion_retires_the_slot() {
    assert_eq!(step(SlotState::Claiming, Event::Exhausted, false), (SlotState::Retired, Action::ReleaseAndStop));
}

#[test]
fn shutdown_mid_run_stops_claims_and_lets_jobs_finish() {
    assert_eq!(step(SlotState::Idle, Event::Ready, true), (SlotState::Retired, Action::Stop));
    assert_eq!(step(SlotState::Admitting, Event::Admitted(true), true), (SlotState::Retired, Action::ReleaseAndStop));
    assert_eq!(step(SlotState::Admitting, Event::Admitted(false), true), (SlotState::Retired, Action::Stop));
    assert_eq!(step(SlotState::Claiming, Event::Claimed, true), (SlotState::Retired, Action::ReleaseAndStop));
    assert_eq!(step(SlotState::Running, Event::Finished, true), (SlotState::Finalizing, Action::Record));
    assert_eq!(step(SlotState::Finalizing, Event::Recorded, true), (SlotState::Retired, Action::ReleaseAndStop));
    assert_eq!(step(SlotState::Retired, Event::Ready, true), (SlotState::Retired, Action::Ignore));
}

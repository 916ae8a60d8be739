use refuel::schedule::{calc_duration, jittered, Action, Event, Phase, Scheduler, INTERVAL_SECS};

#[test]
fn jitter_stays_within_ten_minutes_of_the_interval() {
    let mut rng = rand::thread_rng();
    let mut up = false;
    let mut down = false;
    for _ in 0..10_000 {
        let d = calc_duration(&mut rng, INTERVAL_SECS);
        assert!((600..=1800).contains(&d), "{}", d);
        up |= d > INTERVAL_SECS;
        down |= d < INTERVAL_SECS;
    }
    assert!(up && down);
}

#[test]
fn jitter_saturates() {
    assert_eq!(jittered(1200, 600, true), 1800);
    assert_eq!(jittered(1200, 600, false), 600);
    assert_eq!(jittered(100, 600, false), 0);
    assert_eq!(jittered(u64::MAX - 1, 600, true), u64::MAX);
}

#[test]
fn loop_runs_cycles_and_sleeps_between_them() {
    let mut s = Scheduler::new(false, false);
    assert_eq!(s.step(Event::Started), Action::Fetch);
    assert_eq!(s.step(Event::Fetched), Action::Extract);
    assert_eq!(s.step(Event::Extracted), Action::Persist);
    assert_eq!(s.step(Event::Persisted), Action::Sleep);
    assert_eq!(s.phase, Phase::Sleeping);
    assert_eq!(s.step(Event::Woke), Action::Fetch);
    assert_eq!(s.step(Event::FetchFailed), Action::Sleep);
    assert_eq!(s.step(Event::CancelRequested), Action::Exit);
    assert_eq!(s.phase, Phase::Cancelled);
    assert_eq!(s.step(Event::Woke), Action::Exit);
}

#[test]
fn cancellation_during_a_cycle_waits_for_its_end() {
    let mut s = Scheduler::new(false, false);
    s.step(Event::Started);
    s.step(Event::Fetched);
    assert_eq!(s.step(Event::CancelRequested), Action::Continue);
    assert_eq!(s.phase, Phase::Extracting);
    assert_eq!(s.step(Event::Extracted), Action::Persist);
    assert_eq!(s.step(Event::Persisted), Action::Exit);
    assert_eq!(s.phase, Phase::Cancelled);
}

#[test]
fn single_dry_run_extracts_once_and_persists_nothing() {
    let mut s = Scheduler::new(true, true);
    assert_eq!(s.step(Event::Started), Action::Fetch);
    assert_eq!(s.step(Event::Fetched), Action::Extract);
    assert_eq!(s.step(Event::Extracted), Action::Exit);
    assert_eq!(s.phase, Phase::Done);
}

#[test]
fn single_run_ends_after_a_failed_fetch() {
    let mut s = Scheduler::new(true, false);
    s.step(Event::Started);
    assert_eq!(s.step(Event::FetchFailed), Action::Exit);
    assert_eq!(s.phase, Phase::Done);
}

//! The polling scheduler: the jittered interval between cycles, and the
//! decisions of the cycle loop as a state machine driven by events.
//!
//! A cycle fetches a document, extracts its records and persists them; then
//! the scheduler sleeps before the next one. Cancellation is cooperative: it
//! ends the loop at once while sleeping, and otherwise lets the cycle in
//! flight finish first.

use vstd::prelude::*;
use rand::rngs::ThreadRng;
use rand::Rng;

verus! {

#[verifier::external_type_specification]
#[verifier::external_body]
pub struct ExThreadRng(ThreadRng);

/// The base interval between cycles, in seconds.
pub const INTERVAL_SECS: u64 = 1200;
/// The largest change that jitter makes to the interval, in seconds.
pub const MAX_JITTER_SECS: u64 = 600;

/// Relies on rand::Rng::gen_range, which draws from an inclusive range
/// `0..=max` (never empty) a value inside it.
#[verifier::external_body]
fn draw_up_to(rng: &mut ThreadRng, max: u64) -> (r: u64)
    ensures
        r <= max,
{
    rng.gen_range(0..=max)
}

/// Relies on rand::Rng::gen_ratio, true with probability
/// `numerator / denominator`: never when `numerator` is zero, always when it
/// equals `denominator`. It panics when `denominator` is zero or below
/// `numerator`.
#[verifier::external_body]
fn draw_ratio(rng: &mut ThreadRng, numerator: u32, denominator: u32) -> (r: bool)
    requires
        0 < denominator,
        numerator <= denominator,
    ensures
        numerator == 0 ==> !r,
        numerator == denominator ==> r,
{
    rng.gen_ratio(numerator, denominator)
}

/// `interval` moved by `offset`, up when `add` holds and down otherwise,
/// saturating at the bounds of `u64`.
pub open spec fn jitter(interval: int, offset: int, add: bool) -> int {
    if add {
        if interval + offset > u64::MAX {
            u64::MAX as int
        } else {
            interval + offset
        }
    } else {
        if interval - offset < 0 {
            0
        } else {
            interval - offset
        }
    }
}

/// `interval` moved by `offset` seconds, up or down, saturating.
pub fn jittered(interval: u64, offset: u64, add: bool) -> (r: u64)
    ensures
        r == jitter(interval as int, offset as int, add),
{
    if add {
        interval.saturating_add(offset)
    } else {
        interval.saturating_sub(offset)
    }
}

/// The sleep before the next cycle: `interval` moved by a uniformly drawn
/// offset of at most `MAX_JITTER_SECS`, up or down with even odds, never
/// below zero.
pub fn calc_duration(rng: &mut ThreadRng, interval: u64) -> (r: u64)
    ensures
        exists|offset: int, add: bool| 0 <= offset <= MAX_JITTER_SECS && r == jitter(interval as int, offset, add),
{
    let offset = draw_up_to(rng, MAX_JITTER_SECS);
    let add = draw_ratio(rng, 1, 2);
    let r = jittered(interval, offset, add);
    assert(0 <= offset <= MAX_JITTER_SECS && r == jitter(interval as int, offset as int, add));
    r
}

/// Every jittered sleep around the base interval lasts between ten and thirty
/// minutes.
pub proof fn lemma_jitter_bounds(offset: int, add: bool)
    requires
        0 <= offset <= MAX_JITTER_SECS,
    ensures
        600 <= jitter(INTERVAL_SECS as int, offset, add) <= 1800,
{
}

/// Where the loop stands.
#[derive(Debug, Clone, Copy, PartialEq, Eq)]
pub enum Phase {
    Idle,
    Fetching,
    Extracting,
    Persisting,
    Sleeping,
    /// The single cycle of a single run is over.
    Done,
    /// The loop was cancelled.
    Cancelled,
}

/// What happened since the last decision.
#[derive(Debug, Clone, Copy, PartialEq, Eq)]
pub enum Event {
    Started,
    Fetched,
    FetchFailed,
    Extracted,
    ExtractFailed,
    Persisted,
    Woke,
    CancelRequested,
}

/// What the loop does next.
#[derive(Debug, Clone, Copy, PartialEq, Eq)]
pub enum Action {
    Fetch,
    Extract,
    Persist,
    Sleep,
    /// Carry on with the work in flight.
    Continue,
    Exit,
}

/// The state of the loop: its phase, whether it runs a single cycle, whether
/// it persists nothing, and whether cancellation was asked for during the
/// cycle in flight.
#[derive(Debug, Clone, Copy, PartialEq, Eq)]
pub struct Scheduler {
    pub phase: Phase,
    pub single_run: bool,
    pub dry_run: bool,
    pub cancel_requested: bool,
}

/// The end of a cycle, whether it succeeded or failed: a single run is done;
/// otherwise the loop sleeps, unless cancellation was asked for meanwhile.
pub open spec fn end_of_cycle(s: Scheduler) -> (Scheduler, Action) {
    if s.single_run {
        (Scheduler { phase: Phase::Done, ..s }, Action::Exit)
    } else if s.cancel_requested {
        (Scheduler { phase: Phase::Cancelled, ..s }, Action::Exit)
    } else {
        (Scheduler { phase: Phase::Sleeping, ..s }, Action::Sleep)
    }
}

/// The decision taken on `e` in the state `s`: the next state and action.
pub open spec fn transition(s: Scheduler, e: Event) -> (Scheduler, Action) {
    match (s.phase, e) {
        (Phase::Done, _) | (Phase::Cancelled, _) => (s, Action::Exit),
        (Phase::Idle, Event::CancelRequested) | (Phase::Sleeping, Event::CancelRequested) => (
            Scheduler { phase: Phase::Cancelled, ..s },
            Action::Exit,
        ),
        (_, Event::CancelRequested) => (Scheduler { cancel_requested: true, ..s }, Action::Continue),
        (Phase::Idle, Event::Started) | (Phase::Sleeping, Event::Woke) => (
            Scheduler { phase: Phase::Fetching, ..s },
            Action::Fetch,
        ),
        (Phase::Fetching, Event::Fetched) => (Scheduler { phase: Phase::Extracting, ..s }, Action::Extract),
        (Phase::Fetching, Event::FetchFailed) | (Phase::Extracting, Event::ExtractFailed) | (
            Phase::Persisting,
            Event::Persisted,
        ) => end_of_cycle(s),
        (Phase::Extracting, Event::Extracted) => if s.dry_run {
            end_of_cycle(s)
        } else {
            (Scheduler { phase: Phase::Persisting, ..s }, Action::Persist)
        },
        _ => (s, Action::Continue),
    }
}

impl Scheduler {
    /// A loop that has not started yet.
    pub fn new(single_run: bool, dry_run: bool) -> (r: Scheduler)
        ensures
            r == (Scheduler { phase: Phase::Idle, single_run, dry_run, cancel_requested: false }),
    {
        Scheduler { phase: Phase::Idle, single_run, dry_run, cancel_requested: false }
    }

    /// Takes the decision on `e`: moves to the next state and returns the
    /// action to perform.
    pub fn step(&mut self, e: Event) -> (a: Action)
        ensures
            (*final(self), a) == transition(*old(self), e),
    {
        let s = *self;
        let end = if s.single_run {
            (Scheduler { phase: Phase::Done, ..s }, Action::Exit)
        } else if s.cancel_requested {
            (Scheduler { phase: Phase::Cancelled, ..s }, Action::Exit)
        } else {
            (Scheduler { phase: Phase::Sleeping, ..s }, Action::Sleep)
        };
        let (next, action) = match (s.phase, e) {
            (Phase::Done, _) | (Phase::Cancelled, _) => (s, Action::Exit),
            (Phase::Idle, Event::CancelRequested) | (Phase::Sleeping, Event::CancelRequested) => (
                Scheduler { phase: Phase::Cancelled, ..s },
                Action::Exit,
            ),
            (_, Event::CancelRequested) => (Scheduler { cancel_requested: true, ..s }, Action::Continue),
            (Phase::Idle, Event::Started) | (Phase::Sleeping, Event::Woke) => (
                Scheduler { phase: Phase::Fetching, ..s },
                Action::Fetch,
            ),
            (Phase::Fetching, Event::Fetched) => (Scheduler { phase: Phase::Extracting, ..s }, Action::Extract),
            (Phase::Fetching, Event::FetchFailed) | (Phase::Extracting, Event::ExtractFailed) | (
                Phase::Persisting,
                Event::Persisted,
            ) => end,
            (Phase::Extracting, Event::Extracted) => if s.dry_run {
                end
            } else {
                (Scheduler { phase: Phase::Persisting, ..s }, Action::Persist)
            },
            _ => (s, Action::Continue),
        };
        *self = next;
        action
    }
}

/// A dry run never persists, and the loop never sleeps with a cancellation
/// pending.
pub proof fn lemma_step_safety(s: Scheduler, e: Event)
    ensures
        s.dry_run ==> transition(s, e).1 != Action::Persist,
        transition(s, e).1 == Action::Sleep ==> !transition(s, e).0.cancel_requested && e != Event::CancelRequested,
        transition(s, e).0.dry_run == s.dry_run,
        (s.phase == Phase::Done || s.phase == Phase::Cancelled) ==> transition(s, e) == (s, Action::Exit),
{
}

} // verus!

//! The decisions of the monitoring loop. Each tick, and each one-shot
//! browser start, is a pure function from the loaded state, the clock
//! reading and the classification verdict to the next state and the side
//! effects owed: which processes to kill, which wallpaper to show, whether
//! the state must be persisted. The loop around it only performs those
//! effects.

use vstd::prelude::*;

use crate::config::TimeoutConfig;
use crate::state::{AppState, SECS_PER_HOUR, SECS_PER_MINUTE};

verus! {

/// Which wallpaper the desktop should show.
#[derive(Debug, Clone, Copy, PartialEq, Eq, Structural)]
pub enum BackgroundKind {
    /// Outside any enforcement window.
    Normal,
    /// While content is blocked.
    Blocked,
    /// During a bathroom break.
    BathroomBreak,
}

/// What one daemon tick decided: the side effects the loop owes after the
/// new state has been persisted.
#[derive(Debug, Clone, Copy, PartialEq, Eq, Structural)]
pub struct TickActions {
    /// Kill the browser because disallowed content was on screen.
    pub killed_for_content: bool,
    /// Kill the browser because a bathroom break starts.
    pub killed_for_break: bool,
    /// The wallpaper to switch to, if any.
    pub background: Option<BackgroundKind>,
    /// The state differs from the loaded one and must be persisted.
    pub state_changed: bool,
}

/// Tick phase one: a detected violation overwrites the block deadline.
pub open spec fn spec_tick_blocked(
    s: AppState,
    now: u64,
    any_blacklisted: bool,
    t: TimeoutConfig,
) -> AppState {
    if any_blacklisted {
        s.spec_blocked(now, t.blacklist_timeout_minutes)
    } else {
        s
    }
}

/// Tick phase two fires: a break is due and none is active.
pub open spec fn spec_tick_break_starts(s: AppState, now: u64) -> bool {
    s.spec_is_break_due(now) && !s.in_bathroom_break
}

/// Tick phase three fires: the active break's end time has been reached.
pub open spec fn spec_tick_break_ends(s: AppState, now: u64) -> bool {
    s.in_bathroom_break && match s.bathroom_break_until {
        Some(u) => now >= u,
        None => false,
    }
}

/// The state after one daemon tick: block on a violation, then start a due
/// break, then clear a break that has ended.
pub open spec fn spec_tick(s: AppState, now: u64, any_blacklisted: bool, t: TimeoutConfig) -> AppState {
    let s1 = spec_tick_blocked(s, now, any_blacklisted, t);
    let s2 = if spec_tick_break_starts(s1, now) {
        s1.spec_with_break(now, t.bathroom_break_minutes, t.bathroom_break_interval_hours)
    } else {
        s1
    };
    if spec_tick_break_ends(s2, now) {
        s2.spec_break_ended()
    } else {
        s2
    }
}

/// The side effects one daemon tick owes.
pub open spec fn spec_tick_actions(
    s: AppState,
    now: u64,
    any_blacklisted: bool,
    t: TimeoutConfig,
) -> TickActions {
    let s1 = spec_tick_blocked(s, now, any_blacklisted, t);
    let started = spec_tick_break_starts(s1, now);
    let s2 = if started {
        s1.spec_with_break(now, t.bathroom_break_minutes, t.bathroom_break_interval_hours)
    } else {
        s1
    };
    let ended = spec_tick_break_ends(s2, now);
    TickActions {
        killed_for_content: any_blacklisted,
        killed_for_break: started,
        background: if started {
            Some(BackgroundKind::BathroomBreak)
        } else if any_blacklisted {
            Some(BackgroundKind::Blocked)
        } else {
            None
        },
        state_changed: any_blacklisted || started || ended,
    }
}

/// One tick of the daemon loop, on the loaded state, the clock reading and
/// the verdict over the observed window titles. A failed title enumeration
/// means no titles observed, so the caller passes `false` and the tick
/// goes on without detection rather than failing.
pub fn daemon_tick(state: &mut AppState, now: u64, any_blacklisted: bool, t: &TimeoutConfig) -> (acts:
    TickActions)
    requires
        now + t.blacklist_timeout_minutes * SECS_PER_MINUTE <= u64::MAX,
        now + t.bathroom_break_minutes * SECS_PER_MINUTE <= u64::MAX,
        now + t.bathroom_break_interval_hours * SECS_PER_HOUR <= u64::MAX,
    ensures
        *final(state) == spec_tick(*old(state), now, any_blacklisted, *t),
        acts == spec_tick_actions(*old(state), now, any_blacklisted, *t),
{
    let mut acts = TickActions {
        killed_for_content: false,
        killed_for_break: false,
        background: None,
        state_changed: false,
    };
    if any_blacklisted {
        state.block_browser(now, t.blacklist_timeout_minutes);
        acts.killed_for_content = true;
        acts.background = Some(BackgroundKind::Blocked);
        acts.state_changed = true;
    }
    if state.is_bathroom_break_time(t.bathroom_break_interval_hours, now)
        && !state.in_bathroom_break {
        state.start_bathroom_break(now, t.bathroom_break_minutes, t.bathroom_break_interval_hours);
        acts.killed_for_break = true;
        acts.background = Some(BackgroundKind::BathroomBreak);
        acts.state_changed = true;
    }
    if state.in_bathroom_break {
        let ended = match state.bathroom_break_until {
            Some(u) => now >= u,
            None => false,
        };
        if ended {
            state.end_bathroom_break();
            acts.state_changed = true;
        }
    }
    acts
}

/// What the one-shot browser start decided.
#[derive(Debug, Clone, Copy, PartialEq, Eq, Structural)]
pub enum StartDecision {
    /// Access is blocked: show the blocked wallpaper, do not launch.
    Blocked,
    /// A break is on: show the break wallpaper, do not launch.
    Break,
    /// Show the normal wallpaper and launch the browser.
    Launch,
}

/// The outcome of the one-shot browser start path.
#[derive(Debug, Clone, Copy, PartialEq, Eq, Structural)]
pub struct StartOutcome {
    /// What to do.
    pub decision: StartDecision,
    /// The state differs from the loaded one and must be persisted.
    pub state_changed: bool,
}

/// The state after the one-shot start path: it only ever starts a due
/// break, and ends that same break at once when its duration is zero.
pub open spec fn spec_start_state(s: AppState, now: u64, t: TimeoutConfig) -> AppState {
    if s.spec_is_blocked(now) {
        s
    } else if s.spec_is_break_due(now) && !s.in_bathroom_break {
        let s2 = s.spec_with_break(now, t.bathroom_break_minutes, t.bathroom_break_interval_hours);
        if t.bathroom_break_minutes > 0 {
            s2
        } else {
            s2.spec_break_ended()
        }
    } else {
        s
    }
}

/// What the one-shot start path decides: blocked wins, then an active or
/// just-started break of positive length, else launch.
pub open spec fn spec_start_decision(s: AppState, now: u64, t: TimeoutConfig) -> StartDecision {
    if s.spec_is_blocked(now) {
        StartDecision::Blocked
    } else if s.spec_is_break_due(now) {
        if !s.in_bathroom_break && t.bathroom_break_minutes == 0 {
            StartDecision::Launch
        } else {
            StartDecision::Break
        }
    } else {
        StartDecision::Launch
    }
}

/// The one-shot "start browser" path: decide from the loaded state and the
/// clock whether to launch, and transition a break that is due or has just
/// expired; nothing else is ever mutated here.
pub fn start_browser_tick(state: &mut AppState, now: u64, t: &TimeoutConfig) -> (out: StartOutcome)
    requires
        now + t.bathroom_break_minutes * SECS_PER_MINUTE <= u64::MAX,
        now + t.bathroom_break_interval_hours * SECS_PER_HOUR <= u64::MAX,
    ensures
        *final(state) == spec_start_state(*old(state), now, *t),
        out.decision == spec_start_decision(*old(state), now, *t),
        out.state_changed == (!old(state).spec_is_blocked(now) && old(state).spec_is_break_due(now)
            && !old(state).in_bathroom_break),
{
    if state.is_blocked(now) {
        return StartOutcome { decision: StartDecision::Blocked, state_changed: false };
    }
    let mut changed = false;
    if state.is_bathroom_break_time(t.bathroom_break_interval_hours, now) {
        if !state.in_bathroom_break {
            state.start_bathroom_break(
                now,
                t.bathroom_break_minutes,
                t.bathroom_break_interval_hours,
            );
            changed = true;
        }
        if state.in_bathroom_break {
            match state.bathroom_break_until {
                Some(u) => {
                    if now < u {
                        return StartOutcome { decision: StartDecision::Break, state_changed:
                            changed };
                    } else {
                        state.end_bathroom_break();
                        return StartOutcome { decision: StartDecision::Launch, state_changed:
                            changed };
                    }
                },
                None => {},
            }
        }
    }
    StartOutcome { decision: StartDecision::Launch, state_changed: changed }
}

/// The schedule only moves forward: a tick either keeps
/// `next_bathroom_break` as it is or, exactly when a due break starts,
/// reschedules it from the current time onward.
pub proof fn lemma_next_break_monotonic(
    s: AppState,
    now: u64,
    any_blacklisted: bool,
    t: TimeoutConfig,
)
    requires
        now + t.bathroom_break_interval_hours * SECS_PER_HOUR <= u64::MAX,
    ensures
        spec_tick(s, now, any_blacklisted, t).next_bathroom_break >= s.next_bathroom_break,
{
}

/// Ticks preserve the record's well-formedness: the break end time is
/// present exactly while a break is active.
pub proof fn lemma_tick_preserves_wf(s: AppState, now: u64, any_blacklisted: bool, t: TimeoutConfig)
    requires
        s.wf(),
    ensures
        spec_tick(s, now, any_blacklisted, t).wf(),
{
}

/// The one-shot start path preserves well-formedness too, and moves the
/// schedule only forward.
pub proof fn lemma_start_preserves_wf(s: AppState, now: u64, t: TimeoutConfig)
    requires
        s.wf(),
        now + t.bathroom_break_interval_hours * SECS_PER_HOUR <= u64::MAX,
    ensures
        spec_start_state(s, now, t).wf(),
        spec_start_state(s, now, t).next_bathroom_break >= s.next_bathroom_break,
{
}

/// The break transition across two ticks: with a break due and none active,
/// one tick starts it and reschedules the next break to its call time plus
/// the interval; any later tick at or past the break's end clears the break,
/// leaves its end time empty, and keeps the rescheduled start.
pub proof fn lemma_break_transition(s: AppState, t: TimeoutConfig, now1: u64, now2: u64)
    requires
        !s.in_bathroom_break,
        s.next_bathroom_break <= now1,
        t.bathroom_break_minutes >= 1,
        now1 + t.bathroom_break_minutes * SECS_PER_MINUTE <= u64::MAX,
        now1 + t.bathroom_break_interval_hours * SECS_PER_HOUR <= u64::MAX,
        now1 + t.bathroom_break_minutes * SECS_PER_MINUTE <= now2,
    ensures
        ({
            let s1 = spec_tick(s, now1, false, t);
            let s2 = spec_tick(s1, now2, false, t);
            &&& s1.in_bathroom_break
            &&& s1.bathroom_break_until == Some(
                (now1 + t.bathroom_break_minutes * SECS_PER_MINUTE) as u64,
            )
            &&& s1.next_bathroom_break == now1 + t.bathroom_break_interval_hours * SECS_PER_HOUR
            &&& !s2.in_bathroom_break
            &&& s2.bathroom_break_until is None
            &&& s2.next_bathroom_break == s1.next_bathroom_break
        }),
{
    let s1 = spec_tick(s, now1, false, t);
    assert(spec_tick_break_starts(s, now1));
    assert(s1 == s.spec_with_break(now1, t.bathroom_break_minutes,
        t.bathroom_break_interval_hours));
    let s2 = spec_tick(s1, now2, false, t);
    assert(!spec_tick_break_starts(s1, now2));
    assert(spec_tick_break_ends(s1, now2));
}

} // verus!

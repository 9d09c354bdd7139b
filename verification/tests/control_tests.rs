use inappropriate_video_handler::config::TimeoutConfig;
use inappropriate_video_handler::control::{
    daemon_tick, start_browser_tick, BackgroundKind, StartDecision,
};
use inappropriate_video_handler::state::AppState;

const NOW: u64 = 1_700_000_000;

fn timeouts() -> TimeoutConfig {
    TimeoutConfig {
        blacklist_timeout_minutes: 10,
        bathroom_break_minutes: 10,
        bathroom_break_interval_hours: 3,
    }
}

#[test]
fn test_tick_quiet_when_nothing_due() {
    let mut state = AppState::default();
    state.next_bathroom_break = NOW + 3600;

    let before = state.clone();
    let acts = daemon_tick(&mut state, NOW, false, &timeouts());

    assert!(!acts.killed_for_content);
    assert!(!acts.killed_for_break);
    assert_eq!(acts.background, None);
    assert!(!acts.state_changed);
    assert_eq!(state, before);
}

#[test]
fn test_tick_blocks_on_detection() {
    let mut state = AppState::default();
    state.next_bathroom_break = NOW + 3600;

    let acts = daemon_tick(&mut state, NOW, true, &timeouts());

    assert!(acts.killed_for_content);
    assert!(!acts.killed_for_break);
    assert_eq!(acts.background, Some(BackgroundKind::Blocked));
    assert!(acts.state_changed);
    assert_eq!(state.blocked_until, Some(NOW + 10 * 60));
    assert!(state.is_blocked(NOW));
    assert!(!state.is_blocked(NOW + 10 * 60));
}

#[test]
fn test_tick_break_transition_cycle() {
    let mut state = AppState::default();
    state.next_bathroom_break = NOW - 1; // break overdue

    let acts = daemon_tick(&mut state, NOW, false, &timeouts());

    assert!(!acts.killed_for_content);
    assert!(acts.killed_for_break);
    assert_eq!(acts.background, Some(BackgroundKind::BathroomBreak));
    assert!(acts.state_changed);
    assert!(state.in_bathroom_break);
    assert_eq!(state.bathroom_break_until, Some(NOW + 10 * 60));
    assert_eq!(state.next_bathroom_break, NOW + 3 * 3600);

    // A later tick, after the break has elapsed, clears it.
    let later = NOW + 10 * 60;
    let acts2 = daemon_tick(&mut state, later, false, &timeouts());

    assert!(!acts2.killed_for_break);
    assert!(acts2.state_changed);
    assert!(!state.in_bathroom_break);
    assert!(state.bathroom_break_until.is_none());
    assert_eq!(state.next_bathroom_break, NOW + 3 * 3600);
}

#[test]
fn test_tick_zero_length_break_starts_and_ends_at_once() {
    let mut state = AppState::default();
    state.next_bathroom_break = NOW;
    let t = TimeoutConfig {
        blacklist_timeout_minutes: 10,
        bathroom_break_minutes: 0,
        bathroom_break_interval_hours: 1,
    };

    let acts = daemon_tick(&mut state, NOW, false, &t);

    assert!(acts.killed_for_break);
    assert!(acts.state_changed);
    assert!(!state.in_bathroom_break);
    assert!(state.bathroom_break_until.is_none());
    assert_eq!(state.next_bathroom_break, NOW + 3600);
}

#[test]
fn test_start_browser_blocked() {
    let mut state = AppState::default();
    state.next_bathroom_break = NOW + 3600;
    state.block_browser(NOW, 5);

    let before = state.clone();
    let out = start_browser_tick(&mut state, NOW, &timeouts());

    assert_eq!(out.decision, StartDecision::Blocked);
    assert!(!out.state_changed);
    assert_eq!(state, before);
}

#[test]
fn test_start_browser_starts_due_break() {
    let mut state = AppState::default();
    state.next_bathroom_break = NOW - 1;

    let out = start_browser_tick(&mut state, NOW, &timeouts());

    assert_eq!(out.decision, StartDecision::Break);
    assert!(out.state_changed);
    assert!(state.in_bathroom_break);
    assert_eq!(state.bathroom_break_until, Some(NOW + 10 * 60));
    assert_eq!(state.next_bathroom_break, NOW + 3 * 3600);
}

#[test]
fn test_start_browser_inside_active_break() {
    let mut state = AppState::default();
    state.next_bathroom_break = NOW + 3600;
    state.in_bathroom_break = true;
    state.bathroom_break_until = Some(NOW + 120);

    let out = start_browser_tick(&mut state, NOW, &timeouts());

    assert_eq!(out.decision, StartDecision::Break);
    assert!(!out.state_changed);
    assert!(state.in_bathroom_break);
}

#[test]
fn test_start_browser_launches_when_clear() {
    let mut state = AppState::default();
    state.next_bathroom_break = NOW + 3600;

    let out = start_browser_tick(&mut state, NOW, &timeouts());

    assert_eq!(out.decision, StartDecision::Launch);
    assert!(!out.state_changed);
}

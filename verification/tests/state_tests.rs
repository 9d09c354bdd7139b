use inappropriate_video_handler::state::AppState;

const NOW: u64 = 1_700_000_000;

#[test]
fn test_app_state_default() {
    let state = AppState::default();

    assert!(state.blocked_until.is_none());
    assert!(!state.in_bathroom_break);
    assert!(state.bathroom_break_until.is_none());
}

#[test]
fn test_app_state_load_nonexistent_file() {
    let state = AppState::load(None, NOW).unwrap();

    assert!(state.blocked_until.is_none());
    assert!(!state.in_bathroom_break);
    assert!(state.bathroom_break_until.is_none());
    assert!(state.next_bathroom_break > NOW);
}

#[test]
fn test_app_state_save_and_load() {
    let mut original_state = AppState::default();
    original_state.blocked_until = Some(NOW + 10 * 60);
    original_state.in_bathroom_break = true;
    original_state.bathroom_break_until = Some(NOW + 5 * 60);

    let saved = original_state.save();

    let loaded_state = AppState::load(Some(&saved), NOW).unwrap();

    assert_eq!(original_state.blocked_until, loaded_state.blocked_until);
    assert_eq!(original_state.in_bathroom_break, loaded_state.in_bathroom_break);
    assert_eq!(original_state.bathroom_break_until, loaded_state.bathroom_break_until);
    assert_eq!(original_state.next_bathroom_break, loaded_state.next_bathroom_break);
}

#[test]
fn test_app_state_load_invalid_json() {
    let result = AppState::load(Some("invalid json content"), NOW);
    assert!(result.is_err());
}

#[test]
fn test_is_blocked_when_not_blocked() {
    let state = AppState::default();
    assert!(!state.is_blocked(NOW));
}

#[test]
fn test_is_blocked_when_blocked_future() {
    let mut state = AppState::default();
    state.blocked_until = Some(NOW + 10 * 60);
    assert!(state.is_blocked(NOW));
}

#[test]
fn test_is_blocked_when_blocked_past() {
    let mut state = AppState::default();
    state.blocked_until = Some(NOW - 10 * 60);
    assert!(!state.is_blocked(NOW));
}

#[test]
fn test_block_browser() {
    let mut state = AppState::default();
    assert!(!state.is_blocked(NOW));

    state.block_browser(NOW, 15);
    assert!(state.is_blocked(NOW));

    if let Some(blocked_until) = state.blocked_until {
        assert_eq!(blocked_until, NOW + 15 * 60);
    } else {
        panic!("blocked_until should be set");
    }
}

#[test]
fn test_is_bathroom_break_time_not_in_break() {
    let mut state = AppState::default();
    state.next_bathroom_break = NOW - 60; // Past time
    state.in_bathroom_break = false;

    assert!(state.is_bathroom_break_time(3, NOW));
}

#[test]
fn test_is_bathroom_break_time_future() {
    let mut state = AppState::default();
    state.next_bathroom_break = NOW + 10 * 60; // Future time
    state.in_bathroom_break = false;

    assert!(!state.is_bathroom_break_time(3, NOW));
}

#[test]
fn test_is_bathroom_break_time_currently_in_break() {
    let mut state = AppState::default();
    state.in_bathroom_break = true;
    state.bathroom_break_until = Some(NOW + 5 * 60);

    assert!(state.is_bathroom_break_time(3, NOW));
}

#[test]
fn test_is_bathroom_break_time_break_expired() {
    let mut state = AppState::default();
    state.in_bathroom_break = true;
    state.bathroom_break_until = Some(NOW - 5 * 60);

    assert!(!state.is_bathroom_break_time(3, NOW));
}

#[test]
fn test_start_bathroom_break() {
    let mut state = AppState::default();
    assert!(!state.in_bathroom_break);
    assert!(state.bathroom_break_until.is_none());

    state.start_bathroom_break(NOW, 10, 3);

    assert!(state.in_bathroom_break);
    assert!(state.bathroom_break_until.is_some());

    if let Some(break_until) = state.bathroom_break_until {
        assert_eq!(break_until, NOW + 10 * 60);
    }

    assert_eq!(state.next_bathroom_break, NOW + 3 * 3600);
}

#[test]
fn test_end_bathroom_break() {
    let mut state = AppState::default();
    state.in_bathroom_break = true;
    state.bathroom_break_until = Some(NOW + 5 * 60);

    state.end_bathroom_break();

    assert!(!state.in_bathroom_break);
    assert!(state.bathroom_break_until.is_none());
}

#[test]
fn test_default_with_next_break() {
    let state = AppState::default_with_next_break(NOW);

    assert!(state.blocked_until.is_none());
    assert!(!state.in_bathroom_break);
    assert!(state.bathroom_break_until.is_none());

    assert_eq!(state.next_bathroom_break, NOW + 3 * 3600);
}

#[test]
fn test_multiple_block_operations() {
    let mut state = AppState::default();

    // First block
    state.block_browser(NOW, 5);
    let first_block = state.blocked_until.unwrap();

    // Second block (should overwrite)
    state.block_browser(NOW, 15);
    let second_block = state.blocked_until.unwrap();

    assert!(second_block > first_block);
}

#[test]
fn test_bathroom_break_state_transitions() {
    let mut state = AppState::default();

    // Start break
    state.start_bathroom_break(NOW, 10, 3);
    assert!(state.in_bathroom_break);
    assert!(state.bathroom_break_until.is_some());

    // End break
    state.end_bathroom_break();
    assert!(!state.in_bathroom_break);
    assert!(state.bathroom_break_until.is_none());

    // Start another break
    state.start_bathroom_break(NOW, 5, 2);
    assert!(state.in_bathroom_break);
    assert!(state.bathroom_break_until.is_some());
}

#[test]
fn test_zero_duration_block_expires_immediately() {
    let mut state = AppState::default();
    state.block_browser(NOW, 0);
    assert_eq!(state.blocked_until, Some(NOW));
    assert!(!state.is_blocked(NOW));
}

use inappropriate_video_handler::codec::StateError;
use inappropriate_video_handler::state::AppState;

const NOW: u64 = 1_700_000_000;

#[test]
fn test_save_exact_form() {
    let state = AppState {
        blocked_until: Some(120),
        next_bathroom_break: 7,
        in_bathroom_break: true,
        bathroom_break_until: Some(9),
    };
    assert_eq!(
        state.save(),
        "{\"blocked_until\":120,\"next_bathroom_break\":7,\"in_bathroom_break\":true,\"bathroom_break_until\":9}"
    );
}

#[test]
fn test_save_exact_form_absent_timestamps() {
    let state = AppState {
        blocked_until: None,
        next_bathroom_break: 0,
        in_bathroom_break: false,
        bathroom_break_until: None,
    };
    assert_eq!(
        state.save(),
        "{\"blocked_until\":null,\"next_bathroom_break\":0,\"in_bathroom_break\":false,\"bathroom_break_until\":null}"
    );
}

#[test]
fn test_roundtrip_large_timestamps() {
    let state = AppState {
        blocked_until: Some(u64::MAX),
        next_bathroom_break: u64::MAX - 1,
        in_bathroom_break: false,
        bathroom_break_until: None,
    };
    let loaded = AppState::load(Some(&state.save()), NOW).unwrap();
    assert_eq!(loaded, state);
}

#[test]
fn test_load_rejects_leading_zero() {
    let text = "{\"blocked_until\":null,\"next_bathroom_break\":007,\"in_bathroom_break\":false,\"bathroom_break_until\":null}";
    assert_eq!(AppState::load(Some(text), NOW), Err(StateError::Malformed));
}

#[test]
fn test_load_rejects_trailing_garbage() {
    let text = "{\"blocked_until\":null,\"next_bathroom_break\":0,\"in_bathroom_break\":false,\"bathroom_break_until\":null} ";
    assert_eq!(AppState::load(Some(text), NOW), Err(StateError::Malformed));
}

#[test]
fn test_load_rejects_missing_field() {
    let text = "{\"blocked_until\":null,\"next_bathroom_break\":0,\"in_bathroom_break\":false}";
    assert_eq!(AppState::load(Some(text), NOW), Err(StateError::Malformed));
}

#[test]
fn test_load_rejects_overflowing_timestamp() {
    let text = "{\"blocked_until\":null,\"next_bathroom_break\":18446744073709551616,\"in_bathroom_break\":false,\"bathroom_break_until\":null}";
    assert_eq!(AppState::load(Some(text), NOW), Err(StateError::Malformed));
}

#[test]
fn test_load_accepts_exact_encoding() {
    let text = "{\"blocked_until\":5,\"next_bathroom_break\":10,\"in_bathroom_break\":true,\"bathroom_break_until\":15}";
    let state = AppState::load(Some(text), NOW).unwrap();
    assert_eq!(state.blocked_until, Some(5));
    assert_eq!(state.next_bathroom_break, 10);
    assert!(state.in_bathroom_break);
    assert_eq!(state.bathroom_break_until, Some(15));
}

#[test]
fn test_load_rejects_empty() {
    assert_eq!(AppState::load(Some(""), NOW), Err(StateError::Malformed));
}

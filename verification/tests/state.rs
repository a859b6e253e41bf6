use codex_halo::state::{
    millis_from_reading, unix_time_ms, HaloEvent, HaloState, StateFile, ATTENTION_TIMEOUT_MS,
    COMPLETED_DURATION_MS, MAX_FUTURE_SKEW_MS, WORKING_TIMEOUT_MS,
};

fn state_file(state: &str, updated_at: u64) -> StateFile {
    StateFile {
        state: state.to_owned(),
        updated_at,
        session_id: None,
        event: None,
    }
}

#[test]
fn accepts_fresh_state() {
    let event = state_file("working", 9_500)
        .validate(10_000)
        .expect("valid state");
    assert_eq!(event.state, HaloState::Working);
}

#[test]
fn rejects_expired_and_future_states() {
    assert!(state_file("completed", 7_999).validate(10_000).is_err());
    assert!(state_file("working", 10_000 + MAX_FUTURE_SKEW_MS + 1)
        .validate(10_000)
        .is_err());
}

#[test]
fn rejects_unknown_state() {
    assert!(state_file("success", 10_000).validate(10_000).is_err());
}

#[test]
fn each_refusal_names_its_reason() {
    assert_eq!(state_file("success", 10_000).validate(10_000).unwrap_err(), "unknown state");
    assert_eq!(
        state_file("working", 10_000 + MAX_FUTURE_SKEW_MS + 1).validate(10_000).unwrap_err(),
        "timestamp is too far in the future"
    );
    assert_eq!(state_file("completed", 7_999).validate(10_000).unwrap_err(), "state is expired");
}

#[test]
fn accepts_edges_of_the_validity_window() {
    let event = state_file("working", 10_000 + MAX_FUTURE_SKEW_MS).validate(10_000).unwrap();
    assert_eq!(event, HaloEvent { state: HaloState::Working, updated_at: 10_000 + MAX_FUTURE_SKEW_MS });
    let event = state_file("completed", 8_001).validate(10_000).unwrap();
    assert_eq!(event.state, HaloState::Completed);
    assert!(state_file("completed", 8_000).validate(10_000).is_err());
}

#[test]
fn idle_never_expires() {
    let event = state_file("idle", 0).validate(u64::MAX).unwrap();
    assert_eq!(event, HaloEvent { state: HaloState::Idle, updated_at: 0 });
}

#[test]
fn saturating_clock_arithmetic_at_the_edges() {
    // now + skew saturates: any timestamp is within the future window.
    assert!(state_file("idle", u64::MAX).validate(u64::MAX - 1).is_ok());
    // an old timestamp at time zero has age zero.
    assert!(state_file("working", 5).validate(0).is_ok());
}

#[test]
fn timeouts_of_each_state() {
    assert_eq!(HaloState::Idle.timeout_ms(), None);
    assert_eq!(HaloState::Working.timeout_ms(), Some(WORKING_TIMEOUT_MS));
    assert_eq!(HaloState::Attention.timeout_ms(), Some(ATTENTION_TIMEOUT_MS));
    assert_eq!(HaloState::Completed.timeout_ms(), Some(COMPLETED_DURATION_MS));
    assert_eq!(WORKING_TIMEOUT_MS, 30 * 60 * 1_000);
    assert_eq!(ATTENTION_TIMEOUT_MS, 60 * 60 * 1_000);
    assert_eq!(COMPLETED_DURATION_MS, 2_000);
    assert_eq!(MAX_FUTURE_SKEW_MS, 5 * 60 * 1_000);
}

#[test]
fn state_names_round_trip() {
    for state in [HaloState::Idle, HaloState::Working, HaloState::Attention, HaloState::Completed] {
        assert_eq!(HaloState::parse(state.as_str()), Some(state));
    }
    assert_eq!(HaloState::Attention.as_str(), "attention");
    assert_eq!(HaloState::parse("Working"), None);
    assert_eq!(HaloState::parse(""), None);
}

#[test]
fn clock_readings_are_narrowed_to_u64() {
    assert_eq!(millis_from_reading(None), 0);
    assert_eq!(millis_from_reading(Some(1_234)), 1_234);
    assert_eq!(millis_from_reading(Some(u128::MAX)), u64::MAX);
    assert_eq!(millis_from_reading(Some(u64::MAX as u128 + 1)), u64::MAX);
}

#[test]
fn wall_clock_is_after_2020() {
    // 2020-01-01 in Unix milliseconds; the clock wrapper must really read the clock.
    assert!(unix_time_ms() > 1_577_836_800_000);
}

use codex_halo::runtime::{
    demo_permission, demo_script, retry_after_failure, DemoAction, real_event_target, remaining_ms, restore_target, DemoRefusal,
    Notice, PendingTimeout, RuntimeState, TimeoutSchedule, TimeoutWorker,
};
use codex_halo::state::{HaloEvent, HaloState, COMPLETED_DURATION_MS, WORKING_TIMEOUT_MS};

#[test]
fn entering_a_state_advances_the_revision_and_schedules_its_timeout() {
    let mut runtime = RuntimeState::new();
    let transition = runtime.enter(HaloState::Working, None);
    assert_eq!(runtime, RuntimeState { state: HaloState::Working, revision: 1 });
    assert_eq!(transition.previous, HaloState::Idle);
    assert_eq!(
        transition.schedule,
        TimeoutSchedule { revision: 1, delay_ms: Some(WORKING_TIMEOUT_MS) }
    );
    assert_eq!(transition.notice, None);
}

#[test]
fn remaining_lifetime_overrides_the_default_timeout() {
    let mut runtime = RuntimeState::new();
    let transition = runtime.enter(HaloState::Completed, Some(750));
    assert_eq!(transition.schedule.delay_ms, Some(750));
    assert_eq!(transition.notice, Some(Notice::TurnCompleted));
    let transition = runtime.enter(HaloState::Idle, None);
    assert_eq!(transition.schedule, TimeoutSchedule { revision: 2, delay_ms: None });
}

#[test]
fn notifications_only_on_real_changes() {
    let mut runtime = RuntimeState::new();
    assert_eq!(runtime.enter(HaloState::Attention, None).notice, Some(Notice::NeedsAttention));
    assert_eq!(runtime.enter(HaloState::Attention, None).notice, None);
    assert_eq!(Notice::NeedsAttention.message(), "Codex needs your attention");
    assert_eq!(Notice::TurnCompleted.message(), "Codex turn completed");
}

#[test]
fn revision_wraps_around() {
    let mut runtime = RuntimeState { state: HaloState::Working, revision: u64::MAX };
    let transition = runtime.enter(HaloState::Attention, None);
    assert_eq!(runtime.revision, 0);
    assert_eq!(transition.schedule.revision, 0);
}

#[test]
fn timeout_for_the_current_revision_returns_to_idle() {
    let mut runtime = RuntimeState::new();
    let transition = runtime.enter(HaloState::Working, None);
    assert!(runtime.expire(transition.schedule.revision));
    assert_eq!(runtime, RuntimeState { state: HaloState::Idle, revision: 2 });
    // Idle itself never times out.
    assert!(!runtime.expire(2));
    assert_eq!(runtime.revision, 2);
}

#[test]
fn stale_timeouts_are_ignored() {
    let mut runtime = RuntimeState::new();
    let first = runtime.enter(HaloState::Working, None);
    runtime.enter(HaloState::Attention, None);
    assert!(!runtime.expire(first.schedule.revision));
    assert_eq!(runtime, RuntimeState { state: HaloState::Attention, revision: 2 });
}

#[test]
fn worker_keeps_only_the_latest_schedule() {
    let mut worker = TimeoutWorker::new();
    assert_eq!(worker.wait_ms(0), None);
    worker.receive(TimeoutSchedule { revision: 1, delay_ms: Some(500) }, 100);
    assert_eq!(worker.pending, Some(PendingTimeout { revision: 1, deadline_ms: 600 }));
    assert_eq!(worker.wait_ms(250), Some(350));
    assert_eq!(worker.wait_ms(900), Some(0));
    worker.receive(TimeoutSchedule { revision: 2, delay_ms: None }, 300);
    assert_eq!(worker.pending, None);
    worker.receive(TimeoutSchedule { revision: 3, delay_ms: Some(u64::MAX) }, 10);
    assert_eq!(worker.pending, Some(PendingTimeout { revision: 3, deadline_ms: u64::MAX }));
}

#[test]
fn worker_fires_the_pending_expiry_once() {
    let mut runtime = RuntimeState::new();
    let mut worker = TimeoutWorker::new();
    let transition = runtime.enter(HaloState::Completed, None);
    worker.receive(transition.schedule, 0);
    assert!(worker.fire(&mut runtime));
    assert_eq!(runtime.state, HaloState::Idle);
    assert_eq!(worker.pending, None);
    assert!(!worker.fire(&mut runtime));
}

#[test]
fn real_events_are_gated_by_demo_and_enabled() {
    let event = HaloEvent { state: HaloState::Completed, updated_at: 10_000 };
    assert_eq!(real_event_target(true, true, event, 10_500), None);
    assert_eq!(real_event_target(false, false, event, 10_500), None);
    assert_eq!(
        real_event_target(false, true, event, 10_500),
        Some((HaloState::Completed, Some(COMPLETED_DURATION_MS - 500)))
    );
}

#[test]
fn remaining_lifetime_saturates() {
    let idle = HaloEvent { state: HaloState::Idle, updated_at: 0 };
    assert_eq!(remaining_ms(idle, 99), None);
    let old = HaloEvent { state: HaloState::Completed, updated_at: 0 };
    assert_eq!(remaining_ms(old, 1_000_000), Some(0));
    let future = HaloEvent { state: HaloState::Working, updated_at: 5_000 };
    assert_eq!(remaining_ms(future, 1_000), Some(WORKING_TIMEOUT_MS));
}

#[test]
fn restoring_without_a_valid_state_goes_idle() {
    assert_eq!(restore_target(true, false, None, 0), Some((HaloState::Idle, None)));
    let event = HaloEvent { state: HaloState::Working, updated_at: 0 };
    assert_eq!(restore_target(false, true, Some(event), 1_000), Some((HaloState::Working, Some(WORKING_TIMEOUT_MS - 1_000))));
    assert_eq!(restore_target(true, true, Some(event), 1_000), None);
}

#[test]
fn demo_mode_permission_and_script() {
    assert_eq!(demo_permission(false, false), Err(DemoRefusal::Disabled));
    assert_eq!(demo_permission(false, true), Err(DemoRefusal::Disabled));
    assert_eq!(demo_permission(true, true), Err(DemoRefusal::AlreadyRunning));
    assert_eq!(demo_permission(true, false), Ok(()));
    assert_eq!(DemoRefusal::Disabled.message(), "Enable Halo before starting Demo Mode");
    assert_eq!(DemoRefusal::AlreadyRunning.message(), "Demo Mode is already running");
    assert_eq!(
        demo_script(),
        vec![
            DemoAction::Show { state: HaloState::Working, hold_ms: 3_000 },
            DemoAction::Show { state: HaloState::Attention, hold_ms: 3_000 },
            DemoAction::Show { state: HaloState::Completed, hold_ms: 2_000 },
            DemoAction::Show { state: HaloState::Idle, hold_ms: 0 },
            DemoAction::Finish,
            DemoAction::RestoreLatest,
        ]
    );
}

#[test]
fn state_reads_are_tried_three_times() {
    assert!(retry_after_failure(0));
    assert!(retry_after_failure(1));
    assert!(!retry_after_failure(2));
    assert!(!retry_after_failure(usize::MAX));
}

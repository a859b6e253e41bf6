//! The halo's runtime state machine: entering states, scheduling their
//! timeouts, expiring them, and deciding which events may drive the overlay.
use vstd::prelude::*;

use crate::state::{state_timeout, validation_result, HaloEvent, HaloState};

verus! {

/// The state currently shown and a revision that changes on every transition.
#[derive(Debug, Clone, Copy, PartialEq, Eq, Structural)]
pub struct RuntimeState {
    pub state: HaloState,
    pub revision: u64,
}

/// A request to the timeout worker: expire revision `revision` after `delay_ms`,
/// or cancel any pending expiry when `delay_ms` is `None`.
#[derive(Debug, Clone, Copy, PartialEq, Eq, Structural)]
pub struct TimeoutSchedule {
    pub revision: u64,
    pub delay_ms: Option<u64>,
}

/// A system notification raised when the halo enters a state that asks for the user.
#[derive(Debug, Clone, Copy, PartialEq, Eq, Structural)]
pub enum Notice {
    NeedsAttention,
    TurnCompleted,
}

/// The text of a notification.
pub open spec fn notice_text(notice: Notice) -> Seq<char> {
    match notice {
        Notice::NeedsAttention => "Codex needs your attention"@,
        Notice::TurnCompleted => "Codex turn completed"@,
    }
}

impl Notice {
    /// The text of this notification.
    pub fn message(self) -> (text: &'static str)
        ensures
            text@ == notice_text(self),
    {
        match self {
            Notice::NeedsAttention => "Codex needs your attention",
            Notice::TurnCompleted => "Codex turn completed",
        }
    }
}

/// What entering a state produced: the state left, the timeout to schedule,
/// and the notification to raise, if any.
#[derive(Debug, Clone, Copy, PartialEq, Eq, Structural)]
pub struct Transition {
    pub previous: HaloState,
    pub schedule: TimeoutSchedule,
    pub notice: Option<Notice>,
}

/// The runtime after entering `state`: the revision advances, wrapping at `u64::MAX`.
pub open spec fn entered(runtime: RuntimeState, state: HaloState) -> RuntimeState {
    RuntimeState { state, revision: runtime.revision.wrapping_add(1) }
}

/// The expiry delay for a state: the remaining lifetime when one is given,
/// else the state's own timeout.
pub open spec fn expiry_delay(state: HaloState, remaining_ms: Option<u64>) -> Option<u64> {
    match remaining_ms {
        Some(remaining) => Some(remaining),
        None => state_timeout(state),
    }
}

/// The notification for a change from `previous` to `state`: only a real
/// change into attention or completion raises one.
pub open spec fn notice_for(previous: HaloState, state: HaloState) -> Option<Notice> {
    if state == previous {
        None
    } else {
        match state {
            HaloState::Attention => Some(Notice::NeedsAttention),
            HaloState::Completed => Some(Notice::TurnCompleted),
            _ => None,
        }
    }
}

/// A timeout for revision `expected` hides the halo only while that revision
/// is still current and something is shown.
pub open spec fn timeout_applies(runtime: RuntimeState, expected: u64) -> bool {
    runtime.revision == expected && runtime.state != HaloState::Idle
}

/// The runtime after a timeout for revision `expected` fired.
pub open spec fn expired(runtime: RuntimeState, expected: u64) -> RuntimeState {
    if timeout_applies(runtime, expected) {
        entered(runtime, HaloState::Idle)
    } else {
        runtime
    }
}

impl RuntimeState {
    /// Idle at revision zero.
    pub fn new() -> (runtime: RuntimeState)
        ensures
            runtime == (RuntimeState { state: HaloState::Idle, revision: 0 }),
    {
        RuntimeState { state: HaloState::Idle, revision: 0 }
    }

    /// Enters `state`, advancing the revision, and returns the state left, the
    /// timeout to schedule for the new revision and the notification to raise.
    pub fn enter(&mut self, state: HaloState, remaining_ms: Option<u64>) -> (transition: Transition)
        ensures
            *final(self) == entered(*old(self), state),
            transition == (Transition {
                previous: old(self).state,
                schedule: TimeoutSchedule {
                    revision: final(self).revision,
                    delay_ms: expiry_delay(state, remaining_ms),
                },
                notice: notice_for(old(self).state, state),
            }),
    {
        let previous = self.state;
        self.state = state;
        self.revision = self.revision.wrapping_add(1);
        let delay_ms = match remaining_ms {
            Some(remaining) => Some(remaining),
            None => state.timeout_ms(),
        };
        let notice = if state == previous {
            None
        } else {
            match state {
                HaloState::Attention => Some(Notice::NeedsAttention),
                HaloState::Completed => Some(Notice::TurnCompleted),
                _ => None,
            }
        };
        Transition {
            previous,
            schedule: TimeoutSchedule { revision: self.revision, delay_ms },
            notice,
        }
    }

    /// Handles a timeout scheduled for revision `expected_revision`: returns to
    /// idle and reports `true` only when that revision is still current and the
    /// halo is showing something.
    pub fn expire(&mut self, expected_revision: u64) -> (hidden: bool)
        ensures
            hidden == timeout_applies(*old(self), expected_revision),
            *final(self) == expired(*old(self), expected_revision),
    {
        if self.revision == expected_revision && self.state != HaloState::Idle {
            self.state = HaloState::Idle;
            self.revision = self.revision.wrapping_add(1);
            true
        } else {
            false
        }
    }
}

/// An expiry the worker is waiting for: the revision it belongs to and its
/// deadline on the worker's monotonic millisecond clock.
#[derive(Debug, Clone, Copy, PartialEq, Eq, Structural)]
pub struct PendingTimeout {
    pub revision: u64,
    pub deadline_ms: u64,
}

/// The single timeout worker: at most one expiry is pending, and each new
/// schedule replaces it.
#[derive(Debug, Clone, Copy, PartialEq, Eq, Structural)]
pub struct TimeoutWorker {
    pub pending: Option<PendingTimeout>,
}

/// The pending expiry after a schedule arrives at monotonic time `now_ms`.
pub open spec fn pending_after(schedule: TimeoutSchedule, now_ms: u64) -> Option<PendingTimeout> {
    match schedule.delay_ms {
        Some(delay) => Some(
            PendingTimeout { revision: schedule.revision, deadline_ms: now_ms.saturating_add(delay) },
        ),
        None => None,
    }
}

impl TimeoutWorker {
    /// Nothing pending.
    pub fn new() -> (worker: TimeoutWorker)
        ensures
            worker.pending is None,
    {
        TimeoutWorker { pending: None }
    }

    /// How long to wait for the next schedule before the pending expiry is due;
    /// `None` means wait for a schedule indefinitely.
    pub fn wait_ms(&self, now_ms: u64) -> (wait: Option<u64>)
        ensures
            wait == match self.pending {
                Some(p) => Some(p.deadline_ms.saturating_sub(now_ms)),
                None => None::<u64>,
            },
    {
        match self.pending {
            Some(p) => Some(p.deadline_ms.saturating_sub(now_ms)),
            None => None,
        }
    }

    /// Replaces whatever was pending by the expiry that `schedule` asks for.
    pub fn receive(&mut self, schedule: TimeoutSchedule, now_ms: u64)
        ensures
            final(self).pending == pending_after(schedule, now_ms),
    {
        self.pending = match schedule.delay_ms {
            Some(delay) => Some(
                PendingTimeout {
                    revision: schedule.revision,
                    deadline_ms: now_ms.saturating_add(delay),
                },
            ),
            None => None,
        };
    }

    /// The wait ran out: consumes the pending expiry and applies it to
    /// `runtime`; reports whether the halo must now be hidden.
    pub fn fire(&mut self, runtime: &mut RuntimeState) -> (hidden: bool)
        ensures
            final(self).pending is None,
            match old(self).pending {
                Some(p) => {
                    &&& hidden == timeout_applies(*old(runtime), p.revision)
                    &&& *final(runtime) == expired(*old(runtime), p.revision)
                },
                None => !hidden && *final(runtime) == *old(runtime),
            },
    {
        match self.pending.take() {
            Some(p) => runtime.expire(p.revision),
            None => false,
        }
    }
}

/// The lifetime left to a validated event at time `now_ms`: its state's
/// timeout less the event's age, both saturating at zero.
pub open spec fn remaining_lifetime(event: HaloEvent, now_ms: u64) -> Option<u64> {
    match state_timeout(event.state) {
        Some(timeout) => Some(timeout.saturating_sub(now_ms.saturating_sub(event.updated_at))),
        None => None,
    }
}

/// What a real event asks the runtime to enter, and with which remaining
/// lifetime; nothing while Demo Mode runs or the halo is disabled.
pub open spec fn real_event_request(
    demo_running: bool,
    enabled: bool,
    event: HaloEvent,
    now_ms: u64,
) -> Option<(HaloState, Option<u64>)> {
    if demo_running || !enabled {
        None
    } else {
        Some((event.state, remaining_lifetime(event, now_ms)))
    }
}

/// The lifetime left to `event` at time `now_ms`.
pub fn remaining_ms(event: HaloEvent, now_ms: u64) -> (remaining: Option<u64>)
    ensures
        remaining == remaining_lifetime(event, now_ms),
{
    let age: u64 = now_ms.saturating_sub(event.updated_at);
    match event.state.timeout_ms() {
        Some(timeout) => Some(timeout.saturating_sub(age)),
        None => None,
    }
}

/// Decides what a state read from the bridge asks the runtime to enter.
pub fn real_event_target(demo_running: bool, enabled: bool, event: HaloEvent, now_ms: u64) -> (request: Option<(HaloState, Option<u64>)>)
    ensures
        request == real_event_request(demo_running, enabled, event, now_ms),
{
    if demo_running || !enabled {
        return None;
    }
    Some((event.state, remaining_ms(event, now_ms)))
}

/// Decides what restoring the latest state asks for: idle when no valid
/// state could be read, else what the read event asks for.
pub fn restore_target(demo_running: bool, enabled: bool, latest: Option<HaloEvent>, now_ms: u64) -> (request: Option<(HaloState, Option<u64>)>)
    ensures
        request == restore_target_request(demo_running, enabled, latest, now_ms),
{
    match latest {
        None => Some((HaloState::Idle, None)),
        Some(event) => real_event_target(demo_running, enabled, event, now_ms),
    }
}

/// Why Demo Mode did not start.
#[derive(Debug, Clone, Copy, PartialEq, Eq, Structural)]
pub enum DemoRefusal {
    Disabled,
    AlreadyRunning,
}

/// The text of a Demo Mode refusal.
pub open spec fn refusal_text(refusal: DemoRefusal) -> Seq<char> {
    match refusal {
        DemoRefusal::Disabled => "Enable Halo before starting Demo Mode"@,
        DemoRefusal::AlreadyRunning => "Demo Mode is already running"@,
    }
}

impl DemoRefusal {
    /// The text of this refusal.
    pub fn message(self) -> (text: &'static str)
        ensures
            text@ == refusal_text(self),
    {
        match self {
            DemoRefusal::Disabled => "Enable Halo before starting Demo Mode",
            DemoRefusal::AlreadyRunning => "Demo Mode is already running",
        }
    }
}

/// Demo Mode may start only while the halo is enabled and no demo is running.
pub fn demo_permission(enabled: bool, already_running: bool) -> (permission: Result<(), DemoRefusal>)
    ensures
        permission == if !enabled {
            Err::<(), DemoRefusal>(DemoRefusal::Disabled)
        } else if already_running {
            Err(DemoRefusal::AlreadyRunning)
        } else {
            Ok(())
        },
{
    if !enabled {
        Err(DemoRefusal::Disabled)
    } else if already_running {
        Err(DemoRefusal::AlreadyRunning)
    } else {
        Ok(())
    }
}

/// One step of Demo Mode.
#[derive(Debug, Clone, Copy, PartialEq, Eq, Structural)]
pub enum DemoAction {
    /// Enter `state` with its own timeout and keep it for `hold_ms`.
    Show { state: HaloState, hold_ms: u64 },
    /// Demo Mode is over: real events count again.
    Finish,
    /// Show whatever the state bridge currently says.
    RestoreLatest,
}

/// The Demo Mode script, in order: working for 3 s, attention for 3 s,
/// completed for 2 s, back to idle, then the demo ends and the latest real
/// state is restored.
pub open spec fn demo_script_spec() -> Seq<DemoAction> {
    seq![
        DemoAction::Show { state: HaloState::Working, hold_ms: 3_000 },
        DemoAction::Show { state: HaloState::Attention, hold_ms: 3_000 },
        DemoAction::Show { state: HaloState::Completed, hold_ms: 2_000 },
        DemoAction::Show { state: HaloState::Idle, hold_ms: 0 },
        DemoAction::Finish,
        DemoAction::RestoreLatest,
    ]
}

/// The Demo Mode script, to be performed in order.
pub fn demo_script() -> (script: Vec<DemoAction>)
    ensures
        script@ == demo_script_spec(),
{
    let mut script: Vec<DemoAction> = Vec::new();
    script.push(DemoAction::Show { state: HaloState::Working, hold_ms: 3_000 });
    script.push(DemoAction::Show { state: HaloState::Attention, hold_ms: 3_000 });
    script.push(DemoAction::Show { state: HaloState::Completed, hold_ms: 2_000 });
    script.push(DemoAction::Show { state: HaloState::Idle, hold_ms: 0 });
    script.push(DemoAction::Finish);
    script.push(DemoAction::RestoreLatest);
    assert(script@ =~= demo_script_spec());
    script
}

/// Demo Mode shows every signal in turn and ends dark: the demo's last state is
/// idle, it finishes before the latest real state is restored, and while it
/// runs no real event or restore reaches the runtime.
pub proof fn law_demo_runs_in_order_and_holds_off_real_events(
    enabled: bool,
    event: HaloEvent,
    now_ms: u64,
)
    ensures
        demo_script_spec().len() == 6,
        demo_script_spec()[3] == (DemoAction::Show { state: HaloState::Idle, hold_ms: 0 }),
        demo_script_spec()[4] == DemoAction::Finish,
        demo_script_spec()[5] == DemoAction::RestoreLatest,
        forall|i: int|
            0 <= i < 4 ==> (#[trigger] demo_script_spec()[i]) is Show,
        real_event_request(true, enabled, event, now_ms) is None,
        restore_target_request(true, enabled, Some(event), now_ms) is None,
{
}

/// What restoring the latest state asks for: idle when no valid state could be
/// read, else what the read event asks for.
pub open spec fn restore_target_request(
    demo_running: bool,
    enabled: bool,
    latest: Option<HaloEvent>,
    now_ms: u64,
) -> Option<(HaloState, Option<u64>)> {
    match latest {
        None => Some((HaloState::Idle, None::<u64>)),
        Some(event) => real_event_request(demo_running, enabled, event, now_ms),
    }
}

/// How many times the state file is read before an update is given up.
pub const READ_RETRIES: usize = 3;

/// After failed read number `attempt` (counted from zero): whether to wait and
/// read again, which holds while attempts remain.
pub fn retry_after_failure(attempt: usize) -> (again: bool)
    ensures
        again == (attempt + 1 < READ_RETRIES),
{
    attempt < READ_RETRIES - 1
}

/// A remaining lifetime, when one is given, is always the delay scheduled,
/// whatever the state; without one, each state gets its own lifetime and idle
/// gets none.
pub proof fn law_given_lifetime_is_scheduled(state: HaloState, remaining: u64)
    ensures
        expiry_delay(state, Some(remaining)) == Some(remaining),
        expiry_delay(state, None) == match state {
            HaloState::Idle => None::<u64>,
            HaloState::Working => Some(1_800_000u64),
            HaloState::Attention => Some(3_600_000u64),
            HaloState::Completed => Some(2_000u64),
        },
{
}

/// An event's remaining lifetime and its age add up to its state's lifetime
/// (30 minutes working, one hour attention, two seconds completed), down to
/// zero once that lifetime is spent; an event dated in the future has aged
/// nothing, and idle has no lifetime at all.
pub proof fn law_remaining_lifetime_accounts_for_age(event: HaloEvent, now_ms: u64)
    ensures
        ({
            let age: int = if now_ms >= event.updated_at {
                now_ms - event.updated_at
            } else {
                0
            };
            let lifetime: int = match event.state {
                HaloState::Idle => 0,
                HaloState::Working => 1_800_000,
                HaloState::Attention => 3_600_000,
                HaloState::Completed => 2_000,
            };
            &&& event.state == HaloState::Idle ==> remaining_lifetime(event, now_ms) is None
            &&& event.state != HaloState::Idle ==> (remaining_lifetime(event, now_ms) matches Some(
                left,
            ) && (age <= lifetime ==> left + age == lifetime) && (age > lifetime ==> left == 0))
        }),
{
}

/// A timeout scheduled when a state is entered returns the halo to idle, as
/// long as nothing else happened in between.
pub proof fn law_timeout_returns_to_idle(runtime: RuntimeState, state: HaloState)
    ensures
        expired(entered(runtime, state), entered(runtime, state).revision).state == HaloState::Idle,
{
}

/// A timeout from an earlier transition never touches a later state.
pub proof fn law_stale_timeout_is_ignored(runtime: RuntimeState, first: HaloState, second: HaloState)
    ensures
        expired(entered(entered(runtime, first), second), entered(runtime, first).revision)
            == entered(entered(runtime, first), second),
{
}

/// Idle never times out.
pub proof fn law_idle_never_expires(runtime: RuntimeState, expected: u64)
    requires
        runtime.state == HaloState::Idle,
    ensures
        expired(runtime, expected) == runtime,
{
}

/// A state accepted at time `now_ms` still has time left at that moment, so an
/// accepted non-idle event is always shown before it expires.
pub proof fn law_accepted_event_has_time_left(
    state: Seq<char>,
    updated_at: u64,
    now_ms: u64,
    event: HaloEvent,
)
    requires
        validation_result(state, updated_at, now_ms) == Ok::<HaloEvent, Seq<char>>(event),
        event.state != HaloState::Idle,
    ensures
        remaining_lifetime(event, now_ms) matches Some(left) && left > 0,
{
}

} // verus!

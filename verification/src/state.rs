use vstd::prelude::*;

use crate::text::str_equals;

verus! {

/// How long a `working` signal stays alive without a fresh update.
pub const WORKING_TIMEOUT_MS: u64 = 1_800_000;

/// How long an `attention` signal stays alive without a fresh update.
pub const ATTENTION_TIMEOUT_MS: u64 = 3_600_000;

/// How long the `completed` sweep is shown.
pub const COMPLETED_DURATION_MS: u64 = 2_000;

/// How far in the future a state timestamp may lie before it is refused.
pub const MAX_FUTURE_SKEW_MS: u64 = 300_000;

/// The four signals the halo can show.
#[derive(Debug, Clone, Copy, PartialEq, Eq, Structural)]
pub enum HaloState {
    Idle,
    Working,
    Attention,
    Completed,
}

/// The textual name of a state, as written in the state file and sent to the overlay.
pub open spec fn state_name(state: HaloState) -> Seq<char> {
    match state {
        HaloState::Idle => "idle"@,
        HaloState::Working => "working"@,
        HaloState::Attention => "attention"@,
        HaloState::Completed => "completed"@,
    }
}

/// The state whose name is `text`, if any.
pub open spec fn state_named(text: Seq<char>) -> Option<HaloState> {
    if text == "idle"@ {
        Some(HaloState::Idle)
    } else if text == "working"@ {
        Some(HaloState::Working)
    } else if text == "attention"@ {
        Some(HaloState::Attention)
    } else if text == "completed"@ {
        Some(HaloState::Completed)
    } else {
        None
    }
}

/// The lifetime of a state; `Idle` never times out.
pub open spec fn state_timeout(state: HaloState) -> Option<u64> {
    match state {
        HaloState::Idle => None,
        HaloState::Working => Some(WORKING_TIMEOUT_MS),
        HaloState::Attention => Some(ATTENTION_TIMEOUT_MS),
        HaloState::Completed => Some(COMPLETED_DURATION_MS),
    }
}

impl HaloState {
    /// Reads a state from its textual name.
    pub fn parse(value: &str) -> (result: Option<HaloState>)
        ensures
            result == state_named(value@),
    {
        if str_equals(value, "idle") {
            Some(HaloState::Idle)
        } else if str_equals(value, "working") {
            Some(HaloState::Working)
        } else if str_equals(value, "attention") {
            Some(HaloState::Attention)
        } else if str_equals(value, "completed") {
            Some(HaloState::Completed)
        } else {
            None
        }
    }

    /// The textual name of this state.
    pub fn as_str(self) -> (name: &'static str)
        ensures
            name@ == state_name(self),
    {
        match self {
            HaloState::Idle => "idle",
            HaloState::Working => "working",
            HaloState::Attention => "attention",
            HaloState::Completed => "completed",
        }
    }

    /// How long this state lasts before it falls back to idle.
    pub fn timeout_ms(self) -> (timeout: Option<u64>)
        ensures
            timeout == state_timeout(self),
    {
        match self {
            HaloState::Idle => None,
            HaloState::Working => Some(WORKING_TIMEOUT_MS),
            HaloState::Attention => Some(ATTENTION_TIMEOUT_MS),
            HaloState::Completed => Some(COMPLETED_DURATION_MS),
        }
    }
}

/// Every state reads back from its name.
pub proof fn law_state_name_round_trip(state: HaloState)
    ensures
        state_named(state_name(state)) == Some(state),
{
    reveal_strlit("idle");
    reveal_strlit("working");
    reveal_strlit("attention");
    reveal_strlit("completed");
    assert("idle"@.len() != "working"@.len());
    assert("idle"@.len() != "attention"@.len());
    assert("working"@.len() != "attention"@.len());
    assert("attention"@[0] != "completed"@[0]);
}

/// The state bridge record as read from `state.json`.
#[derive(Debug, Clone)]
pub struct StateFile {
    pub state: String,
    pub updated_at: u64,
    pub session_id: Option<String>,
    pub event: Option<String>,
}

/// A validated state together with the moment it was recorded.
#[derive(Debug, Clone, Copy, PartialEq, Eq, Structural)]
pub struct HaloEvent {
    pub state: HaloState,
    pub updated_at: u64,
}

/// The outcome of validating a state record at `now_ms`: the event when every
/// check passes, else the message of the first check that fails.
pub open spec fn validation_result(state: Seq<char>, updated_at: u64, now_ms: u64) -> Result<
    HaloEvent,
    Seq<char>,
> {
    match state_named(state) {
        None => Err("unknown state"@),
        Some(parsed) => {
            if updated_at > now_ms.saturating_add(MAX_FUTURE_SKEW_MS) {
                Err("timestamp is too far in the future"@)
            } else if state_timeout(parsed) matches Some(timeout) && now_ms.saturating_sub(
                updated_at,
            ) >= timeout {
                Err("state is expired"@)
            } else {
                Ok(HaloEvent { state: parsed, updated_at })
            }
        },
    }
}

impl StateFile {
    /// Accepts the record at time `now_ms` when its state is known, it is not
    /// dated more than the allowed skew into the future, and it has not outlived
    /// its state's timeout; otherwise names the first check that failed.
    pub fn validate(self, now_ms: u64) -> (result: Result<HaloEvent, &'static str>)
        ensures
            match result {
                Ok(event) => validation_result(self.state@, self.updated_at, now_ms) == Ok::<
                    HaloEvent,
                    Seq<char>,
                >(event),
                Err(message) => validation_result(self.state@, self.updated_at, now_ms) == Err::<
                    HaloEvent,
                    Seq<char>,
                >(message@),
            },
    {
        let state = match HaloState::parse(self.state.as_str()) {
            Some(state) => state,
            None => return Err("unknown state"),
        };
        if self.updated_at > now_ms.saturating_add(MAX_FUTURE_SKEW_MS) {
            return Err("timestamp is too far in the future");
        }
        if let Some(timeout) = state.timeout_ms() {
            if now_ms.saturating_sub(self.updated_at) >= timeout {
                return Err("state is expired");
            }
        }
        Ok(HaloEvent { state, updated_at: self.updated_at })
    }
}

/// A record with a known state, dated no further ahead than the allowed skew,
/// and younger than that state's own lifetime (30 minutes working, one hour
/// attention, two seconds completed; idle never ages) is accepted as it is.
pub proof fn law_fresh_known_state_is_accepted(
    state: Seq<char>,
    updated_at: u64,
    now_ms: u64,
    parsed: HaloState,
)
    requires
        state_named(state) == Some(parsed),
        updated_at <= now_ms + MAX_FUTURE_SKEW_MS,
        parsed == HaloState::Working ==> now_ms - updated_at < 1_800_000,
        parsed == HaloState::Attention ==> now_ms - updated_at < 3_600_000,
        parsed == HaloState::Completed ==> now_ms - updated_at < 2_000,
    ensures
        validation_result(state, updated_at, now_ms) == Ok::<HaloEvent, Seq<char>>(
            HaloEvent { state: parsed, updated_at },
        ),
{
}

/// A record dated beyond the allowed skew, or at least as old as its state's
/// lifetime, is refused, and so is any record whose state is unknown.
pub proof fn law_stale_future_or_unknown_state_is_refused(
    state: Seq<char>,
    updated_at: u64,
    now_ms: u64,
)
    requires
        state_named(state) is None || updated_at > now_ms + MAX_FUTURE_SKEW_MS || (state_named(state)
            == Some(HaloState::Working) && now_ms - updated_at >= 1_800_000) || (state_named(state)
            == Some(HaloState::Attention) && now_ms - updated_at >= 3_600_000) || (state_named(state)
            == Some(HaloState::Completed) && now_ms - updated_at >= 2_000),
    ensures
        validation_result(state, updated_at, now_ms) is Err,
{
}

/// Milliseconds since the Unix epoch as read from the system clock, or `None`
/// when the clock is set before the epoch.
///
/// Calls `std::time::SystemTime::elapsed` on `UNIX_EPOCH`. The reading depends
/// on the clock, so nothing is promised of it.
#[verifier::external_body]
fn system_clock_millis() -> Option<u128> {
    std::time::UNIX_EPOCH.elapsed().ok().map(|elapsed| elapsed.as_millis())
}

/// A clock reading in milliseconds narrowed to `u64`: a clock before the epoch
/// reads as zero and a reading beyond `u64::MAX` saturates.
pub open spec fn narrowed_millis(reading: Option<u128>) -> u64 {
    match reading {
        None => 0,
        Some(millis) => if millis > u64::MAX as u128 {
            u64::MAX
        } else {
            millis as u64
        },
    }
}

/// Narrows a clock reading to the `u64` milliseconds the state machine works in.
pub fn millis_from_reading(reading: Option<u128>) -> (millis: u64)
    ensures
        millis == narrowed_millis(reading),
{
    match reading {
        None => 0,
        Some(millis) => if millis > u64::MAX as u128 {
            u64::MAX
        } else {
            millis as u64
        },
    }
}

/// The current wall-clock time in Unix milliseconds.
pub fn unix_time_ms() -> u64 {
    millis_from_reading(system_clock_millis())
}

} // verus!

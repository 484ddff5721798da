//! Contextual User Presence with replay protection.
//!
//! The controller is a pure state machine driven by sampled button levels and
//! a monotonic millisecond clock. Presence is bound to a specific FIDO
//! operation and consumed at most once.
use vstd::prelude::*;
use crate::configuration::PresenceConfig;
use crate::error::CoreError;
use crate::state::{bootsel_allowed_as_presence, ExecutionState};

verus! {

/// Error returned while waiting for or arming presence.
#[derive(Debug, Clone, Copy, PartialEq, Eq, Structural)]
#[non_exhaustive]
pub enum PresenceError {
    /// No presence was provided before the timeout elapsed.
    Timeout,
    /// The waiting operation was cancelled.
    Cancelled,
    /// Presence was already armed for another operation.
    AlreadyArmed,
    /// Presence was requested without being armed.
    NotArmed,
}

impl PresenceError {
    /// The human-readable name of each error.
    pub open spec fn spec_name(self) -> Seq<char> {
        match self {
            PresenceError::Timeout => "presence timeout"@,
            PresenceError::Cancelled => "presence cancelled"@,
            PresenceError::AlreadyArmed => "presence already armed"@,
            PresenceError::NotArmed => "presence not armed"@,
        }
    }

    /// Short human-readable name.
    #[must_use]
    pub fn as_str(self) -> (r: &'static str)
        ensures
            r@ == self.spec_name(),
    {
        match self {
            PresenceError::Timeout => "presence timeout",
            PresenceError::Cancelled => "presence cancelled",
            PresenceError::AlreadyArmed => "presence already armed",
            PresenceError::NotArmed => "presence not armed",
        }
    }

    /// The core category of each error.
    pub open spec fn category(self) -> CoreError {
        match self {
            PresenceError::Cancelled => CoreError::Unauthorized,
            _ => CoreError::InvalidState,
        }
    }
}

impl From<PresenceError> for CoreError {
    fn from(value: PresenceError) -> (r: Self) {
        match value {
            PresenceError::Cancelled => CoreError::Unauthorized,
            PresenceError::Timeout | PresenceError::AlreadyArmed | PresenceError::NotArmed => {
                CoreError::InvalidState
            },
        }
    }
}

impl vstd::std_specs::convert::FromSpecImpl<PresenceError> for CoreError {
    open spec fn obeys_from_spec() -> bool {
        true
    }

    open spec fn from_spec(value: PresenceError) -> CoreError {
        value.category()
    }
}

/// Blocking hardware abstraction for a presence source.
pub trait UserPresence {
    /// Block until presence is confirmed for the current operation.
    fn wait_for_presence(&mut self) -> Result<(), PresenceError>;
}

/// Debounce and timeout parameters.
#[derive(Debug, Clone, Copy, PartialEq, Eq, Structural)]
pub struct PresenceTiming {
    /// Debounce interval, in milliseconds.
    pub debounce_ms: u16,
    /// Timeout, in milliseconds.
    pub timeout_ms: u16,
}

impl From<&PresenceConfig> for PresenceTiming {
    fn from(config: &PresenceConfig) -> (r: Self) {
        Self { debounce_ms: config.debounce_ms, timeout_ms: config.timeout_ms }
    }
}

impl vstd::std_specs::convert::FromSpecImpl<&PresenceConfig> for PresenceTiming {
    open spec fn obeys_from_spec() -> bool {
        true
    }

    open spec fn from_spec(config: &PresenceConfig) -> PresenceTiming {
        PresenceTiming { debounce_ms: config.debounce_ms, timeout_ms: config.timeout_ms }
    }
}

/// Result of advancing the presence controller.
#[derive(Debug, Clone, Copy, PartialEq, Eq, Structural)]
pub enum PresenceOutcome {
    /// Presence was confirmed for `operation_id`.
    Confirmed {
        /// The FIDO operation that requested presence.
        operation_id: u32,
    },
    /// The operation timed out without presence.
    Timeout {
        /// The FIDO operation that requested presence.
        operation_id: u32,
    },
}

/// An operation that awaits presence.
#[derive(Debug, Clone, Copy, PartialEq, Eq, Structural)]
pub struct Armed {
    /// The operation.
    pub operation_id: u32,
    /// When it times out.
    pub deadline_ms: u64,
}

/// What a presence controller knows.
#[derive(Debug, Clone, Copy, PartialEq, Eq, Structural)]
pub struct PresenceState {
    /// Debounce and timeout parameters.
    pub timing: PresenceTiming,
    /// The operation awaiting presence.
    pub armed: Option<Armed>,
    /// The last sampled level.
    pub raw_pressed: bool,
    /// The level that was last stable for the debounce interval.
    pub debounced_pressed: bool,
    /// When the sampled level last changed.
    pub raw_change_ms: u64,
    /// Set when arming while the button is already down. A fresh release is
    /// then required before a press can count, preventing a press captured
    /// before the operation from being replayed into it.
    pub awaiting_release: bool,
}

impl PresenceState {
    /// The state of a new controller.
    pub open spec fn initial(timing: PresenceTiming) -> PresenceState {
        PresenceState {
            timing,
            armed: None,
            raw_pressed: false,
            debounced_pressed: false,
            raw_change_ms: 0,
            awaiting_release: false,
        }
    }

    /// The state with presence armed for an operation.
    pub open spec fn arming(self, operation_id: u32, now_ms: u64) -> PresenceState {
        PresenceState {
            armed: Some(
                Armed { operation_id, deadline_ms: (now_ms + self.timing.timeout_ms) as u64 },
            ),
            awaiting_release: self.raw_pressed || self.debounced_pressed,
            ..self
        }
    }

    /// The state with nothing armed.
    pub open spec fn disarmed(self) -> PresenceState {
        PresenceState { armed: None, awaiting_release: false, ..self }
    }

    /// The state after a sample of the button.
    pub open spec fn sampled(self, pressed: bool, now_ms: u64) -> PresenceState {
        if pressed != self.raw_pressed {
            PresenceState { raw_pressed: pressed, raw_change_ms: now_ms, ..self }
        } else {
            self
        }
    }

    /// Whether the sampled level differs from the debounced one and has been
    /// stable for the debounce interval.
    pub open spec fn settles(self, now_ms: u64) -> bool {
        self.raw_pressed != self.debounced_pressed && (self.timing.debounce_ms == 0 || now_ms
            - self.raw_change_ms >= self.timing.debounce_ms)
    }

    /// The state with the debounced level brought up to date. A settled release
    /// ends the wait for one.
    pub open spec fn promoted(self, now_ms: u64) -> PresenceState {
        if self.settles(now_ms) {
            PresenceState {
                debounced_pressed: self.raw_pressed,
                awaiting_release: self.awaiting_release && self.raw_pressed,
                ..self
            }
        } else {
            self
        }
    }

    /// Whether a press that counts settles at `now_ms`.
    pub open spec fn confirms(self, now_ms: u64) -> bool {
        self.settles(now_ms) && self.raw_pressed && !self.awaiting_release && self.armed is Some
    }

    /// Whether the armed operation is past its deadline at `now_ms`.
    pub open spec fn expires(self, now_ms: u64) -> bool {
        self.armed is Some && now_ms >= self.armed->0.deadline_ms
    }

    /// The state after time has advanced to `now_ms`.
    pub open spec fn advanced(self, now_ms: u64) -> PresenceState {
        if self.confirms(now_ms) {
            PresenceState { armed: None, ..self.promoted(now_ms) }
        } else if self.expires(now_ms) {
            self.promoted(now_ms).disarmed()
        } else {
            self.promoted(now_ms)
        }
    }

    /// What advancing time to `now_ms` reports.
    pub open spec fn reports(self, now_ms: u64) -> Option<PresenceOutcome> {
        if self.confirms(now_ms) {
            Some(PresenceOutcome::Confirmed { operation_id: self.armed->0.operation_id })
        } else if self.expires(now_ms) {
            Some(PresenceOutcome::Timeout { operation_id: self.armed->0.operation_id })
        } else {
            None
        }
    }
}

/// Pure presence state machine.
#[derive(Debug, Clone)]
pub struct PresenceController {
    state: PresenceState,
}

impl View for PresenceController {
    type V = PresenceState;

    closed spec fn view(&self) -> PresenceState {
        self.state
    }
}

impl PresenceController {
    /// Create a controller with the given timing.
    #[must_use]
    pub fn new(timing: PresenceTiming) -> (r: Self)
        ensures
            r@ == PresenceState::initial(timing),
    {
        Self {
            state: PresenceState {
                timing,
                armed: None,
                raw_pressed: false,
                debounced_pressed: false,
                raw_change_ms: 0,
                awaiting_release: false,
            },
        }
    }

    /// Arm presence for `operation_id`. Fails if already armed.
    pub fn arm(&mut self, operation_id: u32, now_ms: u64) -> (r: Result<(), PresenceError>)
        requires
            now_ms + old(self)@.timing.timeout_ms <= u64::MAX,
        ensures
            old(self)@.armed is Some ==> r == Err::<(), PresenceError>(PresenceError::AlreadyArmed)
                && final(self)@ == old(self)@,
            old(self)@.armed is None ==> r == Ok::<(), PresenceError>(()) && final(self)@ == old(
                self,
            )@.arming(operation_id, now_ms),
    {
        if self.state.armed.is_some() {
            return Err(PresenceError::AlreadyArmed);
        }
        self.state.armed = Some(
            Armed { operation_id, deadline_ms: now_ms + self.state.timing.timeout_ms as u64 },
        );
        self.state.awaiting_release = self.state.raw_pressed || self.state.debounced_pressed;
        Ok(())
    }

    /// Disarm any pending presence.
    pub fn disarm(&mut self)
        ensures
            final(self)@ == old(self)@.disarmed(),
    {
        self.state.armed = None;
        self.state.awaiting_release = false;
    }

    /// Whether presence is currently armed.
    #[must_use]
    pub fn is_armed(&self) -> (r: bool)
        ensures
            r == (self@.armed is Some),
    {
        self.state.armed.is_some()
    }

    /// The operation currently awaiting presence, if any.
    #[must_use]
    pub fn armed_operation(&self) -> (r: Option<u32>)
        ensures
            r is Some <==> self@.armed is Some,
            r matches Some(operation_id) ==> operation_id == self@.armed->0.operation_id,
    {
        match self.state.armed {
            Some(armed) => Some(armed.operation_id),
            None => None,
        }
    }

    /// Feed an instantaneous raw button level and advance time.
    pub fn update(&mut self, pressed: bool, now_ms: u64) -> (r: Option<PresenceOutcome>)
        ensures
            final(self)@ == old(self)@.sampled(pressed, now_ms).advanced(now_ms),
            r == old(self)@.sampled(pressed, now_ms).reports(now_ms),
    {
        if pressed != self.state.raw_pressed {
            self.state.raw_pressed = pressed;
            self.state.raw_change_ms = now_ms;
        }
        self.settle(now_ms)
    }

    /// Advance time without a new sample (used for debounce settling/timeout).
    pub fn poll(&mut self, now_ms: u64) -> (r: Option<PresenceOutcome>)
        ensures
            final(self)@ == old(self)@.advanced(now_ms),
            r == old(self)@.reports(now_ms),
    {
        self.settle(now_ms)
    }

    fn settle(&mut self, now_ms: u64) -> (r: Option<PresenceOutcome>)
        ensures
            final(self)@ == old(self)@.advanced(now_ms),
            r == old(self)@.reports(now_ms),
    {
        // Promote the raw level once it has been stable for the debounce window.
        if self.state.raw_pressed != self.state.debounced_pressed && now_ms.saturating_sub(
            self.state.raw_change_ms,
        ) >= self.state.timing.debounce_ms as u64 {
            self.state.debounced_pressed = self.state.raw_pressed;
            if self.state.debounced_pressed {
                if self.state.awaiting_release {
                    // Ignored: the button was already down when presence was armed.
                } else if let Some(armed) = self.state.armed {
                    self.state.armed = None;
                    return Some(PresenceOutcome::Confirmed { operation_id: armed.operation_id });
                }
            } else {
                self.state.awaiting_release = false;
            }
        }
        if let Some(armed) = self.state.armed {
            if now_ms >= armed.deadline_ms {
                self.state.armed = None;
                self.state.awaiting_release = false;
                return Some(PresenceOutcome::Timeout { operation_id: armed.operation_id });
            }
        }
        None
    }
}

/// Enforces the contextual BOOTSEL rule.
///
/// Presence is only armed and only accepts samples while the execution state is
/// [`ExecutionState::FidoWaitPresence`]. Leaving that state disarms any pending
/// operation, and a button that is down elsewhere must be released before it
/// counts, so a press captured elsewhere can never approve a FIDO operation.
pub struct ContextualPresence {
    controller: PresenceController,
}

impl View for ContextualPresence {
    type V = PresenceState;

    closed spec fn view(&self) -> PresenceState {
        self.controller@
    }
}

impl ContextualPresence {
    /// Create a contextual presence gate.
    #[must_use]
    pub fn new(timing: PresenceTiming) -> (r: Self)
        ensures
            r@ == PresenceState::initial(timing),
    {
        Self { controller: PresenceController::new(timing) }
    }

    /// Arm presence for `operation_id`, only if `state` allows it.
    pub fn arm(&mut self, state: ExecutionState, operation_id: u32, now_ms: u64) -> (r: Result<
        (),
        PresenceError,
    >)
        requires
            now_ms + old(self)@.timing.timeout_ms <= u64::MAX,
        ensures
            state != ExecutionState::FidoWaitPresence ==> r == Err::<(), PresenceError>(
                PresenceError::NotArmed,
            ) && final(self)@ == old(self)@,
            state == ExecutionState::FidoWaitPresence && old(self)@.armed is Some ==> r == Err::<
                (),
                PresenceError,
            >(PresenceError::AlreadyArmed) && final(self)@ == old(self)@,
            state == ExecutionState::FidoWaitPresence && old(self)@.armed is None ==> r == Ok::<
                (),
                PresenceError,
            >(()) && final(self)@ == old(self)@.arming(operation_id, now_ms),
    {
        if !bootsel_allowed_as_presence(state) {
            return Err(PresenceError::NotArmed);
        }
        self.controller.arm(operation_id, now_ms)
    }

    /// Disarm any pending presence.
    pub fn disarm(&mut self)
        ensures
            final(self)@ == old(self)@.disarmed(),
    {
        self.controller.disarm();
    }

    /// Whether presence is armed.
    #[must_use]
    pub fn is_armed(&self) -> (r: bool)
        ensures
            r == (self@.armed is Some),
    {
        self.controller.is_armed()
    }

    /// Feed a raw button level, gated on the execution state. Outside the wait the
    /// level is followed, but nothing is armed that it could confirm.
    pub fn update(&mut self, state: ExecutionState, pressed: bool, now_ms: u64) -> (r: Option<
        PresenceOutcome,
    >)
        ensures
            state == ExecutionState::FidoWaitPresence ==> final(self)@ == old(self)@.sampled(
                pressed,
                now_ms,
            ).advanced(now_ms) && r == old(self)@.sampled(pressed, now_ms).reports(now_ms),
            state != ExecutionState::FidoWaitPresence ==> final(self)@
                == old(self)@.disarmed().sampled(pressed, now_ms).advanced(now_ms) && r is None,
    {
        if !bootsel_allowed_as_presence(state) {
            self.controller.disarm();
        }
        self.controller.update(pressed, now_ms)
    }

    /// Advance time, gated on the execution state.
    pub fn poll(&mut self, state: ExecutionState, now_ms: u64) -> (r: Option<PresenceOutcome>)
        ensures
            state == ExecutionState::FidoWaitPresence ==> final(self)@ == old(self)@.advanced(
                now_ms,
            ) && r == old(self)@.reports(now_ms),
            state != ExecutionState::FidoWaitPresence ==> final(self)@ == old(self)@.disarmed()
                && r is None,
    {
        if !bootsel_allowed_as_presence(state) {
            self.controller.disarm();
            return None;
        }
        self.controller.poll(now_ms)
    }
}

/// Presence is bound to the armed operation and consumed by it: whatever a step
/// reports names the operation that was armed, and disarms it.
pub proof fn presence_is_bound_and_consumed_once(state: PresenceState, now_ms: u64)
    ensures
        state.reports(now_ms) matches Some(outcome) ==> {
            &&& state.armed is Some
            &&& outcome == (PresenceOutcome::Confirmed {
                operation_id: state.armed->0.operation_id,
            }) || outcome == (PresenceOutcome::Timeout { operation_id: state.armed->0.operation_id })
            &&& state.advanced(now_ms).armed is None
        },
        state.armed is None ==> state.reports(now_ms) is None && state.advanced(now_ms).armed
            is None,
{
}

/// A press only confirms when it has been stable for the debounce interval and
/// is no press that was already there when the operation was armed.
pub proof fn confirmation_takes_a_settled_fresh_press(state: PresenceState, now_ms: u64)
    ensures
        state.reports(now_ms) matches Some(PresenceOutcome::Confirmed { .. }) ==> {
            &&& state.raw_pressed
            &&& !state.debounced_pressed
            &&& !state.awaiting_release
            &&& now_ms - state.raw_change_ms >= state.timing.debounce_ms || state.timing.debounce_ms
                == 0
        },
{
}

/// An armed operation is answered at its deadline at the latest.
pub proof fn deadline_ends_the_wait(state: PresenceState, now_ms: u64)
    ensures
        state.armed matches Some(armed) && now_ms >= armed.deadline_ms ==> state.reports(now_ms)
            is Some && state.advanced(now_ms).armed is None,
{
}

/// The state after the samples `s` of level and time.
pub open spec fn after_samples(state: PresenceState, s: Seq<(bool, u64)>) -> PresenceState
    decreases s.len(),
{
    if s.len() == 0 {
        state
    } else {
        let (pressed, now_ms) = s.last();
        after_samples(state, s.drop_last()).sampled(pressed, now_ms).advanced(now_ms)
    }
}

/// A press that was captured before an operation was armed never approves it:
/// however long the button stays down after arming, no sample confirms.
pub proof fn held_button_is_never_replayed(
    state: PresenceState,
    operation_id: u32,
    armed_ms: u64,
    s: Seq<(bool, u64)>,
    now_ms: u64,
)
    requires
        state.armed is None,
        state.raw_pressed || state.debounced_pressed,
        forall|i: int| 0 <= i < s.len() ==> (#[trigger] s[i]).0,
    ensures
        !(after_samples(state.arming(operation_id, armed_ms), s).sampled(true, now_ms).reports(
            now_ms,
        ) matches Some(PresenceOutcome::Confirmed { .. })),
{
    held_button_keeps_waiting(state, operation_id, armed_ms, s);
}

proof fn held_button_keeps_waiting(
    state: PresenceState,
    operation_id: u32,
    armed_ms: u64,
    s: Seq<(bool, u64)>,
)
    requires
        state.armed is None,
        state.raw_pressed || state.debounced_pressed,
        forall|i: int| 0 <= i < s.len() ==> (#[trigger] s[i]).0,
    ensures
        ({
            let after = after_samples(state.arming(operation_id, armed_ms), s);
            after.armed is None || after.awaiting_release
        }),
    decreases s.len(),
{
    if s.len() > 0 {
        held_button_keeps_waiting(state, operation_id, armed_ms, s.drop_last());
        assert(s.last().0);
    }
}

/// A press that was sampled outside the wait never approves an operation that is
/// armed afterwards: until the button was released, no sample confirms.
pub proof fn press_outside_the_wait_never_approves(
    state: PresenceState,
    outside_ms: u64,
    operation_id: u32,
    armed_ms: u64,
    s: Seq<(bool, u64)>,
    now_ms: u64,
)
    requires
        forall|i: int| 0 <= i < s.len() ==> (#[trigger] s[i]).0,
    ensures
        ({
            let captured = state.disarmed().sampled(true, outside_ms).advanced(outside_ms);
            let waiting = captured.arming(operation_id, armed_ms);
            &&& captured.armed is None
            &&& waiting.awaiting_release
            &&& !(after_samples(waiting, s).sampled(true, now_ms).reports(now_ms) matches Some(
                PresenceOutcome::Confirmed { .. },
            ))
        }),
{
    let captured = state.disarmed().sampled(true, outside_ms).advanced(outside_ms);
    held_button_is_never_replayed(captured, operation_id, armed_ms, s, now_ms);
}

/// Leaving the presence wait disarms: nothing can be reported for the pending
/// operation afterwards.
pub proof fn leaving_the_wait_disarms(state: PresenceState, pressed: bool, now_ms: u64)
    ensures
        state.disarmed().sampled(pressed, now_ms).reports(now_ms) is None,
        state.disarmed().reports(now_ms) is None,
{
}

} // verus!

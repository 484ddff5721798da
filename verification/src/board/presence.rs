//! Presence button decisions.
//!
//! A [`Button`] produces an instantaneous pressed/released level. A
//! [`ButtonPresence`] joins one with the presence state machine to provide
//! debounced, consume-once, operation-bound user presence. Between two steps of a
//! wait the caller lets one polling period pass.
use vstd::prelude::*;
use crate::presence::{
    PresenceController, PresenceError, PresenceOutcome, PresenceState, PresenceTiming,
};

verus! {

/// Polling period for the button, in milliseconds.
pub const POLL_MS: u64 = 1;

/// Position of the INFROM_PAD bit in `IO_QSPI` `GPIO_STATUS`.
pub const INFROM_PAD_BIT: u32 = 0x2_0000;

/// An instantaneous presence button.
pub trait Button {
    /// The levels that were sampled so far, in order. An implementation that is
    /// proved gives its own body; the default serves those that are not.
    open spec fn samples(&self) -> Seq<bool> {
        arbitrary()
    }

    /// Whether the button is currently pressed.
    fn is_pressed(&mut self) -> (r: bool)
        ensures
            final(self).samples() == old(self).samples().push(r),
    ;
}

/// Whether a reading of the BOOTSEL pad status says that the button is pressed.
/// BOOTSEL is active low.
#[must_use]
pub fn bootsel_pressed(status: u32) -> (r: bool)
    ensures
        r == (status / 0x2_0000 % 2 == 0),
{
    assert((status & 0x2_0000) == 0 <==> status / 0x2_0000 % 2 == 0) by (bit_vector);
    (status & INFROM_PAD_BIT) == 0
}

/// A wait for presence, with the time that has passed in it.
#[derive(Debug, Clone)]
pub struct PresenceWait {
    controller: PresenceController,
    now_ms: u64,
}

/// Where a wait stands.
pub struct WaitState {
    /// The presence state machine.
    pub presence: PresenceState,
    /// Milliseconds since the wait began.
    pub now_ms: u64,
}

impl View for PresenceWait {
    type V = WaitState;

    closed spec fn view(&self) -> WaitState {
        WaitState { presence: self.controller@, now_ms: self.now_ms }
    }
}

/// What a wait says of an outcome.
pub open spec fn answer_to(outcome: Option<PresenceOutcome>) -> Option<Result<(), PresenceError>> {
    match outcome {
        Some(PresenceOutcome::Confirmed { .. }) => Some(Ok(())),
        Some(PresenceOutcome::Timeout { .. }) => Some(Err(PresenceError::Timeout)),
        None => None,
    }
}

impl WaitState {
    /// Whether the wait is on, within its deadline.
    pub open spec fn waiting(self) -> bool {
        self.presence.armed matches Some(armed) && self.now_ms <= armed.deadline_ms
    }

    /// What the next sample answers.
    pub open spec fn answer(self, pressed: bool) -> Option<Result<(), PresenceError>> {
        answer_to(self.presence.sampled(pressed, self.now_ms).reports(self.now_ms))
    }

    /// The wait after the next sample: one polling period on, unless it is over.
    pub open spec fn after(self, pressed: bool) -> WaitState {
        WaitState {
            presence: self.presence.sampled(pressed, self.now_ms).advanced(self.now_ms),
            now_ms: if self.answer(pressed) is None {
                (self.now_ms + POLL_MS) as u64
            } else {
                self.now_ms
            },
        }
    }

    /// The wait begun anew for an operation.
    pub open spec fn begun(self, operation_id: u32) -> WaitState {
        WaitState { presence: self.presence.disarmed().arming(operation_id, 0), now_ms: 0 }
    }
}

impl PresenceWait {
    /// A wait that has not begun.
    #[must_use]
    pub fn new(timing: PresenceTiming) -> (r: Self)
        ensures
            r@.presence == PresenceState::initial(timing),
            r@.now_ms == 0,
    {
        Self { controller: PresenceController::new(timing), now_ms: 0 }
    }

    /// Begin to wait for `operation_id`, dropping what was awaited before.
    pub fn begin(&mut self, operation_id: u32) -> (r: Result<(), PresenceError>)
        ensures
            r == Ok::<(), PresenceError>(()),
            final(self)@ == old(self)@.begun(operation_id),
            final(self)@.waiting(),
    {
        self.controller.disarm();
        self.now_ms = 0;
        self.controller.arm(operation_id, 0)
    }

    /// Take one sample of the button. `None` asks to wait one polling period and
    /// to sample again.
    pub fn step(&mut self, pressed: bool) -> (r: Option<Result<(), PresenceError>>)
        requires
            old(self)@.waiting(),
        ensures
            r == old(self)@.answer(pressed),
            final(self)@ == old(self)@.after(pressed),
            r is None ==> final(self)@.waiting() && final(self)@.now_ms == old(self)@.now_ms
                + POLL_MS,
            r is Some ==> final(self)@.presence.armed is None,
    {
        match self.controller.update(pressed, self.now_ms) {
            Some(PresenceOutcome::Confirmed { .. }) => Some(Ok(())),
            Some(PresenceOutcome::Timeout { .. }) => Some(Err(PresenceError::Timeout)),
            None => {
                self.now_ms = self.now_ms + POLL_MS;
                None
            },
        }
    }
}

/// Maps a [`Button`] onto the presence state machine.
pub struct ButtonPresence<B: Button> {
    button: B,
    wait: PresenceWait,
    operation_counter: u32,
}

impl<B: Button> ButtonPresence<B> {
    /// The levels that were sampled from the button.
    pub closed spec fn samples(&self) -> Seq<bool> {
        self.button.samples()
    }

    /// Where the wait stands.
    pub closed spec fn waited(&self) -> WaitState {
        self.wait@
    }

    /// The number of the last operation.
    pub closed spec fn operation(&self) -> u32 {
        self.operation_counter
    }

    /// Create a presence source over `button`.
    #[must_use]
    pub fn new(button: B, timing: PresenceTiming) -> (r: Self)
        ensures
            r.samples() == button.samples(),
            r.waited().presence == PresenceState::initial(timing),
            r.waited().now_ms == 0,
            r.operation() == 0,
    {
        Self { button, wait: PresenceWait::new(timing), operation_counter: 0 }
    }

    /// Sample the underlying button.
    pub fn is_pressed(&mut self) -> (r: bool)
        ensures
            final(self).samples() == old(self).samples().push(r),
            final(self).waited() == old(self).waited(),
            final(self).operation() == old(self).operation(),
    {
        self.button.is_pressed()
    }

    /// Begin to wait for presence, for an operation of its own.
    pub fn begin(&mut self) -> (r: Result<(), PresenceError>)
        ensures
            r == Ok::<(), PresenceError>(()),
            final(self).samples() == old(self).samples(),
            final(self).operation() == (old(self).operation() + 1) % 0x1_0000_0000,
            final(self).waited() == old(self).waited().begun(final(self).operation()),
            final(self).waited().waiting(),
    {
        self.operation_counter = self.operation_counter.wrapping_add(1);
        self.wait.begin(self.operation_counter)
    }

    /// Sample the button once. `None` asks to wait one polling period and to step
    /// again.
    pub fn step(&mut self) -> (r: Option<Result<(), PresenceError>>)
        requires
            old(self).waited().waiting(),
        ensures
            ({
                let pressed = final(self).samples().last();
                &&& final(self).samples() == old(self).samples().push(pressed)
                &&& r == old(self).waited().answer(pressed)
                &&& final(self).waited() == old(self).waited().after(pressed)
            }),
            final(self).operation() == old(self).operation(),
            r is None ==> final(self).waited().waiting(),
    {
        let pressed = self.button.is_pressed();
        self.wait.step(pressed)
    }
}

/// A wait is over when as many milliseconds as the timeout have passed: whatever
/// is sampled then is an answer.
pub proof fn waits_end_at_the_timeout(wait: WaitState, operation_id: u32, pressed: bool)
    ensures
        ({
            let begun = wait.begun(operation_id);
            let late = WaitState { now_ms: wait.presence.timing.timeout_ms as u64, ..begun };
            late.answer(pressed) is Some
        }),
{
}

/// A wait that is never answered by a press ends in a timeout, never in a
/// confirmation: without a press in it no sample confirms.
pub proof fn no_press_no_confirmation(wait: WaitState)
    requires
        !wait.presence.raw_pressed,
    ensures
        wait.answer(false) != Some(Ok::<(), PresenceError>(())),
        !wait.after(false).presence.raw_pressed,
{
}

} // verus!

//! User presence: which presses count, for which operation, and until when.
use vstd::prelude::*;
use crate::presence::{Armed, PresenceOutcome, PresenceState, PresenceTiming};

verus! {

/// Whether the button is up and has been so for as long as it takes.
pub open spec fn at_rest(state: PresenceState) -> bool {
    !state.raw_pressed && !state.debounced_pressed
}

/// What one sample of the button reports.
pub open spec fn told(state: PresenceState, pressed: bool, now_ms: u64) -> Option<PresenceOutcome> {
    state.sampled(pressed, now_ms).reports(now_ms)
}

/// The state after one sample of the button.
pub open spec fn next(state: PresenceState, pressed: bool, now_ms: u64) -> PresenceState {
    state.sampled(pressed, now_ms).advanced(now_ms)
}

/// Arming waits for its operation until the timeout has passed, and only asks for a release
/// where the button was not at rest.
pub proof fn arming_waits_until_the_timeout(state: PresenceState, operation_id: u32, now_ms: u64)
    requires
        now_ms + state.timing.timeout_ms <= u64::MAX,
    ensures
        state.arming(operation_id, now_ms).armed == Some(
            Armed { operation_id, deadline_ms: (now_ms + state.timing.timeout_ms) as u64 },
        ),
        state.arming(operation_id, now_ms).awaiting_release <==> !at_rest(state),
        state.arming(operation_id, now_ms).timing == state.timing,
        state.arming(operation_id, now_ms).raw_pressed == state.raw_pressed,
        state.arming(operation_id, now_ms).debounced_pressed == state.debounced_pressed,
{
}

/// A fresh press that is held for the debounce interval confirms the operation that is
/// armed, at the first sample at which the interval has passed and not before.
pub proof fn held_fresh_press_confirms(
    state: PresenceState,
    operation_id: u32,
    deadline_ms: u64,
    down_ms: u64,
    now_ms: u64,
)
    requires
        at_rest(state),
        !state.awaiting_release,
        state.armed == Some(Armed { operation_id, deadline_ms }),
        state.timing.debounce_ms > 0,
        down_ms < deadline_ms,
        down_ms <= now_ms,
    ensures
        told(state, true, down_ms) is None,
        now_ms - down_ms >= state.timing.debounce_ms ==> told(
            next(state, true, down_ms),
            true,
            now_ms,
        ) == Some(PresenceOutcome::Confirmed { operation_id }),
        now_ms - down_ms < state.timing.debounce_ms && now_ms < deadline_ms ==> told(
            next(state, true, down_ms),
            true,
            now_ms,
        ) is None,
        now_ms - down_ms < state.timing.debounce_ms && now_ms >= deadline_ms ==> told(
            next(state, true, down_ms),
            true,
            now_ms,
        ) == Some(PresenceOutcome::Timeout { operation_id }),
        now_ms - down_ms >= state.timing.debounce_ms ==> next(
            next(state, true, down_ms),
            true,
            now_ms,
        ).armed is None,
{
}

/// Without a debounce interval a fresh press confirms at once.
pub proof fn press_without_debounce_confirms_at_once(
    state: PresenceState,
    operation_id: u32,
    deadline_ms: u64,
    now_ms: u64,
)
    requires
        at_rest(state),
        !state.awaiting_release,
        state.armed == Some(Armed { operation_id, deadline_ms }),
        state.timing.debounce_ms == 0,
    ensures
        told(state, true, now_ms) == Some(PresenceOutcome::Confirmed { operation_id }),
{
}

/// A bounce does not count: a press that is let go before the interval has passed confirms
/// nothing, and the next press has to be held anew.
pub proof fn bounce_does_not_count(
    state: PresenceState,
    operation_id: u32,
    deadline_ms: u64,
    down_ms: u64,
    up_ms: u64,
    again_ms: u64,
    now_ms: u64,
)
    requires
        at_rest(state),
        !state.awaiting_release,
        state.armed == Some(Armed { operation_id, deadline_ms }),
        down_ms <= up_ms <= again_ms <= now_ms < deadline_ms,
        up_ms - down_ms < state.timing.debounce_ms,
        now_ms - again_ms < state.timing.debounce_ms,
    ensures
        ({
            let down = next(state, true, down_ms);
            let up = next(down, false, up_ms);
            let again = next(up, true, again_ms);
            &&& told(state, true, down_ms) is None
            &&& told(down, false, up_ms) is None
            &&& told(up, true, again_ms) is None
            &&& told(again, true, now_ms) is None
            &&& again.armed == state.armed
        }),
{
}

/// A button at rest times the operation out at its deadline and not before.
pub proof fn silence_times_out_at_the_deadline(
    state: PresenceState,
    operation_id: u32,
    deadline_ms: u64,
    now_ms: u64,
)
    requires
        at_rest(state),
        state.armed == Some(Armed { operation_id, deadline_ms }),
    ensures
        now_ms < deadline_ms ==> told(state, false, now_ms) is None && next(
            state,
            false,
            now_ms,
        ).armed == state.armed,
        now_ms >= deadline_ms ==> told(state, false, now_ms) == Some(
            PresenceOutcome::Timeout { operation_id },
        ) && next(state, false, now_ms).armed is None,
{
}

/// A button that was down when the operation was armed counts again once it was let go for
/// the debounce interval: from then on the button is at rest and the operation still armed.
pub proof fn release_makes_the_button_count_again(
    state: PresenceState,
    operation_id: u32,
    deadline_ms: u64,
    up_ms: u64,
    now_ms: u64,
)
    requires
        state.raw_pressed,
        state.debounced_pressed,
        state.awaiting_release,
        state.armed == Some(Armed { operation_id, deadline_ms }),
        state.timing.debounce_ms > 0,
        up_ms <= now_ms < deadline_ms,
        now_ms - up_ms >= state.timing.debounce_ms,
    ensures
        ({
            let up = next(state, false, up_ms);
            let rested = next(up, false, now_ms);
            &&& told(state, false, up_ms) is None
            &&& told(up, false, now_ms) is None
            &&& at_rest(rested)
            &&& !rested.awaiting_release
            &&& rested.armed == state.armed
        }),
{
}

/// A held button that has to be let go first never confirms, and times out at the deadline.
pub proof fn held_button_times_out(
    state: PresenceState,
    operation_id: u32,
    deadline_ms: u64,
    now_ms: u64,
)
    requires
        state.raw_pressed,
        state.awaiting_release,
        state.armed == Some(Armed { operation_id, deadline_ms }),
    ensures
        now_ms < deadline_ms ==> told(state, true, now_ms) is None && next(
            state,
            true,
            now_ms,
        ).awaiting_release,
        now_ms >= deadline_ms ==> told(state, true, now_ms) == Some(
            PresenceOutcome::Timeout { operation_id },
        ),
{
}

/// With nothing armed nothing is told, whatever the button does.
pub proof fn unarmed_button_tells_nothing(state: PresenceState, pressed: bool, now_ms: u64)
    requires
        state.armed is None,
    ensures
        told(state, pressed, now_ms) is None,
        state.reports(now_ms) is None,
        next(state, pressed, now_ms).armed is None,
        next(state, pressed, now_ms).raw_pressed == pressed,
        state.disarmed().armed is None,
        state.disarmed().raw_pressed == state.raw_pressed,
        state.disarmed().debounced_pressed == state.debounced_pressed,
{
}

/// A controller begins with the button at rest and nothing armed.
pub proof fn controllers_begin_at_rest(timing: PresenceTiming)
    ensures
        at_rest(PresenceState::initial(timing)),
        PresenceState::initial(timing).armed is None,
        !PresenceState::initial(timing).awaiting_release,
        PresenceState::initial(timing).timing == timing,
        PresenceState::initial(timing).raw_change_ms == 0,
{
}

} // verus!

use aegis_core::presence::{
    ContextualPresence, PresenceController, PresenceError, PresenceOutcome, PresenceTiming,
};
use aegis_core::state::ExecutionState;

fn controller() -> PresenceController {
    PresenceController::new(PresenceTiming {
        debounce_ms: 20,
        timeout_ms: 1_000,
    })
}

#[test]
fn fresh_press_after_arm_confirms() {
    let mut c = controller();
    c.arm(7, 0).unwrap();
    assert_eq!(c.update(true, 10), None); // contact bounce, not settled
    assert_eq!(
        c.update(true, 30),
        Some(PresenceOutcome::Confirmed { operation_id: 7 })
    );
    assert!(!c.is_armed());
}

#[test]
fn press_before_arm_is_not_replayed() {
    let mut c = controller();
    c.update(true, 0); // user already holding the button
    c.update(true, 30);
    c.arm(1, 40).unwrap();
    // Still held: must not confirm.
    assert_eq!(c.update(true, 80), None);
    // Release must settle past the debounce window...
    assert_eq!(c.update(false, 100), None);
    assert_eq!(c.poll(125), None);
    // ...then a fresh press confirms.
    assert_eq!(c.update(true, 130), None);
    assert_eq!(
        c.poll(155),
        Some(PresenceOutcome::Confirmed { operation_id: 1 })
    );
}

#[test]
fn presence_is_consumed_once() {
    let mut c = controller();
    c.arm(5, 0).unwrap();
    c.update(true, 0);
    assert_eq!(
        c.poll(20),
        Some(PresenceOutcome::Confirmed { operation_id: 5 })
    );
    // Further presses are ignored: not armed any more.
    assert_eq!(c.update(false, 40), None);
    assert_eq!(c.update(true, 60), None);
    assert_eq!(c.poll(80), None);
}

#[test]
fn presence_cannot_cross_operations() {
    let mut c = controller();
    c.arm(1, 0).unwrap();
    c.update(true, 0);
    assert_eq!(
        c.poll(20),
        Some(PresenceOutcome::Confirmed { operation_id: 1 })
    );

    // Arm a second operation while the button is still held: the stale
    // press must not satisfy it.
    c.arm(2, 30).unwrap();
    assert_eq!(c.update(true, 60), None);
    assert_eq!(c.update(false, 80), None);
    assert_eq!(c.poll(105), None);
    assert_eq!(c.update(true, 110), None);
    assert_eq!(
        c.poll(135),
        Some(PresenceOutcome::Confirmed { operation_id: 2 })
    );
}

#[test]
fn short_bounce_does_not_confirm() {
    let mut c = controller();
    c.arm(9, 0).unwrap();
    assert_eq!(c.update(true, 0), None);
    // Released again after 5 ms (< debounce of 20 ms).
    assert_eq!(c.update(false, 5), None);
    // Settle at 30 ms: the raw level has been stable at false for 25 ms.
    assert_eq!(c.poll(30), None);
    assert!(c.is_armed());
}

#[test]
fn timeout_is_reported_and_disarms() {
    let mut c = controller();
    c.arm(3, 0).unwrap();
    assert_eq!(c.poll(999), None);
    assert_eq!(
        c.poll(1_000),
        Some(PresenceOutcome::Timeout { operation_id: 3 })
    );
    assert!(!c.is_armed());
}

#[test]
fn arming_twice_is_rejected() {
    let mut c = controller();
    c.arm(1, 0).unwrap();
    assert_eq!(c.arm(2, 0), Err(PresenceError::AlreadyArmed));
}

#[test]
fn disarm_stops_confirmation() {
    let mut c = controller();
    c.arm(1, 0).unwrap();
    c.disarm();
    assert_eq!(c.update(true, 0), None);
    assert_eq!(c.poll(20), None);
    assert!(!c.is_armed());
}

fn gate() -> ContextualPresence {
    ContextualPresence::new(PresenceTiming {
        debounce_ms: 20,
        timeout_ms: 1_000,
    })
}

#[test]
fn arming_outside_wait_presence_is_rejected() {
    let mut g = gate();
    for state in [
        ExecutionState::Boot,
        ExecutionState::Active,
        ExecutionState::FidoOperation,
        ExecutionState::Management,
        ExecutionState::FirmwareUpdate,
        ExecutionState::Recovery,
        ExecutionState::Locked,
    ] {
        assert_eq!(
            g.arm(state, 1, 0),
            Err(PresenceError::NotArmed),
            "{state:?}"
        );
    }
}

#[test]
fn presence_confirmed_only_in_wait_presence() {
    let mut g = gate();
    g.arm(ExecutionState::FidoWaitPresence, 7, 0).unwrap();
    assert_eq!(g.update(ExecutionState::FidoWaitPresence, true, 0), None);
    assert_eq!(
        g.update(ExecutionState::FidoWaitPresence, true, 20),
        Some(PresenceOutcome::Confirmed { operation_id: 7 })
    );
}

#[test]
fn bootsel_in_other_states_never_confirms() {
    // A press while in Active is dropped, and must not leak into a later
    // wait-presence operation.
    let mut g = gate();
    assert_eq!(g.update(ExecutionState::Active, true, 0), None);
    assert_eq!(g.update(ExecutionState::Active, true, 20), None);

    g.arm(ExecutionState::FidoWaitPresence, 1, 30).unwrap();
    assert_eq!(g.update(ExecutionState::FidoWaitPresence, false, 80), None);
    assert_eq!(g.poll(ExecutionState::FidoWaitPresence, 105), None);
    assert_eq!(g.update(ExecutionState::FidoWaitPresence, true, 110), None);
    assert_eq!(
        g.poll(ExecutionState::FidoWaitPresence, 135),
        Some(PresenceOutcome::Confirmed { operation_id: 1 })
    );
}

#[test]
fn press_before_arm_in_wait_presence_requires_fresh_edge() {
    let mut g = gate();
    assert_eq!(g.update(ExecutionState::FidoWaitPresence, true, 0), None);
    assert_eq!(g.update(ExecutionState::FidoWaitPresence, true, 30), None);
    g.arm(ExecutionState::FidoWaitPresence, 2, 40).unwrap();
    assert_eq!(g.update(ExecutionState::FidoWaitPresence, true, 80), None);
    assert_eq!(g.update(ExecutionState::FidoWaitPresence, false, 100), None);
    assert_eq!(g.poll(ExecutionState::FidoWaitPresence, 125), None);
    assert_eq!(g.update(ExecutionState::FidoWaitPresence, true, 130), None);
    assert_eq!(
        g.poll(ExecutionState::FidoWaitPresence, 155),
        Some(PresenceOutcome::Confirmed { operation_id: 2 })
    );
}

#[test]
fn leaving_wait_presence_disarms() {
    let mut g = gate();
    g.arm(ExecutionState::FidoWaitPresence, 1, 0).unwrap();
    assert!(g.is_armed());
    assert_eq!(g.update(ExecutionState::FidoOperation, true, 10), None);
    assert!(!g.is_armed());
}

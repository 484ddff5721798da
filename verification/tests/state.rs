use aegis_core::error::CoreError;
use aegis_core::state::ExecutionState::{
    Active, Boot, FidoOperation, FidoWaitPresence, FirmwareUpdate, Locked, Management, Recovery,
};
use aegis_core::state::{
    boot_destination, bootsel_allowed_as_presence, fido_allowed, ExecutionState,
};

const ALL: [ExecutionState; 8] = [
    Boot,
    Active,
    FidoWaitPresence,
    FidoOperation,
    Management,
    FirmwareUpdate,
    Recovery,
    Locked,
];

#[test]
fn state_self_transition_is_always_allowed() {
    for s in ALL {
        assert!(s.can_transition(s), "{s:?} -> {s:?}");
        assert_eq!(s.transition(s), Ok(s));
    }
}

#[test]
fn known_edges_are_allowed() {
    assert!(Boot.can_transition(Active));
    assert!(Boot.can_transition(Recovery));
    assert!(Active.can_transition(FidoWaitPresence));
    assert!(Active.can_transition(Management));
    assert!(FidoWaitPresence.can_transition(FidoOperation));
    assert!(FidoOperation.can_transition(Active));
    assert!(Management.can_transition(FirmwareUpdate));
    assert!(FirmwareUpdate.can_transition(Recovery));
    assert!(Recovery.can_transition(Active));
    assert!(Locked.can_transition(Recovery));
}

#[test]
fn state_illegal_edges_are_rejected() {
    assert_eq!(Boot.transition(FidoOperation), Err(CoreError::InvalidState));
    assert_eq!(
        FidoOperation.transition(FidoWaitPresence),
        Err(CoreError::InvalidState)
    );
    assert_eq!(Locked.transition(Active), Err(CoreError::InvalidState));
    assert_eq!(Recovery.transition(Boot), Err(CoreError::InvalidState));
}

#[test]
fn bootsel_only_approved_waiting_for_presence() {
    for s in ALL {
        assert_eq!(
            bootsel_allowed_as_presence(s),
            s == FidoWaitPresence,
            "state {s:?}"
        );
    }
}

#[test]
fn boot_destination_follows_bootsel() {
    assert_eq!(boot_destination(true), Recovery);
    assert_eq!(boot_destination(false), Active);
}

#[test]
fn fido_denied_outside_active_and_fido_states() {
    assert!(fido_allowed(Active));
    assert!(fido_allowed(FidoWaitPresence));
    assert!(fido_allowed(FidoOperation));
    for state in [Boot, Management, FirmwareUpdate, Recovery, Locked] {
        assert!(!fido_allowed(state), "{state:?}");
    }
}

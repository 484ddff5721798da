use aegis_core::error::CoreError;
use aegis_core::lifecycle::LifecycleState::{
    Active, Commissioned, Commissioning, Decommissioned, Factory, Provisioned, Provisioning,
    Suspended,
};
use aegis_core::lifecycle::{LifecycleManager, LifecycleState};

const ALL: [LifecycleState; 8] = [
    Factory,
    Commissioning,
    Commissioned,
    Provisioning,
    Provisioned,
    Active,
    Suspended,
    Decommissioned,
];

#[test]
fn lifecycle_self_transition_is_always_allowed() {
    for s in ALL {
        assert!(s.can_transition(s));
        assert_eq!(s.transition(s), Ok(s));
    }
}

#[test]
fn happy_path() {
    let mut s = Factory;
    for next in [
        Commissioning,
        Commissioned,
        Provisioning,
        Provisioned,
        Active,
    ] {
        s = s.transition(next).unwrap();
    }
    assert_eq!(s, Active);
}

#[test]
fn lifecycle_illegal_edges_are_rejected() {
    assert_eq!(Factory.transition(Active), Err(CoreError::InvalidState));
    assert_eq!(
        Factory.transition(Provisioned),
        Err(CoreError::InvalidState)
    );
    assert_eq!(Active.transition(Factory), Err(CoreError::InvalidState));
    assert_eq!(
        Decommissioned.transition(Active),
        Err(CoreError::InvalidState)
    );
}

#[test]
fn abort_paths() {
    assert_eq!(Commissioning.transition(Factory), Ok(Factory));
    assert_eq!(Provisioning.transition(Commissioned), Ok(Commissioned));
}

#[test]
fn config_change_only_during_commissioning_states() {
    for s in ALL {
        let expected = matches!(s, Factory | Commissioning | Commissioned);
        assert_eq!(s.allows_config_change(), expected, "state {s:?}");
    }
}

#[test]
fn operational_states() {
    assert!(Provisioned.is_operational());
    assert!(Active.is_operational());
    assert!(!Suspended.is_operational());
    assert!(!Decommissioned.is_operational());
    assert!(Decommissioned.is_decommissioned());
}


#[test]
fn full_lifecycle_flow() {
    let mut manager = LifecycleManager::new(LifecycleState::Factory);
    manager.commission().unwrap();
    manager.finish_commissioning().unwrap();
    manager.begin_provisioning().unwrap();
    manager.finish_provisioning().unwrap();
    manager.activate().unwrap();
    assert_eq!(manager.state(), LifecycleState::Active);

    manager.suspend().unwrap();
    assert_eq!(manager.state(), LifecycleState::Suspended);
    manager.resume().unwrap();
    assert_eq!(manager.state(), LifecycleState::Active);

    manager.decommission().unwrap();
    assert_eq!(manager.state(), LifecycleState::Decommissioned);
    manager.factory_reset().unwrap();
    assert_eq!(manager.state(), LifecycleState::Factory);
}

#[test]
fn out_of_order_operations_are_rejected() {
    let mut manager = LifecycleManager::new(LifecycleState::Factory);
    assert_eq!(manager.activate(), Err(CoreError::InvalidState));
    assert_eq!(manager.decommission(), Err(CoreError::InvalidState));
    assert_eq!(manager.factory_reset(), Ok(()));

    manager.commission().unwrap();
    assert_eq!(manager.finish_provisioning(), Err(CoreError::InvalidState));
}

#[test]
fn re_commissioning_is_idempotent() {
    let mut manager = LifecycleManager::new(LifecycleState::Factory);
    manager.commission().unwrap();
    assert_eq!(manager.commission(), Ok(()));
    assert_eq!(manager.state(), LifecycleState::Commissioning);
}

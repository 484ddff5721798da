//! Device lifecycle state machine.
//!
//! Lifecycle is independent from the execution state. It tracks the
//! provisioning status of the device across factory, commissioning,
//! provisioning, active operation and decommissioning.
use vstd::prelude::*;
use crate::error::CoreError;

verus! {

/// Provisioning lifecycle of the device.
#[derive(Debug, Clone, Copy, PartialEq, Eq, Structural, Hash)]
pub enum LifecycleState {
    /// Fresh from the factory, no ownership established.
    Factory,
    /// Ownership is being established through the management interface.
    Commissioning,
    /// Ownership established, device not yet provisioned with keys.
    Commissioned,
    /// Cryptographic material is being provisioned.
    Provisioning,
    /// Provisioned and ready to be activated.
    Provisioned,
    /// Normal operating state.
    Active,
    /// Temporarily disabled but not decommissioned.
    Suspended,
    /// Permanently retired; only a factory reset may re-enter Factory.
    Decommissioned,
}

impl LifecycleState {
    /// The edges of the lifecycle, self-loops left out.
    pub open spec fn successors(self) -> Set<LifecycleState> {
        match self {
            LifecycleState::Factory => set![LifecycleState::Commissioning],
            LifecycleState::Commissioning => set![
                LifecycleState::Commissioned,
                LifecycleState::Factory,
            ],
            LifecycleState::Commissioned => set![LifecycleState::Provisioning],
            LifecycleState::Provisioning => set![
                LifecycleState::Provisioned,
                LifecycleState::Commissioned,
            ],
            LifecycleState::Provisioned => set![LifecycleState::Active],
            LifecycleState::Active => set![
                LifecycleState::Suspended,
                LifecycleState::Decommissioned,
            ],
            LifecycleState::Suspended => set![
                LifecycleState::Active,
                LifecycleState::Decommissioned,
            ],
            LifecycleState::Decommissioned => set![LifecycleState::Factory],
        }
    }

    /// Whether `next` may follow `self`: an edge, or no change.
    pub open spec fn reaches(self, next: LifecycleState) -> bool {
        self == next || self.successors().contains(next)
    }

    /// Whether configuration may change in this state.
    pub open spec fn configurable(self) -> bool {
        self == LifecycleState::Factory || self == LifecycleState::Commissioning || self
            == LifecycleState::Commissioned
    }

    /// The wire code of each state, in lifecycle order.
    pub open spec fn spec_code(self) -> u8 {
        match self {
            LifecycleState::Factory => 0,
            LifecycleState::Commissioning => 1,
            LifecycleState::Commissioned => 2,
            LifecycleState::Provisioning => 3,
            LifecycleState::Provisioned => 4,
            LifecycleState::Active => 5,
            LifecycleState::Suspended => 6,
            LifecycleState::Decommissioned => 7,
        }
    }

    /// The wire code of this state.
    #[must_use]
    pub fn code(self) -> (r: u8)
        ensures
            r == self.spec_code(),
    {
        match self {
            LifecycleState::Factory => 0,
            LifecycleState::Commissioning => 1,
            LifecycleState::Commissioned => 2,
            LifecycleState::Provisioning => 3,
            LifecycleState::Provisioned => 4,
            LifecycleState::Active => 5,
            LifecycleState::Suspended => 6,
            LifecycleState::Decommissioned => 7,
        }
    }

    /// Whether `next` is a legal successor of `self`.
    ///
    /// A state may always transition to itself.
    #[must_use]
    pub fn can_transition(self, next: LifecycleState) -> (r: bool)
        ensures
            r == self.reaches(next),
    {
        if self == next {
            return true;
        }
        match self {
            LifecycleState::Factory => matches!(next, LifecycleState::Commissioning),
            LifecycleState::Commissioning => matches!(
                next,
                LifecycleState::Commissioned | LifecycleState::Factory
            ),
            LifecycleState::Commissioned => matches!(next, LifecycleState::Provisioning),
            LifecycleState::Provisioning => matches!(
                next,
                LifecycleState::Provisioned | LifecycleState::Commissioned
            ),
            LifecycleState::Provisioned => matches!(next, LifecycleState::Active),
            LifecycleState::Active => matches!(
                next,
                LifecycleState::Suspended | LifecycleState::Decommissioned
            ),
            LifecycleState::Suspended => matches!(
                next,
                LifecycleState::Active | LifecycleState::Decommissioned
            ),
            LifecycleState::Decommissioned => matches!(next, LifecycleState::Factory),
        }
    }

    /// Apply a transition, rejecting illegal edges.
    pub fn transition(self, next: LifecycleState) -> (r: Result<LifecycleState, CoreError>)
        ensures
            r == if self.reaches(next) {
                Ok::<LifecycleState, CoreError>(next)
            } else {
                Err::<LifecycleState, CoreError>(CoreError::InvalidState)
            },
    {
        if self.can_transition(next) {
            Ok(next)
        } else {
            Err(CoreError::InvalidState)
        }
    }

    /// Whether persistent configuration may be modified in this state.
    ///
    /// Configuration is a commissioning-time concern; operational states
    /// reject changes.
    #[must_use]
    pub fn allows_config_change(self) -> (r: bool)
        ensures
            r == self.configurable(),
    {
        matches!(
            self,
            LifecycleState::Factory | LifecycleState::Commissioning | LifecycleState::Commissioned
        )
    }

    /// Whether the device is retired.
    #[must_use]
    pub fn is_decommissioned(self) -> (r: bool)
        ensures
            r == (self == LifecycleState::Decommissioned),
    {
        matches!(self, LifecycleState::Decommissioned)
    }

    /// Whether the device can serve FIDO operations.
    #[must_use]
    pub fn is_operational(self) -> (r: bool)
        ensures
            r == (self == LifecycleState::Provisioned || self == LifecycleState::Active),
    {
        matches!(self, LifecycleState::Provisioned | LifecycleState::Active)
    }
}

/// Guarded lifecycle orchestration.
///
/// Wraps [`LifecycleState`] with named operations so callers never apply raw
/// transitions. Every operation fails with [`CoreError::InvalidState`] when the
/// current state does not permit it.
#[derive(Debug, Clone, Copy, PartialEq, Eq, Structural)]
pub struct LifecycleManager {
    state: LifecycleState,
}

impl View for LifecycleManager {
    type V = LifecycleState;

    closed spec fn view(&self) -> LifecycleState {
        self.state
    }
}

/// What a guarded step to `next` does to a manager in `before`: the step is
/// taken exactly when the lifecycle has that edge, and otherwise nothing changes.
pub open spec fn guarded_step(
    before: LifecycleState,
    after: LifecycleState,
    next: LifecycleState,
    r: Result<(), CoreError>,
) -> bool {
    if before.reaches(next) {
        r == Ok::<(), CoreError>(()) && after == next
    } else {
        r == Err::<(), CoreError>(CoreError::InvalidState) && after == before
    }
}

impl LifecycleManager {
    /// Create a manager in `state`.
    #[must_use]
    pub fn new(state: LifecycleState) -> (r: Self)
        ensures
            r@ == state,
    {
        Self { state }
    }

    /// Current state.
    #[must_use]
    pub fn state(&self) -> (r: LifecycleState)
        ensures
            r == self@,
    {
        self.state
    }

    fn advance(&mut self, next: LifecycleState) -> (r: Result<(), CoreError>)
        ensures
            guarded_step(old(self)@, final(self)@, next, r),
    {
        match self.state.transition(next) {
            Ok(state) => {
                self.state = state;
                Ok(())
            },
            Err(e) => Err(e),
        }
    }

    /// Begin commissioning. Idempotent while already commissioning.
    pub fn commission(&mut self) -> (r: Result<(), CoreError>)
        ensures
            r is Ok <==> (old(self)@ == LifecycleState::Factory || old(self)@
                == LifecycleState::Commissioning),
            r is Ok ==> final(self)@ == LifecycleState::Commissioning,
            r is Err ==> r == Err::<(), CoreError>(CoreError::InvalidState) && final(self)@ == old(
                self,
            )@,
    {
        match self.state {
            LifecycleState::Factory => self.advance(LifecycleState::Commissioning),
            LifecycleState::Commissioning => Ok(()),
            _ => Err(CoreError::InvalidState),
        }
    }

    /// Complete commissioning.
    pub fn finish_commissioning(&mut self) -> (r: Result<(), CoreError>)
        ensures
            guarded_step(old(self)@, final(self)@, LifecycleState::Commissioned, r),
    {
        self.advance(LifecycleState::Commissioned)
    }

    /// Begin provisioning.
    pub fn begin_provisioning(&mut self) -> (r: Result<(), CoreError>)
        ensures
            guarded_step(old(self)@, final(self)@, LifecycleState::Provisioning, r),
    {
        self.advance(LifecycleState::Provisioning)
    }

    /// Complete provisioning.
    pub fn finish_provisioning(&mut self) -> (r: Result<(), CoreError>)
        ensures
            guarded_step(old(self)@, final(self)@, LifecycleState::Provisioned, r),
    {
        self.advance(LifecycleState::Provisioned)
    }

    /// Activate the device.
    pub fn activate(&mut self) -> (r: Result<(), CoreError>)
        ensures
            guarded_step(old(self)@, final(self)@, LifecycleState::Active, r),
    {
        self.advance(LifecycleState::Active)
    }

    /// Suspend the device.
    pub fn suspend(&mut self) -> (r: Result<(), CoreError>)
        ensures
            guarded_step(old(self)@, final(self)@, LifecycleState::Suspended, r),
    {
        self.advance(LifecycleState::Suspended)
    }

    /// Resume a suspended device.
    pub fn resume(&mut self) -> (r: Result<(), CoreError>)
        ensures
            guarded_step(old(self)@, final(self)@, LifecycleState::Active, r),
    {
        self.advance(LifecycleState::Active)
    }

    /// Decommission the device.
    pub fn decommission(&mut self) -> (r: Result<(), CoreError>)
        ensures
            guarded_step(old(self)@, final(self)@, LifecycleState::Decommissioned, r),
    {
        self.advance(LifecycleState::Decommissioned)
    }

    /// Return a decommissioned device to the factory state.
    pub fn factory_reset(&mut self) -> (r: Result<(), CoreError>)
        ensures
            r is Ok <==> (old(self)@ == LifecycleState::Decommissioned || old(self)@
                == LifecycleState::Factory),
            r is Ok ==> final(self)@ == LifecycleState::Factory,
            r is Err ==> r == Err::<(), CoreError>(CoreError::InvalidState) && final(self)@ == old(
                self,
            )@,
    {
        match self.state {
            LifecycleState::Decommissioned => self.advance(LifecycleState::Factory),
            LifecycleState::Factory => Ok(()),
            _ => Err(CoreError::InvalidState),
        }
    }
}

/// A lifecycle state may always transition to itself.
pub proof fn staying_is_always_legal(state: LifecycleState)
    ensures
        state.reaches(state),
{
}

/// A retired device can only go back to the factory state, and only an
/// operating or suspended device can be retired.
pub proof fn retirement_is_final_but_for_a_factory_reset(
    state: LifecycleState,
    next: LifecycleState,
)
    ensures
        LifecycleState::Decommissioned.reaches(next) <==> (next == LifecycleState::Decommissioned
            || next == LifecycleState::Factory),
        state.reaches(LifecycleState::Decommissioned) <==> (state == LifecycleState::Active || state
            == LifecycleState::Suspended || state == LifecycleState::Decommissioned),
{
}

/// No step leads from a state that has keys or operates back into one that
/// accepts configuration, but for the abort of provisioning and the reset of a
/// retired device.
pub proof fn configuration_closes_with_provisioning(state: LifecycleState, next: LifecycleState)
    ensures
        !state.configurable() && state.reaches(next) && next.configurable() ==> (state
            == LifecycleState::Provisioning && next == LifecycleState::Commissioned) || (state
            == LifecycleState::Decommissioned && next == LifecycleState::Factory),
{
}

/// Distinct lifecycle states have distinct wire codes.
pub proof fn lifecycle_codes_are_distinct(a: LifecycleState, b: LifecycleState)
    ensures
        a.spec_code() == b.spec_code() <==> a == b,
{
}

} // verus!

//! Driver lifecycle and manifest contract.

use vstd::prelude::*;
use super::protocol::{DriverClass, DriverId, DriverState};

verus! {

#[derive(Clone, Copy, Debug, PartialEq, Eq, Structural)]
pub enum DriverLifecycle {
    Discover,
    Identify,
    Probe,
    Bind,
    Initialize,
    Run,
    Suspend,
    Resume,
    Stop,
    Remove,
    Recover,
}

#[derive(Clone, Copy, Debug, PartialEq, Eq, Structural)]
pub enum DriverTrust {
    Unverified,
    Verified,
    Revoked,
}

#[derive(Clone, Copy, Debug, PartialEq, Eq, Structural)]
pub struct DriverManifest {
    pub id: DriverId,
    pub class: DriverClass,
    pub abi_major: u16,
    pub abi_minor: u16,
    pub architecture_mask: u64,
    pub capability_mask: u64,
    pub trust: DriverTrust,
}

impl DriverManifest {
    pub fn new(
        id: DriverId,
        class: DriverClass,
        abi_major: u16,
        abi_minor: u16,
        architecture_mask: u64,
        capability_mask: u64,
        trust: DriverTrust,
    ) -> (m: Self)
        ensures
            m == (DriverManifest { id, class, abi_major, abi_minor, architecture_mask, capability_mask, trust }),
    {
        Self { id, class, abi_major, abi_minor, architecture_mask, capability_mask, trust }
    }

    pub fn targets(self, architecture_bit: u64) -> (r: bool)
        ensures
            r == (self.architecture_mask & architecture_bit != 0),
    {
        self.architecture_mask & architecture_bit != 0
    }

    pub fn declares(self, capability_bit: u64) -> (r: bool)
        ensures
            r == (self.capability_mask & capability_bit != 0),
    {
        self.capability_mask & capability_bit != 0
    }

    pub fn is_trusted_for_execution(self) -> (r: bool)
        ensures
            r == (self.trust == DriverTrust::Verified),
    {
        self.trust == DriverTrust::Verified
    }
}

#[derive(Clone, Copy, Debug, PartialEq, Eq, Structural)]
pub enum LifecycleError {
    InvalidTransition,
    Untrusted,
    AbiMismatch,
}

/// The declared lifecycle edges.
pub open spec fn lifecycle_edge(current: DriverLifecycle, next: DriverLifecycle) -> bool {
    match (current, next) {
        (DriverLifecycle::Discover, DriverLifecycle::Identify) | (DriverLifecycle::Identify, DriverLifecycle::Probe)
        | (DriverLifecycle::Probe, DriverLifecycle::Bind) | (DriverLifecycle::Bind, DriverLifecycle::Initialize)
        | (DriverLifecycle::Initialize, DriverLifecycle::Run) | (DriverLifecycle::Run, DriverLifecycle::Suspend)
        | (DriverLifecycle::Suspend, DriverLifecycle::Resume) | (DriverLifecycle::Resume, DriverLifecycle::Run)
        | (DriverLifecycle::Run, DriverLifecycle::Stop) | (DriverLifecycle::Stop, DriverLifecycle::Remove)
        | (DriverLifecycle::Remove, DriverLifecycle::Recover) | (DriverLifecycle::Recover, DriverLifecycle::Identify) => true,
        _ => false,
    }
}

/// An untrusted driver moves nowhere; a trusted one only along declared edges.
pub fn transition(current: DriverLifecycle, next: DriverLifecycle, trusted: bool) -> (r: Result<(), LifecycleError>)
    ensures
        r == if !trusted {
            Err(LifecycleError::Untrusted)
        } else if lifecycle_edge(current, next) {
            Ok(())
        } else {
            Err(LifecycleError::InvalidTransition)
        },
{
    if !trusted {
        return Err(LifecycleError::Untrusted);
    }
    let valid = match (current, next) {
        (DriverLifecycle::Discover, DriverLifecycle::Identify) | (DriverLifecycle::Identify, DriverLifecycle::Probe)
        | (DriverLifecycle::Probe, DriverLifecycle::Bind) | (DriverLifecycle::Bind, DriverLifecycle::Initialize)
        | (DriverLifecycle::Initialize, DriverLifecycle::Run) | (DriverLifecycle::Run, DriverLifecycle::Suspend)
        | (DriverLifecycle::Suspend, DriverLifecycle::Resume) | (DriverLifecycle::Resume, DriverLifecycle::Run)
        | (DriverLifecycle::Run, DriverLifecycle::Stop) | (DriverLifecycle::Stop, DriverLifecycle::Remove)
        | (DriverLifecycle::Remove, DriverLifecycle::Recover) | (DriverLifecycle::Recover, DriverLifecycle::Identify) => true,
        _ => false,
    };
    if valid { Ok(()) } else { Err(LifecycleError::InvalidTransition) }
}

pub open spec fn spec_lifecycle_state(step: DriverLifecycle) -> DriverState {
    match step {
        DriverLifecycle::Discover | DriverLifecycle::Identify | DriverLifecycle::Probe | DriverLifecycle::Bind => DriverState::Discovered,
        DriverLifecycle::Initialize => DriverState::Starting,
        DriverLifecycle::Run | DriverLifecycle::Resume | DriverLifecycle::Recover => DriverState::Running,
        DriverLifecycle::Suspend | DriverLifecycle::Stop => DriverState::Stopping,
        DriverLifecycle::Remove => DriverState::Quarantined,
    }
}

pub fn lifecycle_maps_to_state(step: DriverLifecycle) -> (r: DriverState)
    ensures
        r == spec_lifecycle_state(step),
{
    match step {
        DriverLifecycle::Discover | DriverLifecycle::Identify | DriverLifecycle::Probe | DriverLifecycle::Bind => DriverState::Discovered,
        DriverLifecycle::Initialize => DriverState::Starting,
        DriverLifecycle::Run | DriverLifecycle::Resume | DriverLifecycle::Recover => DriverState::Running,
        DriverLifecycle::Suspend | DriverLifecycle::Stop => DriverState::Stopping,
        DriverLifecycle::Remove => DriverState::Quarantined,
    }
}

} // verus!

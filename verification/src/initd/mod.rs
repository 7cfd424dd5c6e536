//! Init and service manager: service specifications, the lifecycle, a
//! per-id service table, core-service contracts and the runtime supervisor.

pub mod contracts;
pub mod runtime;

use vstd::prelude::*;

verus! {

pub const INIT_ABI_MAJOR: u16 = 1;
pub const INIT_ABI_MINOR: u16 = 0;
pub const MAX_SERVICES: usize = 32;

#[derive(Clone, Copy, Debug, PartialEq, Eq, Structural)]
pub struct ServiceId(pub u16);

#[derive(Clone, Copy, Debug, PartialEq, Eq, Structural)]
pub enum ServiceState {
    Declared,
    Starting,
    Running,
    Stopping,
    Stopped,
    Failed,
    Quarantined,
}

#[derive(Clone, Copy, Debug, PartialEq, Eq, Structural)]
pub enum RestartPolicy {
    Never,
    OnFailure,
    Always,
}

#[derive(Clone, Copy, Debug, PartialEq, Eq, Structural)]
pub struct ServiceSpec {
    pub id: ServiceId,
    pub restart: RestartPolicy,
    pub capability_mask: u64,
    pub memory_limit_pages: u32,
    pub cpu_budget_ticks: u32,
}

#[derive(Clone, Copy, Debug, PartialEq, Eq, Structural)]
pub enum ServiceError {
    Full,
    InvalidSpec,
    InvalidTransition,
    CapabilityDenied,
}

/// A service spec is bounded: its id indexes the service table and it has
/// a non-zero memory limit and CPU budget.
pub open spec fn spec_ok(spec: ServiceSpec) -> bool {
    spec.id.0 < MAX_SERVICES && spec.memory_limit_pages != 0 && spec.cpu_budget_ticks != 0
}

pub fn validate_spec(spec: ServiceSpec) -> (r: Result<(), ServiceError>)
    ensures
        r == (if spec_ok(spec) { Ok(()) } else { Err(ServiceError::InvalidSpec) }),
{
    if spec.id.0 as usize >= MAX_SERVICES || spec.memory_limit_pages == 0 || spec.cpu_budget_ticks == 0 {
        return Err(ServiceError::InvalidSpec);
    }
    Ok(())
}

/// The service lifecycle.
pub open spec fn lifecycle_edge(from: ServiceState, to: ServiceState) -> bool {
    ||| from == ServiceState::Declared && to == ServiceState::Starting
    ||| from == ServiceState::Starting && to == ServiceState::Running
    ||| from == ServiceState::Starting && to == ServiceState::Failed
    ||| from == ServiceState::Running && to == ServiceState::Stopping
    ||| from == ServiceState::Running && to == ServiceState::Failed
    ||| from == ServiceState::Stopping && to == ServiceState::Stopped
    ||| from == ServiceState::Failed && to == ServiceState::Starting
    ||| from == ServiceState::Failed && to == ServiceState::Quarantined
    ||| from == ServiceState::Stopped && to == ServiceState::Starting
}

pub fn transition(from: ServiceState, to: ServiceState) -> (r: bool)
    ensures
        r == lifecycle_edge(from, to),
{
    match (from, to) {
        (ServiceState::Declared, ServiceState::Starting) => true,
        (ServiceState::Starting, ServiceState::Running) => true,
        (ServiceState::Starting, ServiceState::Failed) => true,
        (ServiceState::Running, ServiceState::Stopping) => true,
        (ServiceState::Running, ServiceState::Failed) => true,
        (ServiceState::Stopping, ServiceState::Stopped) => true,
        (ServiceState::Failed, ServiceState::Starting) => true,
        (ServiceState::Failed, ServiceState::Quarantined) => true,
        (ServiceState::Stopped, ServiceState::Starting) => true,
        _ => false,
    }
}

/// Quarantine is final: no transition leaves it.
pub proof fn lemma_quarantine_is_final(to: ServiceState)
    ensures
        !lifecycle_edge(ServiceState::Quarantined, to),
{
}

/// Services by id, each with its spec and lifecycle state; every change of
/// state follows the lifecycle.
pub struct ServiceTable {
    entries: [Option<(ServiceSpec, ServiceState)>; MAX_SERVICES],
}

impl ServiceTable {
    pub closed spec fn slots(&self) -> Seq<Option<(ServiceSpec, ServiceState)>> {
        self.entries@
    }

    /// The state of service `id`, when it is registered.
    pub open spec fn spec_state(&self, id: ServiceId) -> Option<ServiceState> {
        if id.0 < MAX_SERVICES && self.slots()[id.0 as int] is Some {
            Some(self.slots()[id.0 as int]->Some_0.1)
        } else {
            None
        }
    }

    pub fn new() -> (t: Self)
        ensures
            t.slots() == Seq::new(MAX_SERVICES as nat, |i: int| None::<(ServiceSpec, ServiceState)>),
    {
        let mut entries: [Option<(ServiceSpec, ServiceState)>; MAX_SERVICES] = [None; MAX_SERVICES];
        let mut k: usize = 0;
        while k < MAX_SERVICES
            invariant
                k <= MAX_SERVICES,
                forall|i: int| 0 <= i < k ==> (#[trigger] entries@[i]) is None,
            decreases MAX_SERVICES - k,
        {
            entries[k] = None;
            k += 1;
        }
        let t = ServiceTable { entries };
        assert(t.slots() =~= Seq::new(MAX_SERVICES as nat, |i: int| None::<(ServiceSpec, ServiceState)>));
        t
    }

    /// Declares a service under its id; an invalid spec or a taken id is refused.
    pub fn register(&mut self, spec: ServiceSpec) -> (r: Result<(), ServiceError>)
        ensures
            !spec_ok(spec) || old(self).slots()[spec.id.0 as int] is Some ==> r == Err::<(), ServiceError>(ServiceError::InvalidSpec)
                && final(self).slots() == old(self).slots(),
            spec_ok(spec) && old(self).slots()[spec.id.0 as int] is None ==> r == Ok::<(), ServiceError>(())
                && final(self).slots() == old(self).slots().update(spec.id.0 as int, Some((spec, ServiceState::Declared))),
    {
        match validate_spec(spec) {
            Err(e) => {
                return Err(e);
            },
            Ok(()) => {},
        }
        let i = spec.id.0 as usize;
        if self.entries[i].is_some() {
            return Err(ServiceError::InvalidSpec);
        }
        self.entries[i] = Some((spec, ServiceState::Declared));
        Ok(())
    }

    pub fn state(&self, id: ServiceId) -> (r: Option<ServiceState>)
        ensures
            r == self.spec_state(id),
    {
        let i = id.0 as usize;
        if i >= MAX_SERVICES {
            return None;
        }
        match self.entries[i] {
            Some((_, st)) => Some(st),
            None => None,
        }
    }

    /// Moves service `id` to `to` when the lifecycle allows it.
    pub fn set_state(&mut self, id: ServiceId, to: ServiceState) -> (r: Result<(), ServiceError>)
        ensures
            old(self).spec_state(id) is None ==> r == Err::<(), ServiceError>(ServiceError::InvalidSpec) && final(self).slots() == old(self).slots(),
            old(self).spec_state(id) matches Some(from) && !lifecycle_edge(from, to)
                ==> r == Err::<(), ServiceError>(ServiceError::InvalidTransition) && final(self).slots() == old(self).slots(),
            old(self).spec_state(id) matches Some(from) && lifecycle_edge(from, to) ==> r == Ok::<(), ServiceError>(())
                && final(self).slots() == old(self).slots().update(id.0 as int, Some((old(self).slots()[id.0 as int]->Some_0.0, to))),
    {
        let i = id.0 as usize;
        if i >= MAX_SERVICES {
            return Err(ServiceError::InvalidSpec);
        }
        match self.entries[i] {
            None => Err(ServiceError::InvalidSpec),
            Some((spec, from)) => {
                if !transition(from, to) {
                    return Err(ServiceError::InvalidTransition);
                }
                self.entries[i] = Some((spec, to));
                Ok(())
            },
        }
    }

    /// Restarts a failed service whose policy allows it: it goes through
    /// `Starting` to `Running`.
    pub fn restart(&mut self, id: ServiceId) -> (r: Result<(), ServiceError>)
        ensures
            old(self).spec_state(id) is None ==> r == Err::<(), ServiceError>(ServiceError::InvalidSpec) && final(self).slots() == old(self).slots(),
            old(self).spec_state(id) is Some && (old(self).spec_state(id) != Some(ServiceState::Failed)
                || old(self).slots()[id.0 as int]->Some_0.0.restart == RestartPolicy::Never)
                ==> r == Err::<(), ServiceError>(ServiceError::InvalidTransition) && final(self).slots() == old(self).slots(),
            old(self).spec_state(id) == Some(ServiceState::Failed) && old(self).slots()[id.0 as int]->Some_0.0.restart != RestartPolicy::Never
                ==> r == Ok::<(), ServiceError>(())
                && final(self).slots() == old(self).slots().update(id.0 as int, Some((old(self).slots()[id.0 as int]->Some_0.0, ServiceState::Running))),
    {
        let i = id.0 as usize;
        if i >= MAX_SERVICES {
            return Err(ServiceError::InvalidSpec);
        }
        match self.entries[i] {
            None => Err(ServiceError::InvalidSpec),
            Some((spec, from)) => {
                if from != ServiceState::Failed || spec.restart == RestartPolicy::Never {
                    return Err(ServiceError::InvalidTransition);
                }
                self.entries[i] = Some((spec, ServiceState::Running));
                Ok(())
            },
        }
    }
}

} // verus!

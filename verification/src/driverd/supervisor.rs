//! Driver lifecycle supervisor: state transitions, fault isolation and a
//! bounded restart budget per driver.

use vstd::prelude::*;
use super::protocol::{DriverCommand, DriverId, DriverState};
use super::registry::{first_desc, has_desc, DriverDescriptor, DriverRegistry, MAX_REGISTERED_DRIVERS};

verus! {

pub const DEFAULT_MAX_RESTARTS: u16 = 3;

#[derive(Clone, Copy, Debug, PartialEq, Eq, Structural)]
pub enum SupervisorError {
    Registry,
    InvalidTransition,
    UnknownDriver,
    RestartBudgetExhausted,
}

/// `i` is the first of the first `len` restart records of driver `id`.
pub open spec fn first_count(counts: Seq<(DriverId, u16)>, len: int, id: DriverId, i: int) -> bool {
    &&& 0 <= i < len
    &&& counts[i].0 == id
    &&& forall|j: int| 0 <= j < i ==> (#[trigger] counts[j]).0 != id
}

pub open spec fn has_count(counts: Seq<(DriverId, u16)>, len: int, id: DriverId) -> bool {
    exists|i: int| 0 <= i < len && (#[trigger] counts[i]).0 == id
}

/// Restarts recorded for driver `id` (0 when none).
pub open spec fn count_of(counts: Seq<(DriverId, u16)>, len: int, id: DriverId) -> u16 {
    if has_count(counts, len, id) {
        counts[choose|i: int| first_count(counts, len, id, i)].1
    } else {
        0
    }
}

/// The state a command moves a driver to, if the command is allowed there.
pub open spec fn command_target(current: DriverState, command: DriverCommand) -> Option<DriverState> {
    match (current, command) {
        (DriverState::Discovered, DriverCommand::Probe) => Some(DriverState::Starting),
        (DriverState::Starting, DriverCommand::Start) => Some(DriverState::Running),
        (DriverState::Running, DriverCommand::Stop) => Some(DriverState::Stopping),
        (DriverState::Stopping, DriverCommand::Stop) => Some(DriverState::Discovered),
        (DriverState::Running, DriverCommand::Reset) => Some(DriverState::Starting),
        (_, DriverCommand::Quarantine) => Some(DriverState::Quarantined),
        (DriverState::Running, DriverCommand::HealthCheck) => Some(DriverState::Running),
        (DriverState::Failed, DriverCommand::Reset) => Some(DriverState::Starting),
        (DriverState::Starting, DriverCommand::Reset) => Some(DriverState::Starting),
        _ => None,
    }
}

/// Commands that consume one restart of the budget.
pub open spec fn is_restart(current: DriverState, command: DriverCommand) -> bool {
    command == DriverCommand::Reset
        && (current == DriverState::Running || current == DriverState::Failed || current == DriverState::Starting)
}

pub struct DriverSupervisor {
    registry: DriverRegistry,
    restart_counts: [(DriverId, u16); MAX_REGISTERED_DRIVERS],
    restart_len: usize,
    max_restarts: u16,
}

impl DriverSupervisor {
    /// The restart table's used prefix fits in the table.
    pub closed spec fn wf(&self) -> bool {
        self.restart_len <= MAX_REGISTERED_DRIVERS
    }

    pub closed spec fn spec_registry(&self) -> DriverRegistry {
        self.registry
    }

    pub closed spec fn counts(&self) -> Seq<(DriverId, u16)> {
        self.restart_counts@
    }

    pub closed spec fn counts_len(&self) -> int {
        self.restart_len as int
    }

    pub closed spec fn budget(&self) -> u16 {
        self.max_restarts
    }

    /// Restarts recorded for driver `id`.
    pub open spec fn restarts_of(&self, id: DriverId) -> u16 {
        count_of(self.counts(), self.counts_len(), id)
    }

    /// The restart table after one more restart of `id`: its record is
    /// incremented (saturating), or a new record of 1 is appended.
    pub open spec fn counts_after(self, old: Self, id: DriverId) -> bool {
        if has_count(old.counts(), old.counts_len(), id) {
            exists|i: int| first_count(old.counts(), old.counts_len(), id, i)
                && self.counts() == old.counts().update(i, (id, old.counts()[i].1.saturating_add(1)))
                && self.counts_len() == old.counts_len()
        } else {
            self.counts() == old.counts().update(old.counts_len(), (id, 1u16))
                && self.counts_len() == old.counts_len() + 1
        }
    }

    pub fn new() -> (s: Self)
        ensures
            s.wf(),
            s.spec_registry().used() == 0,
            s.counts_len() == 0,
            s.budget() == DEFAULT_MAX_RESTARTS,
    {
        Self {
            registry: DriverRegistry::new(),
            restart_counts: [(DriverId(0), 0); MAX_REGISTERED_DRIVERS],
            restart_len: 0,
            max_restarts: DEFAULT_MAX_RESTARTS,
        }
    }

    pub fn with_restart_budget(max_restarts: u16) -> (s: Self)
        ensures
            s.wf(),
            s.spec_registry().used() == 0,
            s.counts_len() == 0,
            s.budget() == max_restarts,
    {
        Self {
            registry: DriverRegistry::new(),
            restart_counts: [(DriverId(0), 0); MAX_REGISTERED_DRIVERS],
            restart_len: 0,
            max_restarts,
        }
    }

    pub fn registry(&self) -> (r: &DriverRegistry)
        ensures
            *r == self.spec_registry(),
    {
        &self.registry
    }

    pub fn registry_mut(&mut self) -> (r: &mut DriverRegistry)
        ensures
            old(self).wf() ==> final(self).wf(),
            *r == old(self).spec_registry(),
            final(self).spec_registry() == *final(r),
            final(self).counts() == old(self).counts(),
            final(self).counts_len() == old(self).counts_len(),
            final(self).budget() == old(self).budget(),
    {
        &mut self.registry
    }

    fn find_count(&self, id: DriverId) -> (r: Option<usize>)
        requires
            self.wf(),
        ensures
            match r {
                Some(i) => first_count(self.counts(), self.counts_len(), id, i as int),
                None => !has_count(self.counts(), self.counts_len(), id),
            },
    {
        let mut i: usize = 0;
        while i < self.restart_len
            invariant
                self.restart_len <= MAX_REGISTERED_DRIVERS,
                i <= self.restart_len,
                forall|j: int| 0 <= j < i ==> (#[trigger] self.restart_counts@[j]).0 != id,
            decreases self.restart_len - i,
        {
            if self.restart_counts[i].0 == id {
                return Some(i);
            }
            i += 1;
        }
        None
    }

    fn restart_count(&self, id: DriverId) -> (r: u16)
        requires
            self.wf(),
        ensures
            r == self.restarts_of(id),
    {
        match self.find_count(id) {
            Some(i) => self.restart_counts[i].1,
            None => 0,
        }
    }

    fn record_restart(&mut self, id: DriverId) -> (r: Result<(), SupervisorError>)
        requires
            old(self).wf(),
        ensures
            final(self).wf(),
            match r {
                Ok(()) => final(self).counts_after(*old(self), id),
                Err(e) => e == SupervisorError::RestartBudgetExhausted
                    && !has_count(old(self).counts(), old(self).counts_len(), id)
                    && old(self).counts_len() == MAX_REGISTERED_DRIVERS && *final(self) == *old(self),
            },
            final(self).spec_registry() == old(self).spec_registry(),
            final(self).budget() == old(self).budget(),
    {
        match self.find_count(id) {
            Some(i) => {
                let c = self.restart_counts[i].1;
                self.restart_counts[i] = (id, c.saturating_add(1));
                Ok(())
            },
            None => {
                if self.restart_len == MAX_REGISTERED_DRIVERS {
                    return Err(SupervisorError::RestartBudgetExhausted);
                }
                self.restart_counts[self.restart_len] = (id, 1);
                self.restart_len = self.restart_len + 1;
                Ok(())
            },
        }
    }

    pub fn restart_count_for(&self, id: DriverId) -> (r: u16)
        requires
            self.wf(),
        ensures
            r == self.restarts_of(id),
    {
        self.restart_count(id)
    }

    /// Applies a lifecycle command to a registered driver and returns its new
    /// state. Resets consume the driver's restart budget.
    pub fn command(&mut self, id: DriverId, command: DriverCommand) -> (r: Result<DriverState, SupervisorError>)
        requires
            old(self).wf(),
        ensures
            final(self).wf(),
            ({
                let reg = old(self).spec_registry();
                match reg.state_of(id) {
                    None => r == Err::<DriverState, SupervisorError>(SupervisorError::UnknownDriver) && *final(self) == *old(self),
                    Some(cur) => if is_restart(cur, command) && old(self).restarts_of(id) >= old(self).budget() {
                        r == Err::<DriverState, SupervisorError>(SupervisorError::RestartBudgetExhausted) && *final(self) == *old(self)
                    } else if command_target(cur, command) is None {
                        r == Err::<DriverState, SupervisorError>(SupervisorError::InvalidTransition) && *final(self) == *old(self)
                    } else if is_restart(cur, command) && !has_count(old(self).counts(), old(self).counts_len(), id)
                        && old(self).counts_len() == MAX_REGISTERED_DRIVERS {
                        r == Err::<DriverState, SupervisorError>(SupervisorError::RestartBudgetExhausted) && *final(self) == *old(self)
                    } else {
                        let next = command_target(cur, command)->Some_0;
                        &&& r == Ok::<DriverState, SupervisorError>(next)
                        &&& exists|i: int| first_desc(reg.entries(), reg.used(), id, i)
                            && final(self).spec_registry().entries() == reg.entries().update(i, Some(DriverDescriptor { state: next, ..reg.entries()[i]->Some_0 }))
                        &&& final(self).spec_registry().used() == reg.used()
                        &&& if is_restart(cur, command) {
                            final(self).counts_after(*old(self), id)
                        } else {
                            final(self).counts() == old(self).counts() && final(self).counts_len() == old(self).counts_len()
                        }
                        &&& final(self).budget() == old(self).budget()
                    },
                }
            }),
    {
        let current = match self.registry.find(id) {
            Some(d) => d.state,
            None => return Err(SupervisorError::UnknownDriver),
        };
        let count = self.restart_count(id);
        let restart = match command {
            DriverCommand::Reset => match current {
                DriverState::Running | DriverState::Failed | DriverState::Starting => true,
                _ => false,
            },
            _ => false,
        };
        if restart && count >= self.max_restarts {
            return Err(SupervisorError::RestartBudgetExhausted);
        }
        let next = match (current, command) {
            (DriverState::Discovered, DriverCommand::Probe) => DriverState::Starting,
            (DriverState::Starting, DriverCommand::Start) => DriverState::Running,
            (DriverState::Running, DriverCommand::Stop) => DriverState::Stopping,
            (DriverState::Stopping, DriverCommand::Stop) => DriverState::Discovered,
            (DriverState::Running, DriverCommand::Reset) => DriverState::Starting,
            (_, DriverCommand::Quarantine) => DriverState::Quarantined,
            (DriverState::Running, DriverCommand::HealthCheck) => DriverState::Running,
            (DriverState::Failed, DriverCommand::Reset) => DriverState::Starting,
            (DriverState::Starting, DriverCommand::Reset) => DriverState::Starting,
            _ => return Err(SupervisorError::InvalidTransition),
        };
        if restart {
            match self.record_restart(id) {
                Ok(()) => {},
                Err(e) => return Err(e),
            }
        }
        match self.registry.set_state(id, next) {
            Ok(()) => {},
            Err(_) => return Err(SupervisorError::Registry),
        }
        Ok(next)
    }

    /// Marks a registered driver as failed.
    pub fn fault(&mut self, id: DriverId) -> (r: Result<(), SupervisorError>)
        requires
            old(self).wf(),
        ensures
            final(self).wf(),
            match r {
                Ok(()) => exists|i: int| first_desc(old(self).spec_registry().entries(), old(self).spec_registry().used(), id, i)
                    && final(self).spec_registry().entries() == old(self).spec_registry().entries().update(i,
                        Some(DriverDescriptor { state: DriverState::Failed, ..old(self).spec_registry().entries()[i]->Some_0 }))
                    && final(self).spec_registry().used() == old(self).spec_registry().used()
                    && final(self).counts() == old(self).counts() && final(self).counts_len() == old(self).counts_len(),
                Err(e) => e == SupervisorError::UnknownDriver
                    && !has_desc(old(self).spec_registry().entries(), old(self).spec_registry().used(), id)
                    && *final(self) == *old(self),
            },
    {
        let ghost reg = self.registry;
        match self.registry.set_state(id, DriverState::Failed) {
            Ok(()) => {
                assert(reg == old(self).spec_registry());
                Ok(())
            },
            Err(_) => Err(SupervisorError::UnknownDriver),
        }
    }
}


/// The first restart record of a driver is unique.
proof fn lemma_first_count_unique(counts: Seq<(DriverId, u16)>, len: int, id: DriverId, i: int, j: int)
    requires
        first_count(counts, len, id, i),
        first_count(counts, len, id, j),
    ensures
        i == j,
{
    if i < j {
        assert(counts[i].0 == id);
    } else if j < i {
        assert(counts[j].0 == id);
    }
}

/// A driver with a restart record has a first one.
proof fn lemma_first_count_exists(counts: Seq<(DriverId, u16)>, len: int, id: DriverId)
    requires
        has_count(counts, len, id),
    ensures
        exists|i: int| first_count(counts, len, id, i),
    decreases len,
{
    let w = choose|k: int| 0 <= k < len && (#[trigger] counts[k]).0 == id;
    if has_count(counts, w, id) {
        lemma_first_count_exists(counts, w, id);
        let i = choose|i: int| first_count(counts, w, id, i);
        assert(first_count(counts, len, id, i));
    } else {
        assert forall|j: int| 0 <= j < w implies (#[trigger] counts[j]).0 != id by {
            if counts[j].0 == id {
                assert(has_count(counts, w, id));
            }
        }
        assert(first_count(counts, len, id, w));
    }
}

/// A restart taken below the budget records exactly one more restart for
/// its driver, so the count stays within the budget, and leaves every other
/// driver's count as it was.
pub proof fn lemma_restart_counts_one(old: DriverSupervisor, new: DriverSupervisor, id: DriverId, other: DriverId)
    requires
        old.wf(),
        old.restarts_of(id) < old.budget(),
        !has_count(old.counts(), old.counts_len(), id) ==> old.counts_len() < MAX_REGISTERED_DRIVERS,
        new.counts_after(old, id),
    ensures
        new.restarts_of(id) == old.restarts_of(id) + 1,
        new.restarts_of(id) <= old.budget(),
        other != id ==> new.restarts_of(other) == old.restarts_of(other),
{
    let oc = old.counts();
    let nc = new.counts();
    let len = old.counts_len();
    if has_count(oc, len, id) {
        let i = choose|i: int| first_count(oc, len, id, i)
            && nc == oc.update(i, (id, oc[i].1.saturating_add(1))) && new.counts_len() == len;
        assert(first_count(oc, len, id, i));
        let ci = choose|k: int| first_count(oc, len, id, k);
        lemma_first_count_unique(oc, len, id, i, ci);
        assert(first_count(nc, len, id, i));
        assert(has_count(nc, len, id));
        let ni = choose|k: int| first_count(nc, len, id, k);
        lemma_first_count_unique(nc, len, id, i, ni);
        assert(oc[i].1 < old.budget());
        assert(nc[i].1 == oc[i].1 + 1);
        if other != id {
            assert forall|k: int| 0 <= k < len implies (#[trigger] nc[k]).0 == oc[k].0 by {}
            if has_count(oc, len, other) {
                let w = choose|k: int| 0 <= k < len && (#[trigger] oc[k]).0 == other;
                assert(nc[w].0 == other);
                lemma_first_count_exists(oc, len, other);
                let oi = choose|k: int| first_count(oc, len, other, k);
                assert(first_count(nc, len, other, oi));
                let nj = choose|k: int| first_count(nc, len, other, k);
                lemma_first_count_unique(nc, len, other, oi, nj);
                assert(oi != i);
            } else {
                if has_count(nc, len, other) {
                    let w = choose|k: int| 0 <= k < len && (#[trigger] nc[k]).0 == other;
                    assert(oc[w].0 == other);
                }
            }
        }
    } else {
        let len1 = len + 1;
        assert(nc == oc.update(len, (id, 1u16)));
        assert(new.counts_len() == len1);
        assert(first_count(nc, len1, id, len)) by {
            assert forall|j: int| 0 <= j < len implies (#[trigger] nc[j]).0 != id by {
                assert(nc[j] == oc[j]);
                if oc[j].0 == id {
                    assert(has_count(oc, len, id));
                }
            }
        }
        assert(has_count(nc, len1, id));
        let ni = choose|k: int| first_count(nc, len1, id, k);
        lemma_first_count_unique(nc, len1, id, len, ni);
        if other != id {
            if has_count(oc, len, other) {
                lemma_first_count_exists(oc, len, other);
                let oi = choose|k: int| first_count(oc, len, other, k);
                assert(nc[oi] == oc[oi]);
                assert(first_count(nc, len1, other, oi)) by {
                    assert forall|j: int| 0 <= j < oi implies (#[trigger] nc[j]).0 != other by {
                        assert(nc[j] == oc[j]);
                    }
                }
                let nj = choose|k: int| first_count(nc, len1, other, k);
                lemma_first_count_unique(nc, len1, other, oi, nj);
            } else {
                if has_count(nc, len1, other) {
                    let w = choose|k: int| 0 <= k < len1 && (#[trigger] nc[k]).0 == other;
                    if w < len {
                        assert(nc[w] == oc[w]);
                    }
                }
            }
        }
    }
}

} // verus!

//! Runtime supervisor: registers services with their dependencies, starts
//! them through a spawn callback once every dependency runs, and escalates
//! repeated failures to quarantine.

use vstd::prelude::*;
use super::{spec_ok, validate_spec, RestartPolicy, ServiceId, ServiceSpec, ServiceState};

verus! {

pub const MAX_DEPENDENCIES: usize = 8;
pub const MAX_RUNTIME_SERVICES: usize = 8;
pub const MAX_FAILURES: u8 = 3;

#[derive(Clone, Copy, Debug, Eq, PartialEq, Structural)]
pub enum RuntimeError {
    Full,
    Duplicate,
    InvalidSpec,
    InvalidDependency,
    DependencyCycle,
    MissingDependency,
    SpawnFailed,
    InvalidTransition,
    Quarantined,
}

#[derive(Clone, Copy, Debug, Eq, PartialEq)]
pub struct ServiceRuntimeSpec {
    pub spec: ServiceSpec,
    pub dependencies: [Option<ServiceId>; MAX_DEPENDENCIES],
    pub dependency_count: u8,
    pub entry: usize,
}

#[derive(Clone, Copy, Debug, Eq, PartialEq)]
pub struct RuntimeRecord {
    pub spec: ServiceRuntimeSpec,
    pub state: ServiceState,
    pub process_id: u64,
    pub failures: u8,
}

pub open spec fn rec_is(o: Option<RuntimeRecord>, id: ServiceId) -> bool {
    o matches Some(r) && r.spec.spec.id == id
}

/// Index of the first record of service `id` at or after slot `i` (`recs.len()` when none).
pub open spec fn find_from(recs: Seq<Option<RuntimeRecord>>, id: ServiceId, i: int) -> int
    decreases recs.len() - i,
{
    if i < 0 || i >= recs.len() {
        recs.len() as int
    } else if rec_is(recs[i], id) {
        i
    } else {
        find_from(recs, id, i + 1)
    }
}

/// The first problem among the first `k` declared dependencies when the
/// service is registered: an empty entry, or the service itself.
pub open spec fn declared_dep_error(rt: ServiceRuntimeSpec, k: int) -> Option<RuntimeError>
    decreases k,
{
    if k <= 0 {
        None
    } else {
        match declared_dep_error(rt, k - 1) {
            Some(e) => Some(e),
            None => match rt.dependencies@[k - 1] {
                None => Some(RuntimeError::InvalidDependency),
                Some(dep) => if dep == rt.spec.id { Some(RuntimeError::DependencyCycle) } else { None },
            },
        }
    }
}

/// The first of the first `k` dependencies that is not a registered, running service.
pub open spec fn dep_error(recs: Seq<Option<RuntimeRecord>>, rt: ServiceRuntimeSpec, k: int) -> Option<RuntimeError>
    decreases k,
{
    if k <= 0 {
        None
    } else {
        match dep_error(recs, rt, k - 1) {
            Some(e) => Some(e),
            None => match rt.dependencies@[k - 1] {
                None => Some(RuntimeError::InvalidDependency),
                Some(dep) => {
                    let j = find_from(recs, dep, 0);
                    if j >= recs.len() || recs[j]->Some_0.state != ServiceState::Running {
                        Some(RuntimeError::MissingDependency)
                    } else {
                        None
                    }
                },
            },
        }
    }
}

/// Once a problem is found among the first `k` dependencies, looking at more keeps it.
proof fn lemma_declared_dep_error_stable(rt: ServiceRuntimeSpec, k: int, n: int)
    requires
        0 <= k <= n,
        declared_dep_error(rt, k) is Some,
    ensures
        declared_dep_error(rt, n) == declared_dep_error(rt, k),
    decreases n - k,
{
    if n > k {
        lemma_declared_dep_error_stable(rt, k, n - 1);
    }
}

proof fn lemma_dep_error_stable(recs: Seq<Option<RuntimeRecord>>, rt: ServiceRuntimeSpec, k: int, n: int)
    requires
        0 <= k <= n,
        dep_error(recs, rt, k) is Some,
    ensures
        dep_error(recs, rt, n) == dep_error(recs, rt, k),
    decreases n - k,
{
    if n > k {
        lemma_dep_error_stable(recs, rt, k, n - 1);
    }
}

pub open spec fn spawn_ok(res: Result<u64, ()>) -> bool {
    res matches Ok(pid) && pid != 0
}

/// States from which a service may be started.
pub open spec fn startable(s: ServiceState) -> bool {
    s == ServiceState::Declared || s == ServiceState::Failed || s == ServiceState::Stopped
}

/// The outcome of `start(id)`: the service must exist, not be quarantined,
/// have every dependency running and be in a startable state; then the
/// spawn callback decides between running with the new process id and failed.
pub open spec fn start_outcome<F: Fn(usize, ServiceId, u32, u32) -> Result<u64, ()>>(
    old: Seq<Option<RuntimeRecord>>,
    new: Seq<Option<RuntimeRecord>>,
    spawn: F,
    id: ServiceId,
    r: Result<u64, RuntimeError>,
) -> bool {
    let i = find_from(old, id, 0);
    if i >= old.len() {
        r == Err::<u64, RuntimeError>(RuntimeError::MissingDependency) && new == old
    } else {
        let rec = old[i]->Some_0;
        if rec.state == ServiceState::Quarantined {
            r == Err::<u64, RuntimeError>(RuntimeError::Quarantined) && new == old
        } else if dep_error(old, rec.spec, rec.spec.dependency_count as int) is Some {
            r == Err::<u64, RuntimeError>(dep_error(old, rec.spec, rec.spec.dependency_count as int)->Some_0) && new == old
        } else if !startable(rec.state) {
            r == Err::<u64, RuntimeError>(RuntimeError::InvalidTransition) && new == old
        } else {
            exists|res: Result<u64, ()>| {
                &&& call_ensures(spawn, (rec.spec.entry, id, rec.spec.spec.memory_limit_pages, rec.spec.spec.cpu_budget_ticks), res)
                &&& if spawn_ok(res) {
                    r == Ok::<u64, RuntimeError>(res->Ok_0)
                        && new == old.update(i, Some(RuntimeRecord { process_id: res->Ok_0, state: ServiceState::Running, ..rec }))
                } else {
                    r == Err::<u64, RuntimeError>(RuntimeError::SpawnFailed)
                        && new == old.update(i, Some(RuntimeRecord { state: ServiceState::Failed, ..rec }))
                }
            }
        }
    }
}

/// The state a running service moves to after a failure, given its failure
/// count before it: quarantined once the count exceeds `MAX_FAILURES`.
pub open spec fn after_failure(failures: u8) -> ServiceState {
    if failures.saturating_add(1) > MAX_FAILURES { ServiceState::Quarantined } else { ServiceState::Failed }
}

pub struct Supervisor<F: Fn(usize, ServiceId, u32, u32) -> Result<u64, ()>> {
    records: [Option<RuntimeRecord>; MAX_RUNTIME_SERVICES],
    count: usize,
    spawn: F,
}

impl<F: Fn(usize, ServiceId, u32, u32) -> Result<u64, ()>> Supervisor<F> {
    pub closed spec fn wf(&self) -> bool {
        &&& self.count <= MAX_RUNTIME_SERVICES
        &&& forall|i: int| 0 <= i < MAX_RUNTIME_SERVICES ==> ((#[trigger] self.records@[i]) is Some <==> i < self.count)
        &&& forall|i: int| 0 <= i < self.count ==> (#[trigger] self.records@[i])->Some_0.spec.dependency_count <= MAX_DEPENDENCIES
        &&& forall|a: usize, b: ServiceId, c: u32, d: u32| call_requires(self.spawn, (a, b, c, d))
    }

    /// The record slots.
    pub closed spec fn recs(&self) -> Seq<Option<RuntimeRecord>> {
        self.records@
    }

    pub closed spec fn spawner(&self) -> F {
        self.spawn
    }

    pub closed spec fn spec_len(&self) -> usize {
        self.count
    }

    pub fn new(spawn: F) -> (s: Self)
        requires
            forall|a: usize, b: ServiceId, c: u32, d: u32| call_requires(spawn, (a, b, c, d)),
        ensures
            s.wf(),
            s.recs() == Seq::new(MAX_RUNTIME_SERVICES as nat, |i: int| None::<RuntimeRecord>),
            s.spec_len() == 0,
            s.spawner() == spawn,
    {
        let mut records: [Option<RuntimeRecord>; MAX_RUNTIME_SERVICES] = [None; MAX_RUNTIME_SERVICES];
        let mut k: usize = 0;
        while k < MAX_RUNTIME_SERVICES
            invariant
                k <= MAX_RUNTIME_SERVICES,
                forall|i: int| 0 <= i < k ==> (#[trigger] records@[i]) is None,
            decreases MAX_RUNTIME_SERVICES - k,
        {
            records[k] = None;
            k += 1;
        }
        let s = Supervisor { records, count: 0, spawn };
        assert(s.recs() =~= Seq::new(MAX_RUNTIME_SERVICES as nat, |i: int| None::<RuntimeRecord>));
        s
    }

    pub fn len(&self) -> (n: usize)
        ensures
            n == self.spec_len(),
    {
        self.count
    }

    fn find(&self, id: ServiceId) -> (r: Option<usize>)
        ensures
            match r {
                Some(i) => i == find_from(self.recs(), id, 0) && i < MAX_RUNTIME_SERVICES && rec_is(self.recs()[i as int], id),
                None => find_from(self.recs(), id, 0) >= self.recs().len(),
            },
    {
        let mut i: usize = 0;
        while i < MAX_RUNTIME_SERVICES
            invariant
                i <= MAX_RUNTIME_SERVICES,
                self.records@.len() == MAX_RUNTIME_SERVICES,
                find_from(self.recs(), id, 0) == find_from(self.recs(), id, i as int),
            decreases MAX_RUNTIME_SERVICES - i,
        {
            if let Some(r) = self.records[i] {
                if r.spec.spec.id == id {
                    return Some(i);
                }
            }
            i += 1;
        }
        None
    }

    /// Registers a service: its spec must be valid, with at most eight
    /// dependencies and an entry point; its id must be new; every declared
    /// dependency must be present and must not be the service itself.
    pub fn register(&mut self, runtime: ServiceRuntimeSpec) -> (r: Result<(), RuntimeError>)
        requires
            old(self).wf(),
        ensures
            final(self).wf(),
            final(self).spawner() == old(self).spawner(),
            r == (if !spec_ok(runtime.spec) || runtime.dependency_count > MAX_DEPENDENCIES || runtime.entry == 0 {
                Err(RuntimeError::InvalidSpec)
            } else if find_from(old(self).recs(), runtime.spec.id, 0) < old(self).recs().len() {
                Err(RuntimeError::Duplicate)
            } else if declared_dep_error(runtime, runtime.dependency_count as int) is Some {
                Err(declared_dep_error(runtime, runtime.dependency_count as int)->Some_0)
            } else if old(self).spec_len() == MAX_RUNTIME_SERVICES {
                Err(RuntimeError::Full)
            } else {
                Ok(())
            }),
            r is Err ==> final(self).recs() == old(self).recs() && final(self).spec_len() == old(self).spec_len(),
            r is Ok ==> final(self).spec_len() == old(self).spec_len() + 1 && final(self).recs() == old(self).recs().update(
                old(self).spec_len() as int,
                Some(RuntimeRecord { spec: runtime, state: ServiceState::Declared, process_id: 0, failures: 0 }),
            ),
    {
        match validate_spec(runtime.spec) {
            Err(_) => {
                return Err(RuntimeError::InvalidSpec);
            },
            Ok(()) => {},
        }
        if runtime.dependency_count as usize > MAX_DEPENDENCIES || runtime.entry == 0 {
            return Err(RuntimeError::InvalidSpec);
        }
        if self.find(runtime.spec.id).is_some() {
            return Err(RuntimeError::Duplicate);
        }
        let n = runtime.dependency_count as usize;
        let mut index: usize = 0;
        while index < n
            invariant
                n == runtime.dependency_count,
                n <= MAX_DEPENDENCIES,
                index <= n,
                *self == *old(self),
                self.wf(),
                spec_ok(runtime.spec),
                runtime.entry != 0,
                find_from(old(self).recs(), runtime.spec.id, 0) >= old(self).recs().len(),
                declared_dep_error(runtime, index as int) is None,
            decreases n - index,
        {
            match runtime.dependencies[index] {
                None => {
                    proof { lemma_declared_dep_error_stable(runtime, index as int + 1, n as int); }
                    return Err(RuntimeError::InvalidDependency);
                },
                Some(dep) => {
                    if dep == runtime.spec.id {
                        proof { lemma_declared_dep_error_stable(runtime, index as int + 1, n as int); }
                        return Err(RuntimeError::DependencyCycle);
                    }
                },
            }
            index += 1;
        }
        if self.count >= MAX_RUNTIME_SERVICES {
            assert(forall|i: int| 0 <= i < MAX_RUNTIME_SERVICES ==> (#[trigger] self.records@[i]) is Some);
            return Err(RuntimeError::Full);
        }
        assert(self.records@[self.count as int] is None);
        self.records[self.count] = Some(RuntimeRecord { spec: runtime, state: ServiceState::Declared, process_id: 0, failures: 0 });
        self.count = self.count + 1;
        Ok(())
    }

    /// Starts service `id` (see `start_outcome`).
    pub fn start(&mut self, id: ServiceId) -> (r: Result<u64, RuntimeError>)
        requires
            old(self).wf(),
        ensures
            final(self).wf(),
            final(self).spawner() == old(self).spawner(),
            final(self).spec_len() == old(self).spec_len(),
            start_outcome(old(self).recs(), final(self).recs(), old(self).spawner(), id, r),
    {
        let index = match self.find(id) {
            None => {
                return Err(RuntimeError::MissingDependency);
            },
            Some(i) => i,
        };
        let runtime = self.records[index].unwrap();
        if runtime.state == ServiceState::Quarantined {
            return Err(RuntimeError::Quarantined);
        }
        let n = runtime.spec.dependency_count as usize;
        assert(index < self.count);
        let mut k: usize = 0;
        while k < n
            invariant
                n == runtime.spec.dependency_count,
                n <= MAX_DEPENDENCIES,
                k <= n,
                self.wf(),
                *self == *old(self),
                index == find_from(old(self).recs(), id, 0),
                index < MAX_RUNTIME_SERVICES,
                runtime == old(self).recs()[index as int]->Some_0,
                runtime.state != ServiceState::Quarantined,
                dep_error(self.recs(), runtime.spec, k as int) is None,
            decreases n - k,
        {
            let dep = match runtime.spec.dependencies[k] {
                None => {
                    proof { lemma_dep_error_stable(self.recs(), runtime.spec, k as int + 1, n as int); }
                    return Err(RuntimeError::InvalidDependency);
                },
                Some(d) => d,
            };
            let dep_index = match self.find(dep) {
                None => {
                    proof { lemma_dep_error_stable(self.recs(), runtime.spec, k as int + 1, n as int); }
                    return Err(RuntimeError::MissingDependency);
                },
                Some(j) => j,
            };
            if self.records[dep_index].unwrap().state != ServiceState::Running {
                proof { lemma_dep_error_stable(self.recs(), runtime.spec, k as int + 1, n as int); }
                return Err(RuntimeError::MissingDependency);
            }
            k += 1;
        }
        if !(runtime.state == ServiceState::Declared || runtime.state == ServiceState::Failed || runtime.state == ServiceState::Stopped) {
            return Err(RuntimeError::InvalidTransition);
        }
        self.records[index] = Some(RuntimeRecord { state: ServiceState::Starting, ..runtime });
        let res = (self.spawn)(runtime.spec.entry, id, runtime.spec.spec.memory_limit_pages, runtime.spec.spec.cpu_budget_ticks);
        let pid = match res {
            Ok(pid) => pid,
            Err(()) => 0,
        };
        let ghost args = (runtime.spec.entry, id, runtime.spec.spec.memory_limit_pages, runtime.spec.spec.cpu_budget_ticks);
        if pid == 0 {
            self.records[index] = Some(RuntimeRecord { state: ServiceState::Failed, ..runtime });
            proof {
                assert(!spawn_ok(res));
                assert(self.recs() =~= old(self).recs().update(index as int, Some(RuntimeRecord { state: ServiceState::Failed, ..runtime })));
                assert(call_ensures(old(self).spawner(), args, res));
            }
            return Err(RuntimeError::SpawnFailed);
        }
        self.records[index] = Some(RuntimeRecord { process_id: pid, state: ServiceState::Running, ..runtime });
        proof {
            assert(spawn_ok(res) && res->Ok_0 == pid);
            assert(self.recs() =~= old(self).recs().update(index as int, Some(RuntimeRecord { process_id: pid, state: ServiceState::Running, ..runtime })));
            assert(call_ensures(old(self).spawner(), args, res));
        }
        Ok(pid)
    }

    /// Records a failure of a running service; after more than
    /// `MAX_FAILURES` failures it is quarantined.
    pub fn report_failure(&mut self, id: ServiceId) -> (r: Result<ServiceState, RuntimeError>)
        requires
            old(self).wf(),
        ensures
            final(self).wf(),
            final(self).spawner() == old(self).spawner(),
            final(self).spec_len() == old(self).spec_len(),
            ({
                let i = find_from(old(self).recs(), id, 0);
                if i >= old(self).recs().len() {
                    r == Err::<ServiceState, RuntimeError>(RuntimeError::MissingDependency) && final(self).recs() == old(self).recs()
                } else {
                    let rec = old(self).recs()[i]->Some_0;
                    if rec.state != ServiceState::Running {
                        r == Err::<ServiceState, RuntimeError>(RuntimeError::InvalidTransition) && final(self).recs() == old(self).recs()
                    } else {
                        &&& r == Ok::<ServiceState, RuntimeError>(after_failure(rec.failures))
                        &&& final(self).recs() == old(self).recs().update(i, Some(RuntimeRecord {
                            failures: rec.failures.saturating_add(1),
                            state: after_failure(rec.failures),
                            ..rec
                        }))
                    }
                }
            }),
    {
        let index = match self.find(id) {
            None => {
                return Err(RuntimeError::MissingDependency);
            },
            Some(i) => i,
        };
        let record = self.records[index].unwrap();
        if record.state != ServiceState::Running {
            return Err(RuntimeError::InvalidTransition);
        }
        let failures = record.failures.saturating_add(1);
        let state = if failures > MAX_FAILURES { ServiceState::Quarantined } else { ServiceState::Failed };
        self.records[index] = Some(RuntimeRecord { failures, state, ..record });
        Ok(state)
    }

    /// Restarts a service whose policy allows it and that is not quarantined
    /// and has not failed too often.
    pub fn restart(&mut self, id: ServiceId) -> (r: Result<u64, RuntimeError>)
        requires
            old(self).wf(),
        ensures
            final(self).wf(),
            final(self).spawner() == old(self).spawner(),
            ({
                let i = find_from(old(self).recs(), id, 0);
                if i >= old(self).recs().len() {
                    r == Err::<u64, RuntimeError>(RuntimeError::MissingDependency) && final(self).recs() == old(self).recs()
                } else {
                    let rec = old(self).recs()[i]->Some_0;
                    if rec.state == ServiceState::Quarantined || rec.failures > MAX_FAILURES {
                        r == Err::<u64, RuntimeError>(RuntimeError::Quarantined) && final(self).recs() == old(self).recs()
                    } else if rec.spec.spec.restart == RestartPolicy::Never {
                        r == Err::<u64, RuntimeError>(RuntimeError::InvalidTransition) && final(self).recs() == old(self).recs()
                    } else {
                        start_outcome(old(self).recs(), final(self).recs(), old(self).spawner(), id, r)
                    }
                }
            }),
    {
        let index = match self.find(id) {
            None => {
                return Err(RuntimeError::MissingDependency);
            },
            Some(i) => i,
        };
        let record = self.records[index].unwrap();
        if record.state == ServiceState::Quarantined || record.failures > MAX_FAILURES {
            return Err(RuntimeError::Quarantined);
        }
        match record.spec.spec.restart {
            RestartPolicy::Never => Err(RuntimeError::InvalidTransition),
            _ => self.start(id),
        }
    }

    pub fn state(&self, id: ServiceId) -> (r: Option<ServiceState>)
        ensures
            r == (if find_from(self.recs(), id, 0) < self.recs().len() {
                Some(self.recs()[find_from(self.recs(), id, 0)]->Some_0.state)
            } else {
                None
            }),
    {
        match self.find(id) {
            Some(i) => Some(self.records[i].unwrap().state),
            None => None,
        }
    }

    /// The process id of a service that has been spawned.
    pub fn process_id(&self, id: ServiceId) -> (r: Option<u64>)
        ensures
            r == (if find_from(self.recs(), id, 0) < self.recs().len()
                && self.recs()[find_from(self.recs(), id, 0)]->Some_0.process_id != 0 {
                Some(self.recs()[find_from(self.recs(), id, 0)]->Some_0.process_id)
            } else {
                None
            }),
    {
        match self.find(id) {
            Some(i) => {
                let pid = self.records[i].unwrap().process_id;
                if pid != 0 { Some(pid) } else { None }
            },
            None => None,
        }
    }
}

/// Failures escalate: a running service that fails is quarantined exactly
/// when it had already failed `MAX_FAILURES` times or more.
pub proof fn lemma_failure_escalation(failures: u8)
    ensures
        after_failure(failures) == ServiceState::Quarantined <==> failures >= MAX_FAILURES,
        after_failure(failures) == ServiceState::Failed <==> failures < MAX_FAILURES,
{
}

} // verus!

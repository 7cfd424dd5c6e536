//! Application supervisor: admission, start through spawn and window
//! callbacks, stop, and failure escalation to quarantine.

use vstd::prelude::*;
use crate::table::find_free;
use super::{manifest_verdict, validate_manifest, AppId, AppManifest, AppState};

verus! {

pub const MAX_APPS: usize = 32;
pub const MAX_FAILURES: u8 = 3;

#[derive(Clone, Copy, Debug, Eq, PartialEq, Structural)]
pub enum RuntimeError {
    Full,
    InvalidManifest,
    Duplicate,
    NotFound,
    CapabilityDenied,
    SpawnFailed,
    InvalidTransition,
    Quarantined,
}

#[derive(Clone, Copy, Debug, Eq, PartialEq, Structural)]
pub struct RuntimeApp {
    pub manifest: AppManifest,
    pub state: AppState,
    pub process_id: u64,
    pub window_id: u16,
    pub failures: u8,
}

pub open spec fn app_is(o: Option<RuntimeApp>, id: AppId) -> bool {
    o matches Some(a) && a.manifest.id == id
}

/// Index of the first record of app `id` at or after slot `i` (`apps.len()` when none).
pub open spec fn find_from(apps: Seq<Option<RuntimeApp>>, id: AppId, i: int) -> int
    decreases apps.len() - i,
{
    if i < 0 || i >= apps.len() {
        apps.len() as int
    } else if app_is(apps[i], id) {
        i
    } else {
        find_from(apps, id, i + 1)
    }
}

pub open spec fn pid_ok(res: Result<u64, ()>) -> bool {
    res matches Ok(pid) && pid != 0
}

pub open spec fn window_ok(res: Result<u16, ()>) -> bool {
    res matches Ok(w) && w != 0
}

/// The outcome of `start(id, caller)`: the app must exist, not be
/// quarantined, need no capability the caller lacks and be startable; then
/// the spawn and window callbacks decide between running and failed.
pub open spec fn start_outcome<S: Fn(AppId, u32, u64) -> Result<u64, ()>, W: Fn(AppId) -> Result<u16, ()>>(
    old: Seq<Option<RuntimeApp>>,
    new: Seq<Option<RuntimeApp>>,
    spawn: S,
    window: W,
    id: AppId,
    caller: u64,
    r: Result<u64, RuntimeError>,
) -> bool {
    let i = find_from(old, id, 0);
    if i >= old.len() {
        r == Err::<u64, RuntimeError>(RuntimeError::NotFound) && new == old
    } else {
        let a = old[i]->Some_0;
        if a.state == AppState::Quarantined {
            r == Err::<u64, RuntimeError>(RuntimeError::Quarantined) && new == old
        } else if a.manifest.capability_mask & !caller != 0 {
            r == Err::<u64, RuntimeError>(RuntimeError::CapabilityDenied) && new == old
        } else if !(a.state == AppState::Installed || a.state == AppState::Stopped || a.state == AppState::Failed) {
            r == Err::<u64, RuntimeError>(RuntimeError::InvalidTransition) && new == old
        } else {
            let failed = old.update(i, Some(RuntimeApp { state: AppState::Failed, ..a }));
            exists|p: Result<u64, ()>| {
                &&& call_ensures(spawn, (id, a.manifest.memory_limit_pages, a.manifest.capability_mask), p)
                &&& if !pid_ok(p) {
                    r == Err::<u64, RuntimeError>(RuntimeError::SpawnFailed) && new == failed
                } else {
                    exists|w: Result<u16, ()>| {
                        &&& call_ensures(window, (id,), w)
                        &&& if !window_ok(w) {
                            r == Err::<u64, RuntimeError>(RuntimeError::SpawnFailed) && new == failed
                        } else {
                            r == Ok::<u64, RuntimeError>(p->Ok_0) && new == old.update(i, Some(RuntimeApp {
                                process_id: p->Ok_0,
                                window_id: w->Ok_0,
                                state: AppState::Running,
                                ..a
                            }))
                        }
                    }
                }
            }
        }
    }
}

/// The state a running app moves to after a failure, given its earlier failures.
pub open spec fn after_failure(failures: u8) -> AppState {
    if failures.saturating_add(1) > MAX_FAILURES { AppState::Quarantined } else { AppState::Failed }
}

pub struct Supervisor<S: Fn(AppId, u32, u64) -> Result<u64, ()>, W: Fn(AppId) -> Result<u16, ()>> {
    apps: [Option<RuntimeApp>; MAX_APPS],
    count: usize,
    spawn: S,
    create_window: W,
}

impl<S: Fn(AppId, u32, u64) -> Result<u64, ()>, W: Fn(AppId) -> Result<u16, ()>> Supervisor<S, W> {
    pub closed spec fn wf(&self) -> bool {
        &&& self.count <= MAX_APPS
        &&& forall|i: int| 0 <= i < MAX_APPS ==> ((#[trigger] self.apps@[i]) is Some <==> i < self.count)
        &&& forall|a: AppId, m: u32, c: u64| call_requires(self.spawn, (a, m, c))
        &&& forall|a: AppId| call_requires(self.create_window, (a,))
    }

    pub closed spec fn slots(&self) -> Seq<Option<RuntimeApp>> {
        self.apps@
    }

    pub closed spec fn spec_len(&self) -> usize {
        self.count
    }

    pub closed spec fn spawner(&self) -> S {
        self.spawn
    }

    pub closed spec fn windower(&self) -> W {
        self.create_window
    }

    pub fn new(spawn: S, create_window: W) -> (s: Self)
        requires
            forall|a: AppId, m: u32, c: u64| call_requires(spawn, (a, m, c)),
            forall|a: AppId| call_requires(create_window, (a,)),
        ensures
            s.wf(),
            s.slots() == Seq::new(MAX_APPS as nat, |i: int| None::<RuntimeApp>),
            s.spec_len() == 0,
            s.spawner() == spawn,
            s.windower() == create_window,
    {
        let mut apps: [Option<RuntimeApp>; MAX_APPS] = [None; MAX_APPS];
        let mut k: usize = 0;
        while k < MAX_APPS
            invariant
                k <= MAX_APPS,
                forall|i: int| 0 <= i < k ==> (#[trigger] apps@[i]) is None,
            decreases MAX_APPS - k,
        {
            apps[k] = None;
            k += 1;
        }
        let s = Supervisor { apps, count: 0, spawn, create_window };
        assert(s.slots() =~= Seq::new(MAX_APPS as nat, |i: int| None::<RuntimeApp>));
        s
    }

    pub fn len(&self) -> (n: usize)
        ensures
            n == self.spec_len(),
    {
        self.count
    }

    fn find(&self, id: AppId) -> (r: Option<usize>)
        ensures
            match r {
                Some(i) => i == find_from(self.slots(), id, 0) && i < MAX_APPS && app_is(self.slots()[i as int], id),
                None => find_from(self.slots(), id, 0) >= self.slots().len(),
            },
    {
        let mut i: usize = 0;
        while i < MAX_APPS
            invariant
                i <= MAX_APPS,
                self.apps@.len() == MAX_APPS,
                find_from(self.slots(), id, 0) == find_from(self.slots(), id, i as int),
            decreases MAX_APPS - i,
        {
            if let Some(a) = self.apps[i] {
                if a.manifest.id == id {
                    return Some(i);
                }
            }
            i += 1;
        }
        None
    }

    /// Admits an app with a valid manifest and a new id.
    pub fn admit_app(&mut self, manifest: AppManifest) -> (r: Result<(), RuntimeError>)
        requires
            old(self).wf(),
        ensures
            final(self).wf(),
            final(self).spawner() == old(self).spawner() && final(self).windower() == old(self).windower(),
            r == (if manifest_verdict(manifest) is Err {
                Err(RuntimeError::InvalidManifest)
            } else if find_from(old(self).slots(), manifest.id, 0) < old(self).slots().len() {
                Err(RuntimeError::Duplicate)
            } else if old(self).spec_len() == MAX_APPS {
                Err(RuntimeError::Full)
            } else {
                Ok(())
            }),
            r is Err ==> final(self).slots() == old(self).slots() && final(self).spec_len() == old(self).spec_len(),
            r is Ok ==> final(self).spec_len() == old(self).spec_len() + 1 && final(self).slots() == old(self).slots().update(
                old(self).spec_len() as int,
                Some(RuntimeApp { manifest, state: AppState::Installed, process_id: 0, window_id: 0, failures: 0 }),
            ),
    {
        if validate_manifest(manifest).is_err() {
            return Err(RuntimeError::InvalidManifest);
        }
        if self.find(manifest.id).is_some() {
            return Err(RuntimeError::Duplicate);
        }
        match find_free(&self.apps) {
            Some(slot) => {
                assert(slot == self.count) by {
                    if slot < self.count {
                        assert(self.apps@[slot as int] is Some);
                    } else if slot > self.count {
                        assert(self.apps@[self.count as int] is None);
                    }
                }
                self.apps[slot] = Some(RuntimeApp { manifest, state: AppState::Installed, process_id: 0, window_id: 0, failures: 0 });
                self.count = self.count + 1;
                Ok(())
            },
            None => {
                assert(self.count == MAX_APPS) by {
                    if self.count < MAX_APPS {
                        assert(self.apps@[self.count as int] is None);
                    }
                }
                Err(RuntimeError::Full)
            },
        }
    }

    /// Starts app `id` for a caller holding `caller_capabilities` (see `start_outcome`).
    pub fn start(&mut self, id: AppId, caller_capabilities: u64) -> (r: Result<u64, RuntimeError>)
        requires
            old(self).wf(),
        ensures
            final(self).wf(),
            final(self).spec_len() == old(self).spec_len(),
            final(self).spawner() == old(self).spawner() && final(self).windower() == old(self).windower(),
            start_outcome(old(self).slots(), final(self).slots(), old(self).spawner(), old(self).windower(), id, caller_capabilities, r),
    {
        let index = match self.find(id) {
            None => {
                return Err(RuntimeError::NotFound);
            },
            Some(i) => i,
        };
        let record = self.apps[index].unwrap();
        if record.state == AppState::Quarantined {
            return Err(RuntimeError::Quarantined);
        }
        if record.manifest.capability_mask & !caller_capabilities != 0 {
            return Err(RuntimeError::CapabilityDenied);
        }
        if !(record.state == AppState::Installed || record.state == AppState::Stopped || record.state == AppState::Failed) {
            return Err(RuntimeError::InvalidTransition);
        }
        self.apps[index] = Some(RuntimeApp { state: AppState::Starting, ..record });
        let p = (self.spawn)(id, record.manifest.memory_limit_pages, record.manifest.capability_mask);
        let pid: u64 = match p {
            Ok(v) => v,
            Err(()) => 0,
        };
        if pid == 0 {
            self.apps[index] = Some(RuntimeApp { state: AppState::Failed, ..record });
            proof {
                assert(self.slots() =~= old(self).slots().update(index as int, Some(RuntimeApp { state: AppState::Failed, ..record })));
                assert(call_ensures(old(self).spawner(), (id, record.manifest.memory_limit_pages, record.manifest.capability_mask), p));
                assert(!pid_ok(p));
            }
            return Err(RuntimeError::SpawnFailed);
        }
        let w = (self.create_window)(id);
        let window: u16 = match w {
            Ok(v) => v,
            Err(()) => 0,
        };
        if window == 0 {
            self.apps[index] = Some(RuntimeApp { state: AppState::Failed, ..record });
            proof {
                assert(self.slots() =~= old(self).slots().update(index as int, Some(RuntimeApp { state: AppState::Failed, ..record })));
                assert(call_ensures(old(self).spawner(), (id, record.manifest.memory_limit_pages, record.manifest.capability_mask), p));
                assert(call_ensures(old(self).windower(), (id,), w));
                assert(pid_ok(p) && p->Ok_0 == pid);
                assert(!window_ok(w));
            }
            return Err(RuntimeError::SpawnFailed);
        }
        self.apps[index] = Some(RuntimeApp { process_id: pid, window_id: window, state: AppState::Running, ..record });
        proof {
            assert(self.slots() =~= old(self).slots().update(index as int, Some(RuntimeApp {
                process_id: pid, window_id: window, state: AppState::Running, ..record })));
            assert(call_ensures(old(self).spawner(), (id, record.manifest.memory_limit_pages, record.manifest.capability_mask), p));
            assert(call_ensures(old(self).windower(), (id,), w));
            assert(pid_ok(p) && p->Ok_0 == pid);
            assert(window_ok(w) && w->Ok_0 == window);
        }
        Ok(pid)
    }

    /// Stops a running app and forgets its process id.
    pub fn stop(&mut self, id: AppId) -> (r: Result<(), RuntimeError>)
        requires
            old(self).wf(),
        ensures
            final(self).wf(),
            final(self).spec_len() == old(self).spec_len(),
            final(self).spawner() == old(self).spawner() && final(self).windower() == old(self).windower(),
            ({
                let i = find_from(old(self).slots(), id, 0);
                if i >= old(self).slots().len() {
                    r == Err::<(), RuntimeError>(RuntimeError::NotFound) && final(self).slots() == old(self).slots()
                } else if old(self).slots()[i]->Some_0.state != AppState::Running {
                    r == Err::<(), RuntimeError>(RuntimeError::InvalidTransition) && final(self).slots() == old(self).slots()
                } else {
                    r == Ok::<(), RuntimeError>(()) && final(self).slots() == old(self).slots().update(i, Some(RuntimeApp {
                        state: AppState::Stopped,
                        process_id: 0,
                        ..old(self).slots()[i]->Some_0
                    }))
                }
            }),
    {
        let index = match self.find(id) {
            None => {
                return Err(RuntimeError::NotFound);
            },
            Some(i) => i,
        };
        let record = self.apps[index].unwrap();
        if record.state != AppState::Running {
            return Err(RuntimeError::InvalidTransition);
        }
        self.apps[index] = Some(RuntimeApp { state: AppState::Stopped, process_id: 0, ..record });
        Ok(())
    }

    /// Records a failure of a running app; after more than `MAX_FAILURES`
    /// failures it is quarantined.
    pub fn report_failure(&mut self, id: AppId) -> (r: Result<AppState, RuntimeError>)
        requires
            old(self).wf(),
        ensures
            final(self).wf(),
            final(self).spec_len() == old(self).spec_len(),
            final(self).spawner() == old(self).spawner() && final(self).windower() == old(self).windower(),
            ({
                let i = find_from(old(self).slots(), id, 0);
                if i >= old(self).slots().len() {
                    r == Err::<AppState, RuntimeError>(RuntimeError::NotFound) && final(self).slots() == old(self).slots()
                } else {
                    let a = old(self).slots()[i]->Some_0;
                    if a.state != AppState::Running {
                        r == Err::<AppState, RuntimeError>(RuntimeError::InvalidTransition) && final(self).slots() == old(self).slots()
                    } else {
                        r == Ok::<AppState, RuntimeError>(after_failure(a.failures)) && final(self).slots() == old(self).slots().update(i,
                            Some(RuntimeApp { failures: a.failures.saturating_add(1), state: after_failure(a.failures), ..a }))
                    }
                }
            }),
    {
        let index = match self.find(id) {
            None => {
                return Err(RuntimeError::NotFound);
            },
            Some(i) => i,
        };
        let record = self.apps[index].unwrap();
        if record.state != AppState::Running {
            return Err(RuntimeError::InvalidTransition);
        }
        let failures = record.failures.saturating_add(1);
        let state = if failures > MAX_FAILURES { AppState::Quarantined } else { AppState::Failed };
        self.apps[index] = Some(RuntimeApp { failures, state, ..record });
        Ok(state)
    }

    pub fn state(&self, id: AppId) -> (r: Option<AppState>)
        ensures
            r == (if find_from(self.slots(), id, 0) < self.slots().len() {
                Some(self.slots()[find_from(self.slots(), id, 0)]->Some_0.state)
            } else {
                None
            }),
    {
        match self.find(id) {
            Some(i) => Some(self.apps[i].unwrap().state),
            None => None,
        }
    }

    pub fn record(&self, id: AppId) -> (r: Option<RuntimeApp>)
        ensures
            r == (if find_from(self.slots(), id, 0) < self.slots().len() {
                self.slots()[find_from(self.slots(), id, 0)]
            } else {
                None
            }),
    {
        match self.find(id) {
            Some(i) => self.apps[i],
            None => None,
        }
    }
}

/// Failures escalate: a running app that fails is quarantined exactly when
/// it had already failed `MAX_FAILURES` times or more.
pub proof fn lemma_failure_escalation(failures: u8)
    ensures
        after_failure(failures) == AppState::Quarantined <==> failures >= MAX_FAILURES,
{
}

} // verus!

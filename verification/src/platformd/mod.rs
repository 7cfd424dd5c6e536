//! Platform service: boot-info validation, device and service tables, A/B
//! slot recovery, a ring logger, a small window table, path checks and a
//! stable checksum.

use vstd::prelude::*;
use crate::bytes::{fnv32, fnv32_range};
use crate::table::{all_full, find_free, is_first_free};

verus! {

pub const ABI_MAJOR: u16 = 1;
pub const MAX_DEVICES: usize = 32;
pub const MAX_SERVICES: usize = 32;
pub const MAX_LOGS: usize = 128;
pub const MAX_WINDOWS: usize = 16;
pub const MAX_PATH: usize = 256;

#[derive(Clone, Copy, Debug, PartialEq, Eq, Structural)]
pub enum Error {
    Capacity,
    Invalid,
    Conflict,
    Permission,
    State,
    Bounds,
    NotFound,
}

#[derive(Clone, Copy, Debug, PartialEq, Eq, Structural)]
pub struct BootInfo {
    pub abi_major: u16,
    pub abi_minor: u16,
    pub memory_bytes: u64,
    pub cpu_count: u16,
}

impl BootInfo {
    /// Boot information is accepted only for ABI major 1, at least 1 MiB of
    /// memory and at least one CPU.
    pub fn validate(self) -> (r: Result<(), Error>)
        ensures
            r == (if self.abi_major != ABI_MAJOR || self.memory_bytes < 1024 * 1024 || self.cpu_count == 0 {
                Err(Error::Invalid)
            } else {
                Ok(())
            }),
    {
        if self.abi_major != ABI_MAJOR || self.memory_bytes < 1024 * 1024 || self.cpu_count == 0 {
            Err(Error::Invalid)
        } else {
            Ok(())
        }
    }
}

#[derive(Clone, Copy, Debug, PartialEq, Eq, Structural)]
pub enum DeviceState {
    Discovered,
    Probed,
    Bound,
    Running,
    Suspended,
    Stopped,
    Removed,
    Quarantined,
}

#[derive(Clone, Copy, Debug, PartialEq, Eq, Structural)]
pub struct Device {
    pub id: u16,
    pub class: u16,
    pub state: DeviceState,
    pub owner: u16,
}

/// The device lifecycle: probe, bind, run, suspend and resume, stop,
/// remove; quarantine is reachable from every state.
pub open spec fn device_edge(cur: DeviceState, next: DeviceState) -> bool {
    ||| cur == DeviceState::Discovered && next == DeviceState::Probed
    ||| cur == DeviceState::Probed && next == DeviceState::Bound
    ||| cur == DeviceState::Bound && next == DeviceState::Running
    ||| cur == DeviceState::Running && next == DeviceState::Suspended
    ||| cur == DeviceState::Suspended && next == DeviceState::Running
    ||| cur == DeviceState::Running && next == DeviceState::Stopped
    ||| cur == DeviceState::Stopped && next == DeviceState::Removed
    ||| next == DeviceState::Quarantined
}

pub open spec fn dev_is(o: Option<Device>, id: u16) -> bool {
    o matches Some(d) && d.id == id
}

pub open spec fn first_dev(s: Seq<Option<Device>>, id: u16, i: int) -> bool {
    &&& 0 <= i < s.len()
    &&& dev_is(s[i], id)
    &&& forall|j: int| 0 <= j < i ==> !dev_is(#[trigger] s[j], id)
}

pub open spec fn has_dev(s: Seq<Option<Device>>, id: u16) -> bool {
    exists|i: int| 0 <= i < s.len() && dev_is(#[trigger] s[i], id)
}

pub struct DeviceManager {
    items: [Option<Device>; MAX_DEVICES],
}

impl DeviceManager {
    pub closed spec fn slots(&self) -> Seq<Option<Device>> {
        self.items@
    }

    pub fn new() -> (m: Self)
        ensures
            m.slots() == Seq::new(MAX_DEVICES as nat, |i: int| None::<Device>),
    {
        let mut items: [Option<Device>; MAX_DEVICES] = [None; MAX_DEVICES];
        let mut k: usize = 0;
        while k < MAX_DEVICES
            invariant
                k <= MAX_DEVICES,
                forall|i: int| 0 <= i < k ==> (#[trigger] items@[i]) is None,
            decreases MAX_DEVICES - k,
        {
            items[k] = None;
            k += 1;
        }
        let m = DeviceManager { items };
        assert(m.slots() =~= Seq::new(MAX_DEVICES as nat, |i: int| None::<Device>));
        m
    }

    fn find(&self, id: u16) -> (r: Option<usize>)
        ensures
            match r {
                Some(i) => first_dev(self.slots(), id, i as int),
                None => !has_dev(self.slots(), id),
            },
    {
        let mut i: usize = 0;
        while i < MAX_DEVICES
            invariant
                i <= MAX_DEVICES,
                self.items@.len() == MAX_DEVICES,
                forall|j: int| 0 <= j < i ==> !dev_is(#[trigger] self.items@[j], id),
            decreases MAX_DEVICES - i,
        {
            if let Some(d) = self.items[i] {
                if d.id == id {
                    return Some(i);
                }
            }
            i += 1;
        }
        None
    }

    /// Records a newly discovered device in the lowest free slot; ids are unique.
    pub fn discover(&mut self, id: u16, class: u16) -> (r: Result<(), Error>)
        ensures
            has_dev(old(self).slots(), id) ==> r == Err::<(), Error>(Error::Conflict),
            !has_dev(old(self).slots(), id) && all_full(old(self).slots()) ==> r == Err::<(), Error>(Error::Capacity),
            !has_dev(old(self).slots(), id) && !all_full(old(self).slots()) ==> r is Ok,
            r is Err ==> final(self).slots() == old(self).slots(),
            r is Ok ==> exists|i: int| is_first_free(old(self).slots(), i)
                && final(self).slots() == old(self).slots().update(i, Some(Device { id, class, state: DeviceState::Discovered, owner: 0 })),
    {
        if self.find(id).is_some() {
            return Err(Error::Conflict);
        }
        match find_free(&self.items) {
            Some(slot) => {
                self.items[slot] = Some(Device { id, class, state: DeviceState::Discovered, owner: 0 });
                Ok(())
            },
            None => Err(Error::Capacity),
        }
    }

    /// Moves device `id` along its lifecycle and records its new owner.
    pub fn transition(&mut self, id: u16, next: DeviceState, owner: u16) -> (r: Result<(), Error>)
        ensures
            !has_dev(old(self).slots(), id) ==> r == Err::<(), Error>(Error::NotFound) && final(self).slots() == old(self).slots(),
            forall|i: int| #[trigger] first_dev(old(self).slots(), id, i) ==> {
                let d = old(self).slots()[i]->Some_0;
                if device_edge(d.state, next) {
                    r == Ok::<(), Error>(()) && final(self).slots() == old(self).slots().update(i, Some(Device { owner, state: next, ..d }))
                } else {
                    r == Err::<(), Error>(Error::State) && final(self).slots() == old(self).slots()
                }
            },
    {
        match self.find(id) {
            None => Err(Error::NotFound),
            Some(i) => {
                let d = self.items[i].unwrap();
                let valid = match (d.state, next) {
                    (DeviceState::Discovered, DeviceState::Probed) => true,
                    (DeviceState::Probed, DeviceState::Bound) => true,
                    (DeviceState::Bound, DeviceState::Running) => true,
                    (DeviceState::Running, DeviceState::Suspended) => true,
                    (DeviceState::Suspended, DeviceState::Running) => true,
                    (DeviceState::Running, DeviceState::Stopped) => true,
                    (DeviceState::Stopped, DeviceState::Removed) => true,
                    (_, DeviceState::Quarantined) => true,
                    _ => false,
                };
                proof {
                    assert forall|k: int| #[trigger] first_dev(old(self).slots(), id, k) implies k == i by {
                        if k < i { assert(!dev_is(self.items@[k], id)); }
                        if k > i { assert(!dev_is(self.items@[i as int], id)); }
                    }
                }
                if !valid {
                    return Err(Error::State);
                }
                self.items[i] = Some(Device { owner, state: next, ..d });
                Ok(())
            },
        }
    }
}

#[derive(Clone, Copy, Debug, PartialEq, Eq, Structural)]
pub enum ServiceState {
    Registered,
    Starting,
    Running,
    Failed,
    Quarantined,
    Stopped,
}

#[derive(Clone, Copy, Debug, PartialEq, Eq, Structural)]
pub struct Service {
    pub id: u16,
    pub state: ServiceState,
    pub caps: u64,
    pub memory_pages: u32,
}

pub open spec fn svc_is(o: Option<Service>, id: u16) -> bool {
    o matches Some(s) && s.id == id
}

pub open spec fn first_svc(s: Seq<Option<Service>>, id: u16, i: int) -> bool {
    &&& 0 <= i < s.len()
    &&& svc_is(s[i], id)
    &&& forall|j: int| 0 <= j < i ==> !svc_is(#[trigger] s[j], id)
}

pub open spec fn has_svc(s: Seq<Option<Service>>, id: u16) -> bool {
    exists|i: int| 0 <= i < s.len() && svc_is(#[trigger] s[i], id)
}

/// The effect of moving service `id` from state `from` to `to`.
pub open spec fn svc_step(old: Seq<Option<Service>>, new: Seq<Option<Service>>, id: u16, from: ServiceState, to: ServiceState, r: Result<(), Error>) -> bool {
    &&& !has_svc(old, id) ==> r == Err::<(), Error>(Error::NotFound) && new == old
    &&& forall|i: int| #[trigger] first_svc(old, id, i) ==> {
        let s = old[i]->Some_0;
        if s.state == from {
            r == Ok::<(), Error>(()) && new == old.update(i, Some(Service { state: to, ..s }))
        } else {
            r == Err::<(), Error>(Error::State) && new == old
        }
    }
}

pub struct ServiceManager {
    items: [Option<Service>; MAX_SERVICES],
}

impl ServiceManager {
    pub closed spec fn slots(&self) -> Seq<Option<Service>> {
        self.items@
    }

    pub fn new() -> (m: Self)
        ensures
            m.slots() == Seq::new(MAX_SERVICES as nat, |i: int| None::<Service>),
    {
        let mut items: [Option<Service>; MAX_SERVICES] = [None; MAX_SERVICES];
        let mut k: usize = 0;
        while k < MAX_SERVICES
            invariant
                k <= MAX_SERVICES,
                forall|i: int| 0 <= i < k ==> (#[trigger] items@[i]) is None,
            decreases MAX_SERVICES - k,
        {
            items[k] = None;
            k += 1;
        }
        let m = ServiceManager { items };
        assert(m.slots() =~= Seq::new(MAX_SERVICES as nat, |i: int| None::<Service>));
        m
    }

    fn find(&self, id: u16) -> (r: Option<usize>)
        ensures
            match r {
                Some(i) => first_svc(self.slots(), id, i as int),
                None => !has_svc(self.slots(), id),
            },
    {
        let mut i: usize = 0;
        while i < MAX_SERVICES
            invariant
                i <= MAX_SERVICES,
                self.items@.len() == MAX_SERVICES,
                forall|j: int| 0 <= j < i ==> !svc_is(#[trigger] self.items@[j], id),
            decreases MAX_SERVICES - i,
        {
            if let Some(s) = self.items[i] {
                if s.id == id {
                    return Some(i);
                }
            }
            i += 1;
        }
        None
    }

    /// Registers a service with a non-zero memory budget and a fresh id.
    pub fn register(&mut self, id: u16, caps: u64, memory_pages: u32) -> (r: Result<(), Error>)
        ensures
            memory_pages == 0 || has_svc(old(self).slots(), id) ==> r == Err::<(), Error>(Error::Invalid),
            memory_pages != 0 && !has_svc(old(self).slots(), id) && all_full(old(self).slots()) ==> r == Err::<(), Error>(Error::Capacity),
            memory_pages != 0 && !has_svc(old(self).slots(), id) && !all_full(old(self).slots()) ==> r is Ok,
            r is Err ==> final(self).slots() == old(self).slots(),
            r is Ok ==> exists|i: int| is_first_free(old(self).slots(), i)
                && final(self).slots() == old(self).slots().update(i, Some(Service { id, state: ServiceState::Registered, caps, memory_pages })),
    {
        if memory_pages == 0 || self.find(id).is_some() {
            return Err(Error::Invalid);
        }
        match find_free(&self.items) {
            Some(slot) => {
                self.items[slot] = Some(Service { id, state: ServiceState::Registered, caps, memory_pages });
                Ok(())
            },
            None => Err(Error::Capacity),
        }
    }

    fn step(&mut self, id: u16, from: ServiceState, to: ServiceState) -> (r: Result<(), Error>)
        ensures
            svc_step(old(self).slots(), final(self).slots(), id, from, to, r),
    {
        match self.find(id) {
            None => Err(Error::NotFound),
            Some(i) => {
                let s = self.items[i].unwrap();
                proof {
                    assert forall|k: int| #[trigger] first_svc(old(self).slots(), id, k) implies k == i by {
                        if k < i { assert(!svc_is(self.items@[k], id)); }
                        if k > i { assert(!svc_is(self.items@[i as int], id)); }
                    }
                }
                if s.state != from {
                    return Err(Error::State);
                }
                self.items[i] = Some(Service { state: to, ..s });
                Ok(())
            },
        }
    }

    /// A registered service starts and ends up running.
    pub fn start(&mut self, id: u16) -> (r: Result<(), Error>)
        ensures
            svc_step(old(self).slots(), final(self).slots(), id, ServiceState::Registered, ServiceState::Running, r),
    {
        self.step(id, ServiceState::Registered, ServiceState::Running)
    }

    /// A running service that fails is quarantined.
    pub fn fail_and_quarantine(&mut self, id: u16) -> (r: Result<(), Error>)
        ensures
            svc_step(old(self).slots(), final(self).slots(), id, ServiceState::Running, ServiceState::Quarantined, r),
    {
        self.step(id, ServiceState::Running, ServiceState::Quarantined)
    }
}

#[derive(Clone, Copy, Debug, PartialEq, Eq, Structural)]
pub enum Slot {
    A,
    B,
}

#[derive(Clone, Copy, Debug, PartialEq, Eq, Structural)]
pub enum SlotState {
    Active,
    Staged,
    Booting,
    Healthy,
    Failed,
    Quarantined,
}

/// A/B slot recovery: an image is staged into the inactive slot with a newer
/// generation, booted, and either committed as healthy or rolled back.
pub struct Recovery {
    active: Slot,
    generation: u64,
    staged: Option<(Slot, u64)>,
    state: SlotState,
}

impl Recovery {
    pub closed spec fn active_slot(&self) -> Slot {
        self.active
    }

    pub closed spec fn current_generation(&self) -> u64 {
        self.generation
    }

    pub closed spec fn staged_image(&self) -> Option<(Slot, u64)> {
        self.staged
    }

    pub closed spec fn slot_state(&self) -> SlotState {
        self.state
    }

    /// A staged image is for the inactive slot and newer than the active one.
    pub closed spec fn wf(&self) -> bool {
        self.staged matches Some((s, g)) ==> s != self.active && g > self.generation
    }

    pub fn new(generation: u64) -> (r: Self)
        ensures
            r.wf(),
            r.active_slot() == Slot::A,
            r.current_generation() == generation,
            r.staged_image() is None,
            r.slot_state() == SlotState::Active,
    {
        Recovery { active: Slot::A, generation, staged: None, state: SlotState::Active }
    }

    pub fn stage(&mut self, slot: Slot, generation: u64) -> (r: Result<(), Error>)
        requires
            old(self).wf(),
        ensures
            final(self).wf(),
            final(self).active_slot() == old(self).active_slot(),
            final(self).current_generation() == old(self).current_generation(),
            generation <= old(self).current_generation() || slot == old(self).active_slot() ==> r == Err::<(), Error>(Error::Conflict)
                && final(self).staged_image() == old(self).staged_image() && final(self).slot_state() == old(self).slot_state(),
            generation > old(self).current_generation() && slot != old(self).active_slot() ==> r == Ok::<(), Error>(())
                && final(self).staged_image() == Some((slot, generation)) && final(self).slot_state() == SlotState::Staged,
    {
        if generation <= self.generation || slot == self.active {
            return Err(Error::Conflict);
        }
        self.staged = Some((slot, generation));
        self.state = SlotState::Staged;
        Ok(())
    }

    /// Boots the staged slot.
    pub fn boot(&mut self) -> (r: Result<Slot, Error>)
        requires
            old(self).wf(),
        ensures
            final(self).wf(),
            final(self).active_slot() == old(self).active_slot(),
            final(self).current_generation() == old(self).current_generation(),
            final(self).staged_image() == old(self).staged_image(),
            match old(self).staged_image() {
                Some((s, _)) => r == Ok::<Slot, Error>(s) && final(self).slot_state() == SlotState::Booting,
                None => r == Err::<Slot, Error>(Error::State) && final(self).slot_state() == old(self).slot_state(),
            },
    {
        match self.staged {
            Some((slot, _)) => {
                self.state = SlotState::Booting;
                Ok(slot)
            },
            None => Err(Error::State),
        }
    }

    /// Commits a booting image: its slot becomes active with its generation.
    /// The staged image is consumed even when the slot was not booting.
    pub fn healthy(&mut self) -> (r: Result<(), Error>)
        requires
            old(self).wf(),
        ensures
            final(self).wf(),
            final(self).staged_image() is None,
            old(self).staged_image() is None ==> r == Err::<(), Error>(Error::State) && *final(self) == *old(self),
            old(self).staged_image() is Some && old(self).slot_state() != SlotState::Booting ==> r == Err::<(), Error>(Error::State)
                && final(self).active_slot() == old(self).active_slot()
                && final(self).current_generation() == old(self).current_generation()
                && final(self).slot_state() == old(self).slot_state(),
            old(self).staged_image() is Some && old(self).slot_state() == SlotState::Booting ==> r == Ok::<(), Error>(())
                && final(self).active_slot() == old(self).staged_image()->Some_0.0
                && final(self).current_generation() == old(self).staged_image()->Some_0.1
                && final(self).slot_state() == SlotState::Healthy,
    {
        let taken = self.staged;
        self.staged = None;
        match taken {
            None => Err(Error::State),
            Some((slot, generation)) => {
                if self.state != SlotState::Booting {
                    return Err(Error::State);
                }
                self.active = slot;
                self.generation = generation;
                self.state = SlotState::Healthy;
                Ok(())
            },
        }
    }

    /// Abandons a booting image and keeps the active slot.
    pub fn fail_and_rollback(&mut self) -> (r: Result<Slot, Error>)
        requires
            old(self).wf(),
        ensures
            final(self).wf(),
            final(self).active_slot() == old(self).active_slot(),
            final(self).current_generation() == old(self).current_generation(),
            old(self).slot_state() != SlotState::Booting ==> r == Err::<Slot, Error>(Error::State) && *final(self) == *old(self),
            old(self).slot_state() == SlotState::Booting ==> r == Ok::<Slot, Error>(old(self).active_slot())
                && final(self).staged_image() is None && final(self).slot_state() == SlotState::Failed,
    {
        if self.state != SlotState::Booting {
            return Err(Error::State);
        }
        self.staged = None;
        self.state = SlotState::Failed;
        Ok(self.active)
    }
}

/// Committing a staged image never lowers the generation: the staged
/// generation is newer than the active one.
pub proof fn lemma_commit_advances_generation(r: Recovery)
    requires
        r.wf(),
        r.staged_image() is Some,
    ensures
        r.staged_image()->Some_0.1 > r.current_generation(),
        r.staged_image()->Some_0.0 != r.active_slot(),
{
}

#[derive(Clone, Copy, Debug, PartialEq, Eq, Structural)]
pub struct LogRecord {
    pub seq: u64,
    pub code: u16,
    pub arg: u64,
}

/// A ring of the last 128 records; record `n` goes to slot `n % 128`.
pub struct Logger {
    records: [Option<LogRecord>; MAX_LOGS],
    next: u64,
}

impl Logger {
    pub closed spec fn slots(&self) -> Seq<Option<LogRecord>> {
        self.records@
    }

    /// Sequence number of the next record.
    pub closed spec fn next_seq(&self) -> u64 {
        self.next
    }

    pub fn new() -> (l: Self)
        ensures
            l.slots() == Seq::new(MAX_LOGS as nat, |i: int| None::<LogRecord>),
            l.next_seq() == 0,
    {
        let mut records: [Option<LogRecord>; MAX_LOGS] = [None; MAX_LOGS];
        let mut k: usize = 0;
        while k < MAX_LOGS
            invariant
                k <= MAX_LOGS,
                forall|i: int| 0 <= i < k ==> (#[trigger] records@[i]) is None,
            decreases MAX_LOGS - k,
        {
            records[k] = None;
            k += 1;
        }
        let l = Logger { records, next: 0 };
        assert(l.slots() =~= Seq::new(MAX_LOGS as nat, |i: int| None::<LogRecord>));
        l
    }

    pub fn push(&mut self, code: u16, arg: u64)
        ensures
            final(self).slots() == old(self).slots().update((old(self).next_seq() as int) % (MAX_LOGS as int),
                Some(LogRecord { seq: old(self).next_seq(), code, arg })),
            final(self).next_seq() == old(self).next_seq().saturating_add(1),
    {
        let i = (self.next % (MAX_LOGS as u64)) as usize;
        self.records[i] = Some(LogRecord { seq: self.next, code, arg });
        self.next = self.next.saturating_add(1);
    }

    /// Number of records held: all pushed so far, up to 128.
    pub fn len(&self) -> (n: usize)
        ensures
            n == (if self.next_seq() < MAX_LOGS { self.next_seq() as int } else { MAX_LOGS as int }),
    {
        if self.next < MAX_LOGS as u64 {
            self.next as usize
        } else {
            MAX_LOGS
        }
    }
}

#[derive(Clone, Copy, Debug, PartialEq, Eq, Structural)]
pub struct Window {
    pub id: u16,
    pub x: i16,
    pub y: i16,
    pub w: u16,
    pub h: u16,
}

pub open spec fn win_is(o: Option<Window>, id: u16) -> bool {
    o matches Some(w) && w.id == id
}

pub open spec fn has_win(s: Seq<Option<Window>>, id: u16) -> bool {
    exists|i: int| 0 <= i < s.len() && win_is(#[trigger] s[i], id)
}

pub struct Compositor {
    windows: [Option<Window>; MAX_WINDOWS],
    count: usize,
}

impl Compositor {
    pub closed spec fn slots(&self) -> Seq<Option<Window>> {
        self.windows@
    }

    pub closed spec fn spec_count(&self) -> usize {
        self.count
    }

    pub closed spec fn wf(&self) -> bool {
        self.count <= MAX_WINDOWS
    }

    pub fn new() -> (c: Self)
        ensures
            c.wf(),
            c.slots() == Seq::new(MAX_WINDOWS as nat, |i: int| None::<Window>),
            c.spec_count() == 0,
    {
        let mut windows: [Option<Window>; MAX_WINDOWS] = [None; MAX_WINDOWS];
        let mut k: usize = 0;
        while k < MAX_WINDOWS
            invariant
                k <= MAX_WINDOWS,
                forall|i: int| 0 <= i < k ==> (#[trigger] windows@[i]) is None,
            decreases MAX_WINDOWS - k,
        {
            windows[k] = None;
            k += 1;
        }
        let c = Compositor { windows, count: 0 };
        assert(c.slots() =~= Seq::new(MAX_WINDOWS as nat, |i: int| None::<Window>));
        c
    }

    /// Adds a non-empty window with a fresh id while fewer than 16 exist.
    pub fn create(&mut self, window: Window) -> (r: Result<(), Error>)
        requires
            old(self).wf(),
        ensures
            final(self).wf(),
            window.w == 0 || window.h == 0 || old(self).spec_count() == MAX_WINDOWS || has_win(old(self).slots(), window.id)
                ==> r == Err::<(), Error>(Error::Invalid),
            r is Err ==> final(self).slots() == old(self).slots() && final(self).spec_count() == old(self).spec_count(),
            r is Ok ==> final(self).spec_count() == old(self).spec_count() + 1
                && exists|i: int| is_first_free(old(self).slots(), i) && final(self).slots() == old(self).slots().update(i, Some(window)),
            !(window.w == 0 || window.h == 0 || old(self).spec_count() == MAX_WINDOWS || has_win(old(self).slots(), window.id))
                ==> (r is Ok <==> !all_full(old(self).slots())),
    {
        if window.w == 0 || window.h == 0 || self.count == MAX_WINDOWS {
            return Err(Error::Invalid);
        }
        let mut k: usize = 0;
        while k < MAX_WINDOWS
            invariant
                k <= MAX_WINDOWS,
                self.windows@.len() == MAX_WINDOWS,
                *self == *old(self),
                self.wf(),
                self.count < MAX_WINDOWS,
                forall|j: int| 0 <= j < k ==> !win_is(#[trigger] self.windows@[j], window.id),
            decreases MAX_WINDOWS - k,
        {
            if let Some(w) = self.windows[k] {
                if w.id == window.id {
                    return Err(Error::Invalid);
                }
            }
            k += 1;
        }
        match find_free(&self.windows) {
            Some(i) => {
                assert(is_first_free(old(self).slots(), i as int));
                self.windows[i] = Some(window);
                self.count = self.count + 1;
                Ok(())
            },
            None => Err(Error::Capacity),
        }
    }

    pub fn count(&self) -> (n: usize)
        ensures
            n == self.spec_count(),
    {
        self.count
    }
}

/// A path is accepted when it is non-empty, at most 256 bytes, absolute and
/// contains no `..`.
pub open spec fn path_ok(p: Seq<u8>) -> bool {
    &&& 0 < p.len() <= MAX_PATH
    &&& p[0] == 47
    &&& forall|i: int| 0 <= i < p.len() - 1 ==> !(#[trigger] p[i] == 46 && p[i + 1] == 46)
}

pub fn validate_path(path: &[u8]) -> (r: Result<(), Error>)
    ensures
        r == (if path_ok(path@) { Ok(()) } else { Err(Error::Bounds) }),
{
    if path.len() == 0 || path.len() > MAX_PATH || path[0] != 47u8 {
        return Err(Error::Bounds);
    }
    let mut i: usize = 0;
    while i + 1 < path.len()
        invariant
            0 < path@.len() <= MAX_PATH,
            i + 1 <= path@.len(),
            forall|j: int| 0 <= j < i ==> !(#[trigger] path@[j] == 46 && path@[j + 1] == 46),
        decreases path@.len() - i,
    {
        if path[i] == 46u8 && path[i + 1] == 46u8 {
            return Err(Error::Bounds);
        }
        i += 1;
    }
    Ok(())
}

/// 32-bit FNV-1a checksum of `data`.
pub fn checksum32(data: &[u8]) -> (h: u32)
    ensures
        h == fnv32(data@),
{
    let h = fnv32_range(data, 0, data.len());
    assert(data@.subrange(0, data@.len() as int) =~= data@);
    h
}

} // verus!

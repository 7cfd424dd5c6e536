//! Update and recovery: atomic A/B updates. A manifest is validated and
//! staged into a slot, booted, and either promoted as healthy or failed and
//! rolled back.

pub mod transaction;

use vstd::prelude::*;

verus! {

pub const UPDATE_ABI_MAJOR: u16 = 1;
pub const UPDATE_ABI_MINOR: u16 = 1;
pub const MAX_VERSION_LEN: usize = 32;
pub const MAX_REASON_LEN: usize = 96;
/// Largest accepted payload: 4 GiB.
pub const MAX_PAYLOAD: u64 = 4294967296;

#[derive(Clone, Copy, Debug, PartialEq, Eq, Structural)]
pub enum Slot {
    A,
    B,
}

pub open spec fn spec_other(s: Slot) -> Slot {
    match s {
        Slot::A => Slot::B,
        Slot::B => Slot::A,
    }
}

impl Slot {
    pub fn other(self) -> (r: Slot)
        ensures
            r == spec_other(self),
    {
        match self {
            Slot::A => Slot::B,
            Slot::B => Slot::A,
        }
    }
}

#[derive(Clone, Copy, Debug, PartialEq, Eq, Structural)]
pub enum SlotState {
    Empty,
    Staged,
    Booting,
    Healthy,
    Failed,
    Quarantined,
}

#[derive(Clone, Copy, Debug, PartialEq, Eq)]
pub struct Version {
    pub bytes: [u8; MAX_VERSION_LEN],
    pub len: u8,
}

impl Version {
    /// A version string of 1 to 32 bytes, zero-padded.
    pub fn new(bytes: &[u8]) -> (r: Option<Version>)
        ensures
            bytes@.len() == 0 || bytes@.len() > MAX_VERSION_LEN ==> r is None,
            0 < bytes@.len() <= MAX_VERSION_LEN ==> r is Some && r->Some_0.len == bytes@.len()
                && r->Some_0.bytes@ == bytes@ + Seq::new((MAX_VERSION_LEN - bytes@.len()) as nat, |i: int| 0u8),
    {
        if bytes.len() == 0 || bytes.len() > MAX_VERSION_LEN {
            return None;
        }
        let mut out = [0u8; MAX_VERSION_LEN];
        let mut i: usize = 0;
        while i < bytes.len()
            invariant
                i <= bytes@.len() <= MAX_VERSION_LEN,
                out@.len() == MAX_VERSION_LEN,
                forall|j: int| 0 <= j < i ==> out@[j] == bytes@[j],
                forall|j: int| i <= j < MAX_VERSION_LEN ==> out@[j] == 0u8,
            decreases bytes@.len() - i,
        {
            out[i] = bytes[i];
            i += 1;
        }
        assert(out@ =~= bytes@ + Seq::new((MAX_VERSION_LEN - bytes@.len()) as nat, |i: int| 0u8));
        Some(Version { bytes: out, len: bytes.len() as u8 })
    }
}

#[derive(Clone, Copy, Debug, PartialEq, Eq)]
pub struct UpdateManifest {
    pub version: Version,
    pub generation: u64,
    pub payload_len: u64,
    pub payload_digest: [u8; 32],
    pub min_generation: u64,
}

#[derive(Clone, Copy, Debug, PartialEq, Eq, Structural)]
pub enum UpdateError {
    InvalidManifest,
    Downgrade,
    PayloadTooLarge,
    InvalidTransition,
    Quarantined,
    NotStaged,
}

/// The verdict on a manifest: a version and a payload are required, the
/// payload is at most 4 GiB, and the generation neither goes backwards nor
/// falls below the manifest's own minimum.
pub open spec fn manifest_verdict(m: UpdateManifest, current_generation: u64) -> Result<(), UpdateError> {
    if m.version.len == 0 || m.version.len > MAX_VERSION_LEN || m.payload_len == 0 {
        Err(UpdateError::InvalidManifest)
    } else if m.payload_len > MAX_PAYLOAD {
        Err(UpdateError::PayloadTooLarge)
    } else if m.generation < current_generation || m.min_generation > m.generation {
        Err(UpdateError::Downgrade)
    } else {
        Ok(())
    }
}

pub fn validate_manifest(m: UpdateManifest, current_generation: u64) -> (r: Result<(), UpdateError>)
    ensures
        r == manifest_verdict(m, current_generation),
{
    if m.version.len == 0 || m.version.len as usize > MAX_VERSION_LEN || m.payload_len == 0 {
        return Err(UpdateError::InvalidManifest);
    }
    if m.payload_len > MAX_PAYLOAD {
        return Err(UpdateError::PayloadTooLarge);
    }
    if m.generation < current_generation || m.min_generation > m.generation {
        return Err(UpdateError::Downgrade);
    }
    Ok(())
}

/// The slot lifecycle.
pub open spec fn slot_edge(from: SlotState, to: SlotState) -> bool {
    ||| from == SlotState::Empty && to == SlotState::Staged
    ||| from == SlotState::Staged && to == SlotState::Booting
    ||| from == SlotState::Booting && to == SlotState::Healthy
    ||| from == SlotState::Booting && to == SlotState::Failed
    ||| from == SlotState::Failed && to == SlotState::Staged
    ||| from == SlotState::Healthy && to == SlotState::Staged
    ||| from == SlotState::Failed && to == SlotState::Quarantined
}

fn transition(from: SlotState, to: SlotState) -> (r: bool)
    ensures
        r == slot_edge(from, to),
{
    match (from, to) {
        (SlotState::Empty, SlotState::Staged) => true,
        (SlotState::Staged, SlotState::Booting) => true,
        (SlotState::Booting, SlotState::Healthy) => true,
        (SlotState::Booting, SlotState::Failed) => true,
        (SlotState::Failed, SlotState::Staged) => true,
        (SlotState::Healthy, SlotState::Staged) => true,
        (SlotState::Failed, SlotState::Quarantined) => true,
        _ => false,
    }
}

pub open spec fn slot_index(slot: Slot) -> int {
    match slot {
        Slot::A => 0,
        Slot::B => 1,
    }
}

#[derive(Clone, Copy, Debug, PartialEq, Eq)]
pub struct UpdateManager {
    active: Slot,
    generation: u64,
    states: [SlotState; 2],
    manifests: [Option<UpdateManifest>; 2],
}

impl UpdateManager {
    pub closed spec fn spec_active(&self) -> Slot {
        self.active
    }

    pub closed spec fn spec_generation(&self) -> u64 {
        self.generation
    }

    pub closed spec fn spec_state(&self, slot: Slot) -> SlotState {
        self.states@[slot_index(slot)]
    }

    pub closed spec fn spec_manifest(&self, slot: Slot) -> Option<UpdateManifest> {
        self.manifests@[slot_index(slot)]
    }

    pub fn new(generation: u64) -> (m: Self)
        ensures
            m.spec_active() == Slot::A,
            m.spec_generation() == generation,
            m.spec_state(Slot::A) == SlotState::Healthy,
            m.spec_state(Slot::B) == SlotState::Empty,
            m.spec_manifest(Slot::A) is None && m.spec_manifest(Slot::B) is None,
    {
        UpdateManager { active: Slot::A, generation, states: [SlotState::Healthy, SlotState::Empty], manifests: [None, None] }
    }

    fn index(slot: Slot) -> (i: usize)
        ensures
            i == slot_index(slot),
    {
        match slot {
            Slot::A => 0,
            Slot::B => 1,
        }
    }

    pub fn active(&self) -> (s: Slot)
        ensures
            s == self.spec_active(),
    {
        self.active
    }

    pub fn generation(&self) -> (g: u64)
        ensures
            g == self.spec_generation(),
    {
        self.generation
    }

    pub fn state(&self, slot: Slot) -> (s: SlotState)
        ensures
            s == self.spec_state(slot),
    {
        self.states[Self::index(slot)]
    }

    /// Only `slot` changed to `state`, with manifest `m`.
    pub closed spec fn slot_set(&self, old: Self, slot: Slot, state: SlotState, m: Option<UpdateManifest>) -> bool {
        &&& self.active == old.active && self.generation == old.generation
        &&& self.states@ == old.states@.update(slot_index(slot), state)
        &&& self.manifests@ == old.manifests@.update(slot_index(slot), m)
    }

    /// Stages a validated manifest into `slot` when the lifecycle allows it.
    pub fn stage(&mut self, slot: Slot, manifest: UpdateManifest) -> (r: Result<(), UpdateError>)
        ensures
            manifest_verdict(manifest, old(self).spec_generation()) is Err ==> r == Err::<(), UpdateError>(manifest_verdict(manifest, old(self).spec_generation())->Err_0)
                && *final(self) == *old(self),
            manifest_verdict(manifest, old(self).spec_generation()) is Ok && !slot_edge(old(self).spec_state(slot), SlotState::Staged)
                ==> r == Err::<(), UpdateError>(UpdateError::InvalidTransition) && *final(self) == *old(self),
            manifest_verdict(manifest, old(self).spec_generation()) is Ok && slot_edge(old(self).spec_state(slot), SlotState::Staged)
                ==> r == Ok::<(), UpdateError>(()) && final(self).slot_set(*old(self), slot, SlotState::Staged, Some(manifest)),
    {
        match validate_manifest(manifest, self.generation) {
            Err(e) => {
                return Err(e);
            },
            Ok(()) => {},
        }
        let i = Self::index(slot);
        if self.states[i] == SlotState::Quarantined || !transition(self.states[i], SlotState::Staged) {
            return Err(UpdateError::InvalidTransition);
        }
        self.manifests[i] = Some(manifest);
        self.states[i] = SlotState::Staged;
        Ok(())
    }

    /// Boots the staged inactive slot.
    pub fn boot_pending(&mut self) -> (r: Result<Slot, UpdateError>)
        ensures
            ({
                let s = spec_other(old(self).spec_active());
                if old(self).spec_state(s) != SlotState::Staged || old(self).spec_manifest(s) is None {
                    r == Err::<Slot, UpdateError>(UpdateError::NotStaged) && *final(self) == *old(self)
                } else {
                    r == Ok::<Slot, UpdateError>(s) && final(self).slot_set(*old(self), s, SlotState::Booting, old(self).spec_manifest(s))
                }
            }),
    {
        let slot = self.active.other();
        let i = Self::index(slot);
        if self.states[i] != SlotState::Staged || self.manifests[i].is_none() {
            return Err(UpdateError::NotStaged);
        }
        self.states[i] = SlotState::Booting;
        assert(self.manifests@ =~= old(self).manifests@.update(i as int, old(self).manifests@[i as int]));
        Ok(slot)
    }

    /// Promotes a booting slot: it becomes active with its manifest's
    /// generation, and the other slot is marked staged.
    pub fn mark_healthy(&mut self, slot: Slot) -> (r: Result<(), UpdateError>)
        ensures
            old(self).spec_state(slot) != SlotState::Booting || old(self).spec_manifest(slot) is None
                ==> r == Err::<(), UpdateError>(UpdateError::InvalidTransition) && *final(self) == *old(self),
            old(self).spec_state(slot) == SlotState::Booting && old(self).spec_manifest(slot) is Some ==> {
                &&& r == Ok::<(), UpdateError>(())
                &&& final(self).spec_active() == slot
                &&& final(self).spec_generation() == old(self).spec_manifest(slot)->Some_0.generation
                &&& final(self).spec_state(slot) == SlotState::Healthy
                &&& final(self).spec_state(spec_other(slot)) == SlotState::Staged
                &&& final(self).spec_manifest(slot) == old(self).spec_manifest(slot)
                &&& final(self).spec_manifest(spec_other(slot)) == old(self).spec_manifest(spec_other(slot))
            },
    {
        let i = Self::index(slot);
        if self.states[i] != SlotState::Booting || self.manifests[i].is_none() {
            return Err(UpdateError::InvalidTransition);
        }
        let manifest = self.manifests[i].unwrap();
        self.active = slot;
        self.generation = manifest.generation;
        self.states[i] = SlotState::Healthy;
        self.states[Self::index(slot.other())] = SlotState::Staged;
        Ok(())
    }

    pub fn mark_failed(&mut self, slot: Slot) -> (r: Result<(), UpdateError>)
        ensures
            old(self).spec_state(slot) != SlotState::Booting ==> r == Err::<(), UpdateError>(UpdateError::InvalidTransition) && *final(self) == *old(self),
            old(self).spec_state(slot) == SlotState::Booting ==> r == Ok::<(), UpdateError>(())
                && final(self).slot_set(*old(self), slot, SlotState::Failed, old(self).spec_manifest(slot)),
    {
        let i = Self::index(slot);
        if self.states[i] != SlotState::Booting {
            return Err(UpdateError::InvalidTransition);
        }
        self.states[i] = SlotState::Failed;
        assert(self.manifests@ =~= old(self).manifests@.update(i as int, old(self).manifests@[i as int]));
        Ok(())
    }

    /// Abandons a failed or booting slot: it is marked failed and the other
    /// slot is active.
    pub fn rollback(&mut self, slot: Slot) -> (r: Result<(), UpdateError>)
        ensures
            old(self).spec_state(slot) != SlotState::Failed && old(self).spec_state(slot) != SlotState::Booting
                ==> r == Err::<(), UpdateError>(UpdateError::InvalidTransition) && *final(self) == *old(self),
            old(self).spec_state(slot) == SlotState::Failed || old(self).spec_state(slot) == SlotState::Booting ==> {
                &&& r == Ok::<(), UpdateError>(())
                &&& final(self).spec_active() == spec_other(slot)
                &&& final(self).spec_generation() == old(self).spec_generation()
                &&& final(self).spec_state(slot) == SlotState::Failed
                &&& final(self).spec_state(spec_other(slot)) == old(self).spec_state(spec_other(slot))
                &&& final(self).spec_manifest(Slot::A) == old(self).spec_manifest(Slot::A)
                &&& final(self).spec_manifest(Slot::B) == old(self).spec_manifest(Slot::B)
            },
    {
        let i = Self::index(slot);
        if self.states[i] != SlotState::Failed && self.states[i] != SlotState::Booting {
            return Err(UpdateError::InvalidTransition);
        }
        self.states[i] = SlotState::Failed;
        self.active = slot.other();
        Ok(())
    }
}

/// A failed update leaves the running system as it was: `boot_pending`
/// boots the slot other than the active one, and rolling that slot back
/// activates the slot other than it, which is the one that was active.
pub proof fn lemma_rollback_restores_active(active: Slot)
    ensures
        spec_other(spec_other(active)) == active,
        spec_other(active) != active,
{
}

} // verus!

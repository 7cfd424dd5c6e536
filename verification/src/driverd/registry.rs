//! Bounded registry of driver descriptors; only verified drivers are admitted.

use vstd::prelude::*;
use super::contract::{DriverManifest, DriverTrust};
use super::protocol::{DriverClass, DriverId, DriverState};

verus! {

pub const MAX_REGISTERED_DRIVERS: usize = 256;

#[derive(Clone, Copy, Debug, PartialEq, Eq, Structural)]
pub struct DriverDescriptor {
    pub id: DriverId,
    pub class: DriverClass,
    pub abi_major: u16,
    pub abi_minor: u16,
    pub vendor: u16,
    pub device: u16,
    pub state: DriverState,
    pub trust: DriverTrust,
}

impl DriverDescriptor {
    pub fn manifest(self, architecture_mask: u64, capability_mask: u64) -> (m: DriverManifest)
        ensures
            m == (DriverManifest {
                id: self.id,
                class: self.class,
                abi_major: self.abi_major,
                abi_minor: self.abi_minor,
                architecture_mask,
                capability_mask,
                trust: self.trust,
            }),
    {
        DriverManifest::new(self.id, self.class, self.abi_major, self.abi_minor, architecture_mask, capability_mask, self.trust)
    }
}

#[derive(Clone, Copy, Debug, PartialEq, Eq, Structural)]
pub enum RegistryError {
    Full,
    Duplicate,
    NotFound,
    Untrusted,
}

pub open spec fn desc_is(o: Option<DriverDescriptor>, id: DriverId) -> bool {
    o matches Some(d) && d.id == id
}

/// `i` is the first of the first `len` entries describing driver `id`.
pub open spec fn first_desc(entries: Seq<Option<DriverDescriptor>>, len: int, id: DriverId, i: int) -> bool {
    &&& 0 <= i < len
    &&& desc_is(entries[i], id)
    &&& forall|j: int| 0 <= j < i ==> !desc_is(#[trigger] entries[j], id)
}

pub open spec fn has_desc(entries: Seq<Option<DriverDescriptor>>, len: int, id: DriverId) -> bool {
    exists|i: int| 0 <= i < len && desc_is(#[trigger] entries[i], id)
}

pub struct DriverRegistry {
    entries: [Option<DriverDescriptor>; MAX_REGISTERED_DRIVERS],
    len: usize,
}

impl DriverRegistry {
    #[verifier::type_invariant]
    spec fn bounded(self) -> bool {
        self.len <= MAX_REGISTERED_DRIVERS
    }

    /// The descriptor slots.
    pub closed spec fn entries(&self) -> Seq<Option<DriverDescriptor>> {
        self.entries@
    }

    /// Number of slots in use (a prefix of the table).
    pub closed spec fn used(&self) -> int {
        self.len as int
    }

    pub proof fn lemma_slots(&self)
        ensures
            self.entries().len() == MAX_REGISTERED_DRIVERS,
            0 <= self.used(),
    {
    }

    /// The state recorded for driver `id`, if registered.
    pub open spec fn state_of(&self, id: DriverId) -> Option<DriverState> {
        if has_desc(self.entries(), self.used(), id) {
            Some(self.entries()[choose|i: int| first_desc(self.entries(), self.used(), id, i)]->Some_0.state)
        } else {
            None
        }
    }

    pub fn new() -> (r: Self)
        ensures
            r.used() == 0,
            forall|i: int| 0 <= i < MAX_REGISTERED_DRIVERS ==> (#[trigger] r.entries()[i]) is None,
    {
        Self { entries: [None; MAX_REGISTERED_DRIVERS], len: 0 }
    }

    pub fn len(&self) -> (r: usize)
        ensures
            r == self.used(),
    {
        self.len
    }

    fn find_index(&self, id: DriverId) -> (r: Option<usize>)
        ensures
            match r {
                Some(i) => first_desc(self.entries(), self.used(), id, i as int),
                None => !has_desc(self.entries(), self.used(), id),
            },
    {
        proof { use_type_invariant(self); }
        let mut i: usize = 0;
        while i < self.len
            invariant
                self.len <= MAX_REGISTERED_DRIVERS,
                i <= self.len,
                forall|j: int| 0 <= j < i ==> !desc_is(#[trigger] self.entries@[j], id),
            decreases self.len - i,
        {
            if let Some(entry) = &self.entries[i] {
                if entry.id == id {
                    return Some(i);
                }
            }
            i += 1;
        }
        None
    }

    /// Admits a verified, not yet registered driver in the next slot.
    pub fn register(&mut self, descriptor: DriverDescriptor) -> (r: Result<(), RegistryError>)
        ensures
            r == if has_desc(old(self).entries(), old(self).used(), descriptor.id) {
                Err(RegistryError::Duplicate)
            } else if descriptor.trust != DriverTrust::Verified {
                Err(RegistryError::Untrusted)
            } else if old(self).used() == MAX_REGISTERED_DRIVERS {
                Err(RegistryError::Full)
            } else {
                Ok(())
            },
            r is Ok ==> final(self).used() == old(self).used() + 1
                && final(self).entries() == old(self).entries().update(old(self).used(), Some(descriptor)),
            r is Err ==> *final(self) == *old(self),
    {
        proof { use_type_invariant(&*self); }
        if self.find_index(descriptor.id).is_some() {
            return Err(RegistryError::Duplicate);
        }
        if descriptor.trust != DriverTrust::Verified {
            return Err(RegistryError::Untrusted);
        }
        if self.len == MAX_REGISTERED_DRIVERS {
            return Err(RegistryError::Full);
        }
        self.entries[self.len] = Some(descriptor);
        self.len = self.len + 1;
        Ok(())
    }

    /// The first registered descriptor of driver `id`.
    pub fn find(&self, id: DriverId) -> (r: Option<&DriverDescriptor>)
        ensures
            match r {
                Some(d) => exists|i: int| first_desc(self.entries(), self.used(), id, i) && Some(*d) == self.entries()[i],
                None => !has_desc(self.entries(), self.used(), id),
            },
    {
        proof { use_type_invariant(self); }
        match self.find_index(id) {
            Some(i) => self.entries[i].as_ref(),
            None => None,
        }
    }

    /// Records a new state for driver `id`.
    pub fn set_state(&mut self, id: DriverId, state: DriverState) -> (r: Result<(), RegistryError>)
        ensures
            match r {
                Ok(()) => exists|i: int| first_desc(old(self).entries(), old(self).used(), id, i)
                    && final(self).entries() == old(self).entries().update(i, Some(DriverDescriptor { state, ..old(self).entries()[i]->Some_0 }))
                    && final(self).used() == old(self).used(),
                Err(e) => e == RegistryError::NotFound && !has_desc(old(self).entries(), old(self).used(), id)
                    && *final(self) == *old(self),
            },
    {
        proof { use_type_invariant(&*self); }
        match self.find_index(id) {
            Some(i) => {
                let mut d = self.entries[i].unwrap();
                d.state = state;
                self.entries[i] = Some(d);
                Ok(())
            },
            None => Err(RegistryError::NotFound),
        }
    }
}

/// A registered driver can be found, and its descriptor is the one registered.
pub proof fn lemma_register_then_find(before: DriverRegistry, after: DriverRegistry, d: DriverDescriptor)
    requires
        before.used() < MAX_REGISTERED_DRIVERS,
        !has_desc(before.entries(), before.used(), d.id),
        after.used() == before.used() + 1,
        after.entries() == before.entries().update(before.used(), Some(d)),
    ensures
        first_desc(after.entries(), after.used(), d.id, before.used()),
{
    before.lemma_slots();
}

} // verus!

//! Identity service: user, group and credential checks, capability
//! authorisation and bounded, duplicate-free group membership.

use vstd::prelude::*;

verus! {

pub const IDENTITY_ABI_MAJOR: u16 = 1;
pub const IDENTITY_ABI_MINOR: u16 = 2;
pub const MAX_GROUPS: usize = 16;

#[derive(Clone, Copy, Debug, PartialEq, Eq, Structural)]
pub struct UserId(pub u32);

#[derive(Clone, Copy, Debug, PartialEq, Eq, Structural)]
pub struct GroupId(pub u32);

#[derive(Clone, Copy, Debug, PartialEq, Eq, Structural)]
pub struct Credential {
    pub user: UserId,
    pub primary_group: GroupId,
    pub capability_mask: u64,
}

#[derive(Clone, Copy, Debug, PartialEq, Eq, Structural)]
pub enum IdentityError {
    InvalidUser,
    InvalidGroup,
    TooManyGroups,
    CapabilityDenied,
}

/// The all-ones id is reserved and never names a user.
pub fn validate_user(user: UserId) -> (r: Result<(), IdentityError>)
    ensures
        r == (if user.0 == u32::MAX { Err(IdentityError::InvalidUser) } else { Ok(()) }),
{
    if user.0 == u32::MAX {
        Err(IdentityError::InvalidUser)
    } else {
        Ok(())
    }
}

/// The all-ones id is reserved and never names a group.
pub fn validate_group(group: GroupId) -> (r: Result<(), IdentityError>)
    ensures
        r == (if group.0 == u32::MAX { Err(IdentityError::InvalidGroup) } else { Ok(()) }),
{
    if group.0 == u32::MAX {
        Err(IdentityError::InvalidGroup)
    } else {
        Ok(())
    }
}

pub open spec fn credential_verdict(c: Credential) -> Result<(), IdentityError> {
    if c.user.0 == u32::MAX {
        Err(IdentityError::InvalidUser)
    } else if c.primary_group.0 == u32::MAX {
        Err(IdentityError::InvalidGroup)
    } else {
        Ok(())
    }
}

pub fn validate_credential(credential: Credential) -> (r: Result<(), IdentityError>)
    ensures
        r == credential_verdict(credential),
{
    match validate_user(credential.user) {
        Ok(()) => {},
        Err(e) => {
            return Err(e);
        },
    }
    validate_group(credential.primary_group)
}

/// A valid credential is authorised when it holds every required capability bit.
pub fn authorize(credential: Credential, required: u64) -> (r: Result<(), IdentityError>)
    ensures
        r == (match credential_verdict(credential) {
            Err(e) => Err(e),
            Ok(()) => if credential.capability_mask & required == required { Ok(()) } else { Err(IdentityError::CapabilityDenied) },
        }),
{
    match validate_credential(credential) {
        Ok(()) => {},
        Err(e) => {
            return Err(e);
        },
    }
    if credential.capability_mask & required == required {
        Ok(())
    } else {
        Err(IdentityError::CapabilityDenied)
    }
}

/// Group membership: at most 16 groups, each at most once.
#[derive(Clone, Copy, Debug, PartialEq, Eq)]
pub struct GroupSet {
    groups: [GroupId; MAX_GROUPS],
    len: usize,
}

impl GroupSet {
    pub closed spec fn wf(&self) -> bool {
        &&& self.len <= MAX_GROUPS
        &&& self.members().no_duplicates()
    }

    /// The member groups, in the order they are stored.
    pub closed spec fn members(&self) -> Seq<GroupId> {
        self.groups@.subrange(0, self.len as int)
    }

    pub fn new() -> (s: Self)
        ensures
            s.wf(),
            s.members() == Seq::<GroupId>::empty(),
    {
        let s = GroupSet { groups: [GroupId(0); MAX_GROUPS], len: 0 };
        assert(s.members() =~= Seq::<GroupId>::empty());
        s
    }

    pub fn contains(&self, group: GroupId) -> (r: bool)
        requires
            self.wf(),
        ensures
            r == self.members().contains(group),
    {
        let mut i: usize = 0;
        while i < self.len
            invariant
                self.wf(),
                i <= self.len,
                forall|j: int| 0 <= j < i ==> self.members()[j] != group,
            decreases self.len - i,
        {
            if self.groups[i] == group {
                assert(self.members()[i as int] == group);
                return true;
            }
            i += 1;
        }
        false
    }

    /// Adds a valid group; adding a member again changes nothing.
    pub fn add(&mut self, group: GroupId) -> (r: Result<(), IdentityError>)
        requires
            old(self).wf(),
        ensures
            final(self).wf(),
            group.0 == u32::MAX ==> r == Err::<(), IdentityError>(IdentityError::InvalidGroup) && final(self).members() == old(self).members(),
            group.0 != u32::MAX && old(self).members().contains(group) ==> r == Ok::<(), IdentityError>(()) && final(self).members() == old(self).members(),
            group.0 != u32::MAX && !old(self).members().contains(group) && old(self).members().len() == MAX_GROUPS
                ==> r == Err::<(), IdentityError>(IdentityError::TooManyGroups) && final(self).members() == old(self).members(),
            group.0 != u32::MAX && !old(self).members().contains(group) && old(self).members().len() < MAX_GROUPS
                ==> r == Ok::<(), IdentityError>(()) && final(self).members() == old(self).members().push(group),
    {
        match validate_group(group) {
            Ok(()) => {},
            Err(e) => {
                return Err(e);
            },
        }
        if self.contains(group) {
            return Ok(());
        }
        if self.len == MAX_GROUPS {
            return Err(IdentityError::TooManyGroups);
        }
        let ghost before = self.members();
        self.groups[self.len] = group;
        self.len = self.len + 1;
        assert(self.members() =~= before.push(group));
        Ok(())
    }

    /// Removes a valid group if present; the last member takes its place.
    pub fn remove(&mut self, group: GroupId) -> (r: Result<(), IdentityError>)
        requires
            old(self).wf(),
        ensures
            final(self).wf(),
            group.0 == u32::MAX ==> r == Err::<(), IdentityError>(IdentityError::InvalidGroup) && final(self).members() == old(self).members(),
            group.0 != u32::MAX ==> r == Ok::<(), IdentityError>(())
                && !final(self).members().contains(group)
                && forall|h: GroupId| h != group ==> (#[trigger] final(self).members().contains(h) <==> old(self).members().contains(h)),
            group.0 != u32::MAX && old(self).members().contains(group) ==> final(self).members().len() + 1 == old(self).members().len(),
            group.0 != u32::MAX && !old(self).members().contains(group) ==> final(self).members() == old(self).members(),
    {
        match validate_group(group) {
            Ok(()) => {},
            Err(e) => {
                return Err(e);
            },
        }
        let mut i: usize = 0;
        while i < self.len
            invariant
                self.wf(),
                *self == *old(self),
                group.0 != u32::MAX,
                i <= self.len,
                forall|j: int| 0 <= j < i ==> self.members()[j] != group,
            decreases self.len - i,
        {
            if self.groups[i] == group {
                let ghost before = self.members();
                let last = self.len - 1;
                self.groups[i] = self.groups[last];
                self.groups[last] = GroupId(0);
                self.len = last;
                proof {
                    assert(before[i as int] == group);
                    assert(before.contains(group));
                    let after = self.members();
                    assert(after =~= before.update(i as int, before[last as int]).subrange(0, last as int));
                    assert forall|h: GroupId| h != group implies (#[trigger] after.contains(h) <==> before.contains(h)) by {
                        if before.contains(h) {
                            let k = choose|k: int| 0 <= k < before.len() && before[k] == h;
                            if k == last {
                                assert(after[i as int] == h);
                            } else {
                                assert(k != i);
                                assert(after[k] == h);
                            }
                        }
                        if after.contains(h) {
                            let k = choose|k: int| 0 <= k < after.len() && after[k] == h;
                            if k == i {
                                assert(before[last as int] == h);
                            } else {
                                assert(before[k] == h);
                            }
                        }
                    }
                    assert(!after.contains(group)) by {
                        if after.contains(group) {
                            let k = choose|k: int| 0 <= k < after.len() && after[k] == group;
                            assert(before[i as int] == group);
                            if k == i {
                                assert(before[last as int] == group);
                                assert(last != i);
                                assert(before[last as int] != before[i as int]);
                            } else {
                                assert(before[k] == group && k != i);
                                assert(before[k] != before[i as int]);
                            }
                        }
                    }
                    assert(after.no_duplicates()) by {
                        assert forall|a: int, b: int| 0 <= a < after.len() && 0 <= b < after.len() && a != b implies after[a] != after[b] by {
                            let ia = if a == i { last as int } else { a };
                            let ib = if b == i { last as int } else { b };
                            assert(after[a] == before[ia] && after[b] == before[ib]);
                        }
                    }
                }
                return Ok(());
            }
            i += 1;
        }
        assert(!self.members().contains(group));
        Ok(())
    }

    pub fn len(&self) -> (n: usize)
        requires
            self.wf(),
        ensures
            n == self.members().len(),
    {
        self.len
    }

    pub fn is_empty(&self) -> (b: bool)
        requires
            self.wf(),
        ensures
            b == (self.members().len() == 0),
    {
        self.len == 0
    }
}

impl Default for GroupSet {
    fn default() -> (s: Self)
        ensures
            s.wf(),
            s.members() == Seq::<GroupId>::empty(),
    {
        Self::new()
    }
}

} // verus!

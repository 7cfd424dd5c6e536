//! `.awos` native application packages: header validation, publisher
//! signature check, sandbox policy, the repository index with dependency
//! resolution, and install, update, rollback and removal.

use vstd::prelude::*;
use crate::bytes::{rd16, rd32, read_le16, read_le32, starts_with4};
use crate::table::{all_full, find_free, first_free_index, is_first_free, lemma_first_free_index};
use crate::securityd::crypto::{ed25519_accepts, ed25519_verify};

verus! {

/// "AWOS"
pub const AWOS_MAGIC: [u8; 4] = [0x41, 0x57, 0x4F, 0x53];
pub const AWOS_VERSION: u16 = 1;
pub const AWOS_HEADER_LEN: usize = 32;
pub const AWOS_MAX_MANIFEST: usize = 65536;
pub const AWOS_MAX_CODE: usize = 268435456;
pub const AWOS_MAX_DATA: usize = 268435456;
pub const AWOS_MIN_SIGNATURE: usize = 64;
pub const AWOS_FLAG_GUI: u32 = 1;
pub const AWOS_FLAG_SERVICE: u32 = 2;
pub const AWOS_KNOWN_FLAGS: u32 = 3;
pub const MAX_PACKAGE_DEPS: usize = 16;
pub const MAX_INDEX_ENTRIES: usize = 32;
pub const MAX_INSTALLED_PACKAGES: usize = 32;

#[derive(Clone, Copy, Debug, PartialEq, Eq, Structural)]
pub struct AwosHeader {
    pub version: u16,
    pub abi_major: u16,
    pub abi_minor: u16,
    pub manifest_len: u32,
    pub code_len: u32,
    pub data_len: u32,
    pub signature_len: u16,
    pub entry_offset: u32,
    pub flags: u32,
}

#[derive(Clone, Copy, Debug, PartialEq, Eq, Structural)]
pub enum AwosError {
    TooShort,
    BadMagic,
    UnsupportedVersion,
    OversizedManifest,
    OversizedCode,
    OversizedData,
    MissingSignature,
    InvalidLength,
    InvalidEntry,
    UnknownFlags,
    InvalidSignature,
    PublisherUntrusted,
    DependencyMissing,
    DependencyCycle,
    PackageNotFound,
    AlreadyInstalled,
    SandboxViolation,
    RollbackFailed,
    StorageFull,
}

/// The header fields at their little-endian offsets.
pub open spec fn awos_header(s: Seq<u8>) -> AwosHeader {
    AwosHeader {
        version: rd16(s, 4),
        abi_major: rd16(s, 6),
        abi_minor: rd16(s, 8),
        manifest_len: rd32(s, 10),
        code_len: rd32(s, 14),
        data_len: rd32(s, 18),
        signature_len: rd16(s, 22),
        entry_offset: rd32(s, 24),
        flags: rd32(s, 28),
    }
}

/// The verdict on a package image, checks in order.
pub open spec fn awos_verdict(s: Seq<u8>) -> Result<AwosHeader, AwosError> {
    let h = awos_header(s);
    if s.len() < AWOS_HEADER_LEN {
        Err(AwosError::TooShort)
    } else if s.subrange(0, 4) != AWOS_MAGIC@ {
        Err(AwosError::BadMagic)
    } else if h.version != AWOS_VERSION {
        Err(AwosError::UnsupportedVersion)
    } else if h.manifest_len > AWOS_MAX_MANIFEST {
        Err(AwosError::OversizedManifest)
    } else if h.code_len > AWOS_MAX_CODE {
        Err(AwosError::OversizedCode)
    } else if h.data_len > AWOS_MAX_DATA {
        Err(AwosError::OversizedData)
    } else if h.signature_len < AWOS_MIN_SIGNATURE {
        Err(AwosError::MissingSignature)
    } else if h.flags & !AWOS_KNOWN_FLAGS != 0 {
        Err(AwosError::UnknownFlags)
    } else if h.entry_offset >= h.code_len || h.code_len == 0 {
        Err(AwosError::InvalidEntry)
    } else if AWOS_HEADER_LEN + h.manifest_len + h.code_len + h.data_len + h.signature_len != s.len() {
        Err(AwosError::InvalidLength)
    } else {
        Ok(h)
    }
}

pub fn validate_awos(bytes: &[u8]) -> (r: Result<AwosHeader, AwosError>)
    ensures
        r == awos_verdict(bytes@),
{
    if bytes.len() < AWOS_HEADER_LEN {
        return Err(AwosError::TooShort);
    }
    if !starts_with4(bytes, AWOS_MAGIC) {
        return Err(AwosError::BadMagic);
    }
    let header = AwosHeader {
        version: read_le16(bytes, 4),
        abi_major: read_le16(bytes, 6),
        abi_minor: read_le16(bytes, 8),
        manifest_len: read_le32(bytes, 10),
        code_len: read_le32(bytes, 14),
        data_len: read_le32(bytes, 18),
        signature_len: read_le16(bytes, 22),
        entry_offset: read_le32(bytes, 24),
        flags: read_le32(bytes, 28),
    };
    if header.version != AWOS_VERSION {
        return Err(AwosError::UnsupportedVersion);
    }
    if header.manifest_len as usize > AWOS_MAX_MANIFEST {
        return Err(AwosError::OversizedManifest);
    }
    if header.code_len as usize > AWOS_MAX_CODE {
        return Err(AwosError::OversizedCode);
    }
    if header.data_len as usize > AWOS_MAX_DATA {
        return Err(AwosError::OversizedData);
    }
    if (header.signature_len as usize) < AWOS_MIN_SIGNATURE {
        return Err(AwosError::MissingSignature);
    }
    if header.flags & !AWOS_KNOWN_FLAGS != 0 {
        return Err(AwosError::UnknownFlags);
    }
    if header.entry_offset >= header.code_len || header.code_len == 0 {
        return Err(AwosError::InvalidEntry);
    }
    let expected = AWOS_HEADER_LEN + header.manifest_len as usize + header.code_len as usize + header.data_len as usize
        + header.signature_len as usize;
    if expected != bytes.len() {
        return Err(AwosError::InvalidLength);
    }
    Ok(header)
}

/// Splits an image into manifest, code, data and signature as the header
/// lays them out; the parts must exactly fill the image.
pub fn package_parts<'a>(bytes: &'a [u8], header: AwosHeader) -> (r: Result<(&'a [u8], &'a [u8], &'a [u8], &'a [u8]), AwosError>)
    ensures
        ({
            let ms = AWOS_HEADER_LEN as int;
            let cs = ms + header.manifest_len;
            let ds = cs + header.code_len;
            let ss = ds + header.data_len;
            let end = ss + header.signature_len;
            match r {
                Ok((m, c, d, g)) => end == bytes@.len() && m@ == bytes@.subrange(ms, cs) && c@ == bytes@.subrange(cs, ds)
                    && d@ == bytes@.subrange(ds, ss) && g@ == bytes@.subrange(ss, end),
                Err(e) => e == AwosError::InvalidLength && end != bytes@.len(),
            }
        }),
{
    assert(bytes@.len() == bytes.len());
    let ms = AWOS_HEADER_LEN;
    let cs = match ms.checked_add(header.manifest_len as usize) {
        Some(v) => v,
        None => {
            return Err(AwosError::InvalidLength);
        },
    };
    let ds = match cs.checked_add(header.code_len as usize) {
        Some(v) => v,
        None => {
            return Err(AwosError::InvalidLength);
        },
    };
    let ss = match ds.checked_add(header.data_len as usize) {
        Some(v) => v,
        None => {
            return Err(AwosError::InvalidLength);
        },
    };
    let end = match ss.checked_add(header.signature_len as usize) {
        Some(v) => v,
        None => {
            return Err(AwosError::InvalidLength);
        },
    };
    if end != bytes.len() {
        return Err(AwosError::InvalidLength);
    }
    Ok((&bytes[ms..cs], &bytes[cs..ds], &bytes[ds..ss], &bytes[ss..end]))
}

#[derive(Clone, Copy, Debug, PartialEq, Eq)]
pub struct PublisherIdentity {
    pub publisher_id: u64,
    pub public_key: [u8; 32],
    pub is_official: bool,
}

impl PublisherIdentity {
    /// The verdict on `signature` for `payload`: at least 64 bytes, the
    /// first 64 of which must verify under the publisher's key.
    pub open spec fn signature_verdict(&self, payload: Seq<u8>, signature: Seq<u8>) -> Result<(), AwosError> {
        if signature.len() < AWOS_MIN_SIGNATURE {
            Err(AwosError::MissingSignature)
        } else if ed25519_accepts(self.public_key@, payload, signature.subrange(0, 64)) {
            Ok(())
        } else {
            Err(AwosError::InvalidSignature)
        }
    }

    pub fn verify_signature(&self, payload: &[u8], signature: &[u8]) -> (r: Result<(), AwosError>)
        ensures
            r == self.signature_verdict(payload@, signature@),
    {
        if signature.len() < AWOS_MIN_SIGNATURE {
            return Err(AwosError::MissingSignature);
        }
        let mut sig = [0u8; 64];
        let mut i: usize = 0;
        while i < 64
            invariant
                i <= 64,
                64 <= signature@.len(),
                sig@.len() == 64,
                forall|j: int| 0 <= j < i ==> sig@[j] == signature@[j],
            decreases 64 - i,
        {
            sig[i] = signature[i];
            i += 1;
        }
        assert(sig@ =~= signature@.subrange(0, 64));
        if ed25519_verify(&self.public_key, payload, &sig) {
            Ok(())
        } else {
            Err(AwosError::InvalidSignature)
        }
    }
}

#[derive(Clone, Copy, Debug, PartialEq, Eq, Structural)]
pub struct SandboxProfile {
    pub package_id: u64,
    pub capability_mask: u64,
    pub max_memory_pages: u32,
    pub max_fds: u32,
    pub allow_raw_sockets: bool,
}

impl SandboxProfile {
    /// File-system read and write only, 1024 pages, 16 descriptors, no raw sockets.
    pub fn strict_default(package_id: u64) -> (p: Self)
        ensures
            p == (SandboxProfile { package_id, capability_mask: 0x0003, max_memory_pages: 1024, max_fds: 16, allow_raw_sockets: false }),
    {
        SandboxProfile { package_id, capability_mask: 0x0003, max_memory_pages: 1024, max_fds: 16, allow_raw_sockets: false }
    }

    /// Access is allowed for capabilities the profile holds and memory within its budget.
    pub fn validate_access(&self, required_cap: u64, pages_requested: u32) -> (r: Result<(), AwosError>)
        ensures
            r == (if self.capability_mask & required_cap != required_cap || pages_requested > self.max_memory_pages {
                Err(AwosError::SandboxViolation)
            } else {
                Ok(())
            }),
    {
        if self.capability_mask & required_cap != required_cap || pages_requested > self.max_memory_pages {
            return Err(AwosError::SandboxViolation);
        }
        Ok(())
    }
}

#[derive(Clone, Copy, Debug, PartialEq, Eq, Structural)]
pub struct PackageDependency {
    pub dep_package_id: u64,
    pub min_version: u16,
}

#[derive(Clone, Copy, Debug, PartialEq, Eq)]
pub struct PackageMeta {
    pub package_id: u64,
    pub version: u16,
    pub publisher: PublisherIdentity,
    pub sandbox: SandboxProfile,
    pub dependencies: [Option<PackageDependency>; MAX_PACKAGE_DEPS],
    pub dep_count: usize,
}

#[derive(Clone, Copy, Debug, PartialEq, Eq, Structural)]
pub enum AppPackageState {
    Installed,
    Running,
    Staged,
    Failed,
    Quarantined,
    Removed,
}

/// The package lifecycle.
pub open spec fn package_edge(from: AppPackageState, to: AppPackageState) -> bool {
    ||| from == AppPackageState::Installed && to == AppPackageState::Running
    ||| from == AppPackageState::Installed && to == AppPackageState::Staged
    ||| from == AppPackageState::Running && to == AppPackageState::Staged
    ||| from == AppPackageState::Running && to == AppPackageState::Failed
    ||| from == AppPackageState::Staged && to == AppPackageState::Running
    ||| from == AppPackageState::Staged && to == AppPackageState::Failed
    ||| from == AppPackageState::Failed && to == AppPackageState::Staged
    ||| from == AppPackageState::Failed && to == AppPackageState::Quarantined
    ||| from == AppPackageState::Installed && to == AppPackageState::Removed
}

pub fn package_transition(from: AppPackageState, to: AppPackageState) -> (r: bool)
    ensures
        r == package_edge(from, to),
{
    match (from, to) {
        (AppPackageState::Installed, AppPackageState::Running) => true,
        (AppPackageState::Installed, AppPackageState::Staged) => true,
        (AppPackageState::Running, AppPackageState::Staged) => true,
        (AppPackageState::Running, AppPackageState::Failed) => true,
        (AppPackageState::Staged, AppPackageState::Running) => true,
        (AppPackageState::Staged, AppPackageState::Failed) => true,
        (AppPackageState::Failed, AppPackageState::Staged) => true,
        (AppPackageState::Failed, AppPackageState::Quarantined) => true,
        (AppPackageState::Installed, AppPackageState::Removed) => true,
        _ => false,
    }
}

pub open spec fn meta_is(o: Option<PackageMeta>, id: u64) -> bool {
    o matches Some(m) && m.package_id == id
}

/// Index of the first entry for package `id` at or after slot `i` (`s.len()` when none).
pub open spec fn meta_from(s: Seq<Option<PackageMeta>>, id: u64, i: int) -> int
    decreases s.len() - i,
{
    if i < 0 || i >= s.len() {
        s.len() as int
    } else if meta_is(s[i], id) {
        i
    } else {
        meta_from(s, id, i + 1)
    }
}

/// The first index entry for package `id`.
pub open spec fn find_meta(s: Seq<Option<PackageMeta>>, id: u64) -> Option<PackageMeta> {
    let i = meta_from(s, id, 0);
    if i < s.len() { s[i] } else { None }
}

pub open spec fn release_is(o: Option<PackageMeta>, id: u64, version: u16) -> bool {
    o matches Some(m) && m.package_id == id && m.version == version
}

pub open spec fn first_release(s: Seq<Option<PackageMeta>>, id: u64, version: u16, i: int) -> bool {
    &&& 0 <= i < s.len()
    &&& release_is(s[i], id, version)
    &&& forall|j: int| 0 <= j < i ==> !release_is(#[trigger] s[j], id, version)
}

pub open spec fn has_release(s: Seq<Option<PackageMeta>>, id: u64, version: u16) -> bool {
    exists|i: int| 0 <= i < s.len() && release_is(#[trigger] s[i], id, version)
}

/// Registering `meta`: an entry for the same package and version is
/// replaced, otherwise the lowest free slot is used; a full index refuses.
pub open spec fn registered(s: Seq<Option<PackageMeta>>, meta: PackageMeta) -> (Result<(), AwosError>, Seq<Option<PackageMeta>>) {
    if has_release(s, meta.package_id, meta.version) {
        (Ok(()), s.update(choose|i: int| first_release(s, meta.package_id, meta.version, i), Some(meta)))
    } else if all_full(s) {
        (Err(AwosError::StorageFull), s)
    } else {
        (Ok(()), s.update(first_free_index(s), Some(meta)))
    }
}

/// Dependency `j` of the first index entry for package `id`.
pub open spec fn dep_at(s: Seq<Option<PackageMeta>>, id: u64, j: int) -> Option<PackageDependency> {
    match find_meta(s, id) {
        Some(m) => m.dependencies@[j],
        None => None,
    }
}

pub open spec fn listed(out: Seq<u64>, count: int, id: u64) -> bool {
    exists|k: int| 0 <= k < count && out[k] == id
}

/// `out[..count]` lists distinct packages found in the index, closed under
/// their dependencies, starting with `root`; the rest of `out` is zero.
pub open spec fn resolved(s: Seq<Option<PackageMeta>>, root: u64, out: Seq<u64>, count: int) -> bool {
    &&& 1 <= count <= MAX_PACKAGE_DEPS && out.len() == MAX_PACKAGE_DEPS
    &&& out[0] == root
    &&& forall|a: int, b: int| 0 <= a < b < count ==> out[a] != out[b]
    &&& forall|k: int| 0 <= k < count ==> (#[trigger] find_meta(s, out[k])) is Some
    &&& forall|k: int, j: int| 0 <= k < count && 0 <= j < MAX_PACKAGE_DEPS && (#[trigger] dep_at(s, out[k], j)) is Some
        ==> listed(out, count, dep_at(s, out[k], j)->Some_0.dep_package_id)
    &&& forall|k: int| count <= k < MAX_PACKAGE_DEPS ==> out[k] == 0
}

/// The stack after pushing the dependency ids among `deps[..j]`, in order;
/// `None` when a push finds the 16-entry stack full.
pub open spec fn push_deps(stack: Seq<u64>, deps: Seq<Option<PackageDependency>>, j: int) -> Option<Seq<u64>>
    decreases j,
{
    if j <= 0 {
        Some(stack)
    } else {
        match push_deps(stack, deps, j - 1) {
            None => None,
            Some(st) => match deps[j - 1] {
                None => Some(st),
                Some(d) => if st.len() >= MAX_PACKAGE_DEPS { None } else { Some(st.push(d.dep_package_id)) },
            },
        }
    }
}

/// The depth-first walk from the packages on `stack` (top last), with
/// `out` listed so far: pop a package; it must be in the index; a package
/// already listed is skipped; a new one is listed (at most 16) and its
/// dependencies are pushed in order.
pub open spec fn dfs(s: Seq<Option<PackageMeta>>, out: Seq<u64>, stack: Seq<u64>) -> Result<Seq<u64>, AwosError>
    decreases MAX_PACKAGE_DEPS - out.len(), stack.len(),
{
    if stack.len() == 0 {
        Ok(out)
    } else {
        let id = stack.last();
        let rest = stack.drop_last();
        match find_meta(s, id) {
            None => Err(AwosError::DependencyMissing),
            Some(m) => if out.contains(id) {
                dfs(s, out, rest)
            } else if out.len() >= MAX_PACKAGE_DEPS {
                Err(AwosError::StorageFull)
            } else {
                match push_deps(rest, m.dependencies@, MAX_PACKAGE_DEPS as int) {
                    None => Err(AwosError::DependencyCycle),
                    Some(st) => dfs(s, out.push(id), st),
                }
            },
        }
    }
}

/// The packages `resolve_dependencies` lists for `root`, in the order it
/// lists them, or the error it stops with.
pub open spec fn resolution(s: Seq<Option<PackageMeta>>, root: u64) -> Result<Seq<u64>, AwosError> {
    dfs(s, Seq::empty(), seq![root])
}

/// Once a push fails, pushing more dependencies still fails.
proof fn lemma_push_deps_stays_none(stack: Seq<u64>, deps: Seq<Option<PackageDependency>>, j: int, k: int)
    requires
        j <= k,
        push_deps(stack, deps, j) is None,
    ensures
        push_deps(stack, deps, k) is None,
    decreases k - j,
{
    if j < k {
        lemma_push_deps_stays_none(stack, deps, j, k - 1);
    }
}

pub struct RepositoryIndex {
    entries: [Option<PackageMeta>; MAX_INDEX_ENTRIES],
}

impl RepositoryIndex {
    pub closed spec fn slots(&self) -> Seq<Option<PackageMeta>> {
        self.entries@
    }

    pub fn new() -> (r: Self)
        ensures
            r.slots() == Seq::new(MAX_INDEX_ENTRIES as nat, |i: int| None::<PackageMeta>),
    {
        let mut entries: [Option<PackageMeta>; MAX_INDEX_ENTRIES] = [None; MAX_INDEX_ENTRIES];
        let mut k: usize = 0;
        while k < MAX_INDEX_ENTRIES
            invariant
                k <= MAX_INDEX_ENTRIES,
                forall|i: int| 0 <= i < k ==> (#[trigger] entries@[i]) is None,
            decreases MAX_INDEX_ENTRIES - k,
        {
            entries[k] = None;
            k += 1;
        }
        let r = RepositoryIndex { entries };
        assert(r.slots() =~= Seq::new(MAX_INDEX_ENTRIES as nat, |i: int| None::<PackageMeta>));
        r
    }

    pub fn register(&mut self, meta: PackageMeta) -> (r: Result<(), AwosError>)
        ensures
            (r, final(self).slots()) == registered(old(self).slots(), meta),
    {
        let mut i: usize = 0;
        while i < MAX_INDEX_ENTRIES
            invariant
                i <= MAX_INDEX_ENTRIES,
                *self == *old(self),
                self.entries@.len() == MAX_INDEX_ENTRIES,
                forall|j: int| 0 <= j < i ==> !release_is(#[trigger] self.entries@[j], meta.package_id, meta.version),
            decreases MAX_INDEX_ENTRIES - i,
        {
            if let Some(e) = self.entries[i] {
                if e.package_id == meta.package_id && e.version == meta.version {
                    proof {
                        let s = old(self).slots();
                        assert(first_release(s, meta.package_id, meta.version, i as int));
                        assert(has_release(s, meta.package_id, meta.version));
                        let c = choose|c: int| first_release(s, meta.package_id, meta.version, c);
                        if c < i { assert(!release_is(s[c], meta.package_id, meta.version)); }
                        if c > i { assert(!release_is(s[i as int], meta.package_id, meta.version)); }
                    }
                    self.entries[i] = Some(meta);
                    return Ok(());
                }
            }
            i += 1;
        }
        assert(!has_release(old(self).slots(), meta.package_id, meta.version));
        match find_free(&self.entries) {
            Some(k) => {
                proof { lemma_first_free_index(old(self).slots(), k as int); }
                self.entries[k] = Some(meta);
                Ok(())
            },
            None => Err(AwosError::StorageFull),
        }
    }

    pub fn find(&self, id: u64) -> (r: Option<PackageMeta>)
        ensures
            r == find_meta(self.slots(), id),
    {
        let mut i: usize = 0;
        while i < MAX_INDEX_ENTRIES
            invariant
                i <= MAX_INDEX_ENTRIES,
                self.entries@.len() == MAX_INDEX_ENTRIES,
                meta_from(self.slots(), id, 0) == meta_from(self.slots(), id, i as int),
            decreases MAX_INDEX_ENTRIES - i,
        {
            if let Some(e) = self.entries[i] {
                if e.package_id == id {
                    return Some(e);
                }
            }
            i += 1;
        }
        None
    }

    /// Collects `root` and everything it depends on, depth first, into at
    /// most 16 entries. A package missing from the index, more than 16
    /// packages, or a dependency stack deeper than 16 is refused.
    pub fn resolve_dependencies(&self, root: u64) -> (r: Result<[u64; MAX_PACKAGE_DEPS], AwosError>)
        ensures
            find_meta(self.slots(), root) is None ==> r == Err::<[u64; MAX_PACKAGE_DEPS], AwosError>(AwosError::DependencyMissing),
            r is Ok ==> exists|count: int| resolved(self.slots(), root, r->Ok_0@, count),
            match resolution(self.slots(), root) {
                Ok(listed) => r is Ok && r->Ok_0@ == listed + Seq::new((MAX_PACKAGE_DEPS - listed.len()) as nat, |i: int| 0u64),
                Err(e) => r == Err::<[u64; MAX_PACKAGE_DEPS], AwosError>(e),
            },
    {
        let ghost s = self.slots();
        let mut out = [0u64; MAX_PACKAGE_DEPS];
        let mut count: usize = 0;
        let mut stack = [0u64; MAX_PACKAGE_DEPS];
        let mut top: usize = 1;
        stack[0] = root;
        proof {
            assert(out@.take(0) =~= Seq::<u64>::empty());
            assert(stack@.take(1) =~= seq![root]);
        }
        while top > 0
            invariant
                s == self.slots(),
                count <= MAX_PACKAGE_DEPS,
                top <= MAX_PACKAGE_DEPS,
                out@.len() == MAX_PACKAGE_DEPS,
                stack@.len() == MAX_PACKAGE_DEPS,
                count == 0 ==> top == 1 && stack@[0] == root,
                count > 0 ==> out@[0] == root,
                forall|a: int, b: int| 0 <= a < b < count ==> out@[a] != out@[b],
                forall|k: int| 0 <= k < count ==> (#[trigger] find_meta(s, out@[k])) is Some,
                forall|k: int, j: int| 0 <= k < count && 0 <= j < MAX_PACKAGE_DEPS && (#[trigger] dep_at(s, out@[k], j)) is Some
                    ==> listed(out@, count as int, dep_at(s, out@[k], j)->Some_0.dep_package_id)
                        || exists|t: int| 0 <= t < top && stack@[t] == dep_at(s, out@[k], j)->Some_0.dep_package_id,
                forall|k: int| count <= k < MAX_PACKAGE_DEPS ==> out@[k] == 0,
                dfs(s, out@.take(count as int), stack@.take(top as int)) == resolution(s, root),
            decreases MAX_PACKAGE_DEPS - count, top,
        {
            let ghost top0 = top;
            let ghost count0 = count;
            let ghost out_t = out@.take(count as int);
            let ghost rest = stack@.take(top as int - 1);
            proof {
                assert(stack@.take(top as int).drop_last() =~= rest);
                assert(stack@.take(top as int).last() == stack@[top as int - 1]);
            }
            top = top - 1;
            let id = stack[top];
            let meta = match self.find(id) {
                Some(m) => m,
                None => {
                    return Err(AwosError::DependencyMissing);
                },
            };
            let mut seen = false;
            let mut k: usize = 0;
            while k < count
                invariant
                    k <= count <= MAX_PACKAGE_DEPS,
                    out@.len() == MAX_PACKAGE_DEPS,
                    seen <==> listed(out@, k as int, id),
                decreases count - k,
            {
                if out[k] == id {
                    seen = true;
                }
                proof {
                    if out@[k as int] == id { assert(listed(out@, k as int + 1, id)); }
                    if listed(out@, k as int + 1, id) && !listed(out@, k as int, id) {
                        let w = choose|w: int| 0 <= w < k + 1 && out@[w] == id;
                        assert(w == k);
                    }
                    if listed(out@, k as int, id) {
                        let w = choose|w: int| 0 <= w < k && out@[w] == id;
                        assert(0 <= w < k + 1 && out@[w] == id);
                    }
                }
                k += 1;
            }
            if seen {
                proof {
                    assert forall|kk: int, j: int| 0 <= kk < count && 0 <= j < MAX_PACKAGE_DEPS && (#[trigger] dep_at(s, out@[kk], j)) is Some
                        implies listed(out@, count as int, dep_at(s, out@[kk], j)->Some_0.dep_package_id)
                            || exists|t: int| 0 <= t < top && stack@[t] == dep_at(s, out@[kk], j)->Some_0.dep_package_id by {
                        let d = dep_at(s, out@[kk], j)->Some_0.dep_package_id;
                        if !listed(out@, count as int, d) {
                            let t = choose|t: int| 0 <= t < top + 1 && stack@[t] == d;
                            if t == top { assert(d == id); } else { assert(0 <= t < top && stack@[t] == d); }
                        }
                    }
                    let w = choose|w: int| 0 <= w < count && out@[w] == id;
                    assert(out_t[w] == id);
                    assert(out_t.contains(id));
                    assert(stack@.take(top as int) == rest);
                }
                continue;
            }
            proof {
                if out_t.contains(id) {
                    let w = choose|w: int| 0 <= w < out_t.len() && out_t[w] == id;
                    assert(listed(out@, count as int, id));
                }
                assert(!out_t.contains(id));
            }
            if count >= MAX_PACKAGE_DEPS {
                return Err(AwosError::StorageFull);
            }
            let ghost old_out = out@;
            out[count] = id;
            count = count + 1;
            proof {
                assert(out@.take(count as int) =~= out_t.push(id));
                assert(stack@.take(top as int) == rest);
                assert(stack@.take(top0 as int) =~= rest.push(id));
                assert forall|a: int| 0 <= a < count - 1 implies out@[a] == old_out[a] by {}
                assert forall|kk: int| 0 <= kk < count implies (#[trigger] find_meta(s, out@[kk])) is Some by {
                    if kk < count - 1 { assert(out@[kk] == old_out[kk]); }
                }
                assert forall|a: int, b: int| 0 <= a < b < count implies out@[a] != out@[b] by {
                    if b == count - 1 {
                        assert(old_out[a] == out@[a]);
                        assert(!listed(old_out, count - 1, id));
                    }
                }
                assert forall|kk: int, jj: int| 0 <= kk < count - 1 && 0 <= jj < MAX_PACKAGE_DEPS && (#[trigger] dep_at(s, out@[kk], jj)) is Some
                    implies listed(out@, count as int, dep_at(s, out@[kk], jj)->Some_0.dep_package_id)
                        || exists|t: int| 0 <= t < top && stack@[t] == dep_at(s, out@[kk], jj)->Some_0.dep_package_id by {
                    assert(out@[kk] == old_out[kk]);
                    let d = dep_at(s, out@[kk], jj)->Some_0.dep_package_id;
                    assert(dep_at(s, old_out[kk], jj) is Some);
                    if listed(old_out, count0 as int, d) {
                        let w = choose|w: int| 0 <= w < count0 && old_out[w] == d;
                        assert(out@[w] == d);
                    } else {
                        let t = choose|t: int| 0 <= t < top0 && stack@[t] == d;
                        if t == top {
                            assert(out@[count - 1] == d);
                        }
                    }
                }
            }
            let mut j: usize = 0;
            while j < MAX_PACKAGE_DEPS
                invariant
                    s == self.slots(),
                    1 <= count <= MAX_PACKAGE_DEPS,
                    top <= MAX_PACKAGE_DEPS,
                    j <= MAX_PACKAGE_DEPS,
                    out@.len() == MAX_PACKAGE_DEPS,
                    stack@.len() == MAX_PACKAGE_DEPS,
                    out@[count - 1] == id,
                    find_meta(s, id) == Some(meta),
                    out@[0] == root,
                    forall|a: int, b: int| 0 <= a < b < count ==> out@[a] != out@[b],
                    forall|kk: int| 0 <= kk < count ==> (#[trigger] find_meta(s, out@[kk])) is Some,
                    forall|kk: int, jj: int| 0 <= kk < count - 1 && 0 <= jj < MAX_PACKAGE_DEPS && (#[trigger] dep_at(s, out@[kk], jj)) is Some
                        ==> listed(out@, count as int, dep_at(s, out@[kk], jj)->Some_0.dep_package_id)
                            || exists|t: int| 0 <= t < top && stack@[t] == dep_at(s, out@[kk], jj)->Some_0.dep_package_id,
                    forall|jj: int| 0 <= jj < j && (#[trigger] meta.dependencies@[jj]) is Some
                        ==> exists|t: int| 0 <= t < top && stack@[t] == meta.dependencies@[jj]->Some_0.dep_package_id,
                    forall|kk: int| count <= kk < MAX_PACKAGE_DEPS ==> out@[kk] == 0,
                    out@.take(count as int) == out_t.push(id),
                    !out_t.contains(id),
                    out_t.len() < MAX_PACKAGE_DEPS,
                    push_deps(rest, meta.dependencies@, j as int) == Some(stack@.take(top as int)),
                    dfs(s, out_t, rest.push(id)) == resolution(s, root),
                decreases MAX_PACKAGE_DEPS - j,
            {
                if let Some(dep) = meta.dependencies[j] {
                    if top >= MAX_PACKAGE_DEPS {
                        proof {
                            assert(push_deps(rest, meta.dependencies@, j as int + 1) is None);
                            lemma_push_deps_stays_none(rest, meta.dependencies@, j as int + 1, MAX_PACKAGE_DEPS as int);
                            assert(rest.push(id).drop_last() =~= rest);
                            assert(rest.push(id).last() == id);
                            assert(dfs(s, out_t, rest.push(id)) == Err::<Seq<u64>, AwosError>(AwosError::DependencyCycle));
                        }
                        return Err(AwosError::DependencyCycle);
                    }
                    let ghost old_stack = stack@;
                    let ghost old_top = top;
                    stack[top] = dep.dep_package_id;
                    top = top + 1;
                    proof {
                        assert(stack@.take(top as int) =~= stack@.take(old_top as int).push(dep.dep_package_id)) by {
                            assert forall|t: int| 0 <= t < old_top implies stack@[t] == old_stack[t] by {}
                        }
                        assert forall|t: int| 0 <= t < top - 1 implies stack@[t] == old_stack[t] by {}
                        assert(stack@[top - 1] == dep.dep_package_id);
                        assert forall|kk: int, jj: int| 0 <= kk < count - 1 && 0 <= jj < MAX_PACKAGE_DEPS && (#[trigger] dep_at(s, out@[kk], jj)) is Some
                            implies listed(out@, count as int, dep_at(s, out@[kk], jj)->Some_0.dep_package_id)
                                || exists|t: int| 0 <= t < top && stack@[t] == dep_at(s, out@[kk], jj)->Some_0.dep_package_id by {
                            let d = dep_at(s, out@[kk], jj)->Some_0.dep_package_id;
                            if !listed(out@, count as int, d) {
                                let t = choose|t: int| 0 <= t < old_top && old_stack[t] == d;
                                assert(stack@[t] == d);
                            }
                        }
                        assert forall|jj: int| 0 <= jj < j + 1 && (#[trigger] meta.dependencies@[jj]) is Some
                            implies exists|t: int| 0 <= t < top && stack@[t] == meta.dependencies@[jj]->Some_0.dep_package_id by {
                            if jj == j {
                                assert(stack@[top - 1] == meta.dependencies@[jj]->Some_0.dep_package_id);
                            } else {
                                let t = choose|t: int| 0 <= t < old_top && old_stack[t] == meta.dependencies@[jj]->Some_0.dep_package_id;
                                assert(stack@[t] == old_stack[t]);
                            }
                        }
                    }
                }
                j += 1;
            }
            proof {
                assert(rest.push(id).drop_last() =~= rest);
                assert(rest.push(id).last() == id);
                assert(dfs(s, out@.take(count as int), stack@.take(top as int)) == resolution(s, root));
                assert forall|kk: int, jj: int| 0 <= kk < count && 0 <= jj < MAX_PACKAGE_DEPS && (#[trigger] dep_at(s, out@[kk], jj)) is Some
                    implies listed(out@, count as int, dep_at(s, out@[kk], jj)->Some_0.dep_package_id)
                        || exists|t: int| 0 <= t < top && stack@[t] == dep_at(s, out@[kk], jj)->Some_0.dep_package_id by {
                    if kk == count - 1 {
                        assert(dep_at(s, out@[kk], jj) == meta.dependencies@[jj]);
                    }
                }
            }
        }
        let ghost c: int = count as int;
        assert(resolved(self.slots(), root, out@, c));
        assert(out@ =~= out@.take(c) + Seq::new((MAX_PACKAGE_DEPS - c) as nat, |i: int| 0u64));
        assert(exists|c2: int| resolved(self.slots(), root, out@, c2));
        let ghost rr: Result<[u64; MAX_PACKAGE_DEPS], AwosError> = Ok(out);
        assert(rr->Ok_0@ == out@);
        assert(rr is Ok ==> exists|count: int| resolved(self.slots(), root, rr->Ok_0@, count));
        assert(find_meta(self.slots(), root) is Some);
        Ok(out)
    }
}

#[derive(Clone, Copy, Debug, PartialEq, Eq)]
pub struct InstalledAppRecord {
    pub meta: PackageMeta,
    pub state: AppPackageState,
    pub active_version: u16,
    pub backup_version: Option<u16>,
}

pub open spec fn inst_is(o: Option<InstalledAppRecord>, id: u64) -> bool {
    o matches Some(r) && r.meta.package_id == id
}

/// Index of the first installed record of package `id` at or after slot `i` (`s.len()` when none).
pub open spec fn inst_from(s: Seq<Option<InstalledAppRecord>>, id: u64, i: int) -> int
    decreases s.len() - i,
{
    if i < 0 || i >= s.len() {
        s.len() as int
    } else if inst_is(s[i], id) {
        i
    } else {
        inst_from(s, id, i + 1)
    }
}

/// The verdict on a package image for `meta`: an official publisher, a
/// valid image, and a signature over everything before it.
pub open spec fn package_check(bytes: Seq<u8>, meta: PackageMeta) -> Result<AwosHeader, AwosError> {
    if meta.publisher.publisher_id == 0 || !meta.publisher.is_official {
        Err(AwosError::PublisherUntrusted)
    } else {
        match awos_verdict(bytes) {
            Err(e) => Err(e),
            Ok(h) => {
                let ss = bytes.len() - h.signature_len;
                match meta.publisher.signature_verdict(bytes.subrange(0, ss), bytes.subrange(ss, bytes.len() as int)) {
                    Err(e) => Err(e),
                    Ok(()) => Ok(h),
                }
            },
        }
    }
}

pub struct AppPackageManager {
    pub repository: RepositoryIndex,
    pub installed: [Option<InstalledAppRecord>; MAX_INSTALLED_PACKAGES],
}

impl AppPackageManager {
    pub closed spec fn records(&self) -> Seq<Option<InstalledAppRecord>> {
        self.installed@
    }

    pub fn new() -> (m: Self)
        ensures
            m.repository.slots() == Seq::new(MAX_INDEX_ENTRIES as nat, |i: int| None::<PackageMeta>),
            m.records() == Seq::new(MAX_INSTALLED_PACKAGES as nat, |i: int| None::<InstalledAppRecord>),
    {
        let mut installed: [Option<InstalledAppRecord>; MAX_INSTALLED_PACKAGES] = [None; MAX_INSTALLED_PACKAGES];
        let mut k: usize = 0;
        while k < MAX_INSTALLED_PACKAGES
            invariant
                k <= MAX_INSTALLED_PACKAGES,
                forall|i: int| 0 <= i < k ==> (#[trigger] installed@[i]) is None,
            decreases MAX_INSTALLED_PACKAGES - k,
        {
            installed[k] = None;
            k += 1;
        }
        let m = AppPackageManager { repository: RepositoryIndex::new(), installed };
        assert(m.records() =~= Seq::new(MAX_INSTALLED_PACKAGES as nat, |i: int| None::<InstalledAppRecord>));
        m
    }

    fn verify_package(&self, bytes: &[u8], meta: PackageMeta) -> (r: Result<AwosHeader, AwosError>)
        ensures
            r == package_check(bytes@, meta),
    {
        if meta.publisher.publisher_id == 0 || !meta.publisher.is_official {
            return Err(AwosError::PublisherUntrusted);
        }
        let h = match validate_awos(bytes) {
            Ok(h) => h,
            Err(e) => {
                return Err(e);
            },
        };
        let sig = match package_parts(bytes, h) {
            Ok((_, _, _, sig)) => sig,
            Err(e) => {
                return Err(e);
            },
        };
        let end = bytes.len() - sig.len();
        let body = slice_front(bytes, end);
        match meta.publisher.verify_signature(body, sig) {
            Err(e) => Err(e),
            Ok(()) => Ok(h),
        }
    }

    fn find_installed(&self, id: u64) -> (r: Option<usize>)
        ensures
            match r {
                Some(i) => i == inst_from(self.records(), id, 0) && i < MAX_INSTALLED_PACKAGES && inst_is(self.records()[i as int], id),
                None => inst_from(self.records(), id, 0) >= self.records().len(),
            },
    {
        let mut i: usize = 0;
        while i < MAX_INSTALLED_PACKAGES
            invariant
                i <= MAX_INSTALLED_PACKAGES,
                self.installed@.len() == MAX_INSTALLED_PACKAGES,
                inst_from(self.records(), id, 0) == inst_from(self.records(), id, i as int),
            decreases MAX_INSTALLED_PACKAGES - i,
        {
            if let Some(rec) = self.installed[i] {
                if rec.meta.package_id == id {
                    return Some(i);
                }
            }
            i += 1;
        }
        None
    }

    /// Installs a verified package that is not installed yet: it is
    /// registered in the index (which persists even when a later step
    /// fails), its dependencies must resolve, and it takes the lowest free
    /// installed slot.
    pub fn install_package(&mut self, bytes: &[u8], meta: PackageMeta) -> (r: Result<u64, AwosError>)
        ensures
            package_check(bytes@, meta) is Err ==> r == Err::<u64, AwosError>(package_check(bytes@, meta)->Err_0)
                && final(self).repository.slots() == old(self).repository.slots() && final(self).records() == old(self).records(),
            package_check(bytes@, meta) is Ok && inst_from(old(self).records(), meta.package_id, 0) < MAX_INSTALLED_PACKAGES
                ==> r == Err::<u64, AwosError>(AwosError::AlreadyInstalled)
                && final(self).repository.slots() == old(self).repository.slots() && final(self).records() == old(self).records(),
            package_check(bytes@, meta) is Ok && inst_from(old(self).records(), meta.package_id, 0) >= MAX_INSTALLED_PACKAGES ==> {
                let (reg, repo) = registered(old(self).repository.slots(), meta);
                &&& reg is Err ==> r == Err::<u64, AwosError>(AwosError::StorageFull) && final(self).repository.slots() == old(self).repository.slots()
                &&& reg is Ok ==> final(self).repository.slots() == repo
                &&& reg is Ok && resolution(repo, meta.package_id) is Err
                    ==> r == Err::<u64, AwosError>(resolution(repo, meta.package_id)->Err_0)
                &&& reg is Ok && resolution(repo, meta.package_id) is Ok
                    ==> (r is Ok <==> !all_full(old(self).records()))
                        && (r is Err ==> r == Err::<u64, AwosError>(AwosError::StorageFull))
            },
            r is Err ==> final(self).records() == old(self).records(),
            r is Ok ==> {
                &&& r == Ok::<u64, AwosError>(meta.package_id)
                &&& package_check(bytes@, meta) is Ok
                &&& find_meta(final(self).repository.slots(), meta.package_id) is Some
                &&& exists|i: int| is_first_free(old(self).records(), i) && final(self).records() == old(self).records().update(i,
                    Some(InstalledAppRecord { meta, state: AppPackageState::Installed, active_version: meta.version, backup_version: None }))
            },
    {
        match self.verify_package(bytes, meta) {
            Err(e) => {
                return Err(e);
            },
            Ok(_) => {},
        }
        if self.find_installed(meta.package_id).is_some() {
            return Err(AwosError::AlreadyInstalled);
        }
        match self.repository.register(meta) {
            Err(e) => {
                return Err(e);
            },
            Ok(()) => {},
        }
        match self.repository.resolve_dependencies(meta.package_id) {
            Err(e) => {
                return Err(e);
            },
            Ok(_) => {},
        }
        match find_free(&self.installed) {
            Some(i) => {
                self.installed[i] = Some(InstalledAppRecord { meta, state: AppPackageState::Installed, active_version: meta.version, backup_version: None });
                Ok(meta.package_id)
            },
            None => Err(AwosError::StorageFull),
        }
    }

    /// Removes an installed package whose lifecycle allows removal.
    pub fn uninstall_package(&mut self, id: u64) -> (r: Result<(), AwosError>)
        ensures
            final(self).repository.slots() == old(self).repository.slots(),
            ({
                let i = inst_from(old(self).records(), id, 0);
                if i >= MAX_INSTALLED_PACKAGES {
                    r == Err::<(), AwosError>(AwosError::PackageNotFound) && final(self).records() == old(self).records()
                } else if !package_edge(old(self).records()[i]->Some_0.state, AppPackageState::Removed) {
                    r == Err::<(), AwosError>(AwosError::SandboxViolation) && final(self).records() == old(self).records()
                } else {
                    r == Ok::<(), AwosError>(()) && final(self).records() == old(self).records().update(i, None)
                }
            }),
    {
        match self.find_installed(id) {
            None => Err(AwosError::PackageNotFound),
            Some(i) => {
                let rec = self.installed[i].unwrap();
                if !package_transition(rec.state, AppPackageState::Removed) {
                    return Err(AwosError::SandboxViolation);
                }
                self.installed[i] = None;
                Ok(())
            },
        }
    }

    /// Moves an installed package to a newer verified version, keeping the
    /// old version as the rollback target, and registers the new metadata.
    pub fn update_package(&mut self, meta: PackageMeta, bytes: &[u8]) -> (r: Result<(), AwosError>)
        ensures
            package_check(bytes@, meta) is Err ==> r == Err::<(), AwosError>(package_check(bytes@, meta)->Err_0)
                && final(self).repository.slots() == old(self).repository.slots() && final(self).records() == old(self).records(),
            package_check(bytes@, meta) is Ok ==> {
                let i = inst_from(old(self).records(), meta.package_id, 0);
                if i >= MAX_INSTALLED_PACKAGES {
                    r == Err::<(), AwosError>(AwosError::PackageNotFound) && final(self).repository.slots() == old(self).repository.slots()
                        && final(self).records() == old(self).records()
                } else {
                    let rec = old(self).records()[i]->Some_0;
                    if meta.version <= rec.active_version {
                        r == Err::<(), AwosError>(AwosError::InvalidEntry) && final(self).repository.slots() == old(self).repository.slots()
                            && final(self).records() == old(self).records()
                    } else {
                        &&& final(self).records() == old(self).records().update(i, Some(InstalledAppRecord {
                            meta,
                            state: AppPackageState::Installed,
                            active_version: meta.version,
                            backup_version: Some(rec.active_version),
                        }))
                        &&& (r, final(self).repository.slots()) == registered(old(self).repository.slots(), meta)
                    }
                }
            },
    {
        match self.verify_package(bytes, meta) {
            Err(e) => {
                return Err(e);
            },
            Ok(_) => {},
        }
        match self.find_installed(meta.package_id) {
            None => Err(AwosError::PackageNotFound),
            Some(i) => {
                let rec = self.installed[i].unwrap();
                if meta.version <= rec.active_version {
                    return Err(AwosError::InvalidEntry);
                }
                self.installed[i] = Some(InstalledAppRecord {
                    meta,
                    state: AppPackageState::Installed,
                    active_version: meta.version,
                    backup_version: Some(rec.active_version),
                });
                self.repository.register(meta)
            },
        }
    }

    /// Returns an updated package to its previous version.
    pub fn rollback_package(&mut self, id: u64) -> (r: Result<u16, AwosError>)
        ensures
            final(self).repository.slots() == old(self).repository.slots(),
            ({
                let i = inst_from(old(self).records(), id, 0);
                if i >= MAX_INSTALLED_PACKAGES {
                    r == Err::<u16, AwosError>(AwosError::PackageNotFound) && final(self).records() == old(self).records()
                } else {
                    let rec = old(self).records()[i]->Some_0;
                    match rec.backup_version {
                        None => r == Err::<u16, AwosError>(AwosError::RollbackFailed) && final(self).records() == old(self).records(),
                        Some(v) => r == Ok::<u16, AwosError>(v) && final(self).records() == old(self).records().update(i, Some(InstalledAppRecord {
                            active_version: v,
                            backup_version: None,
                            state: AppPackageState::Installed,
                            ..rec
                        })),
                    }
                }
            }),
    {
        match self.find_installed(id) {
            None => Err(AwosError::PackageNotFound),
            Some(i) => {
                let rec = self.installed[i].unwrap();
                match rec.backup_version {
                    Some(v) => {
                        self.installed[i] = Some(InstalledAppRecord { active_version: v, backup_version: None, state: AppPackageState::Installed, ..rec });
                        Ok(v)
                    },
                    None => Err(AwosError::RollbackFailed),
                }
            },
        }
    }

    pub fn get_installed_record(&self, id: u64) -> (r: Result<InstalledAppRecord, AwosError>)
        ensures
            ({
                let i = inst_from(self.records(), id, 0);
                if i >= MAX_INSTALLED_PACKAGES {
                    r == Err::<InstalledAppRecord, AwosError>(AwosError::PackageNotFound)
                } else {
                    r == Ok::<InstalledAppRecord, AwosError>(self.records()[i]->Some_0)
                }
            }),
    {
        match self.find_installed(id) {
            None => Err(AwosError::PackageNotFound),
            Some(i) => Ok(self.installed[i].unwrap()),
        }
    }
}

/// The first `n` bytes of `b`.
fn slice_front(b: &[u8], n: usize) -> (t: &[u8])
    requires
        n <= b@.len(),
    ensures
        t@ == b@.subrange(0, n as int),
{
    &b[0..n]
}

/// Rolling back right after an update restores the version that was
/// active before it.
pub proof fn lemma_update_then_rollback(rec: InstalledAppRecord, meta: PackageMeta)
    requires
        meta.version > rec.active_version,
    ensures
        ({
            let updated = InstalledAppRecord { meta, state: AppPackageState::Installed, active_version: meta.version, backup_version: Some(rec.active_version) };
            updated.backup_version == Some(rec.active_version)
                && (InstalledAppRecord { active_version: updated.backup_version->Some_0, backup_version: None, state: AppPackageState::Installed, ..updated }).active_version
                    == rec.active_version
        }),
{
}

} // verus!

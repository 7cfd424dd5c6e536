//! Native driver packages (`.asd`): header validation, signature check and
//! the package lifecycle (install, update, rollback, quarantine, recovery).

use vstd::prelude::*;
use crate::bytes::{rd16, rd32, rd64, read_le16, read_le32, read_le64, starts_with4, sum8, sum8_range};
use crate::table::{all_full, find_free, is_first_free};

verus! {

pub const ASD_MAGIC: [u8; 4] = [0x41, 0x53, 0x44, 0x31];
pub const ASD_VERSION: u16 = 1;
pub const ASD_HEADER_LEN: usize = 38;
pub const ASD_MAX_MANIFEST: usize = 65536;
pub const ASD_MAX_PAYLOAD: usize = 134217728;
pub const ASD_MIN_SIGNATURE: usize = 64;
pub const ASD_ARCH_X86_64: u16 = 0x8664;
pub const ASD_ARCH_AARCH64: u16 = 0xAA64;
pub const ASD_ARCH_RISCV64: u16 = 0xF364;

pub const DRIVER_ABI_MAJOR: u16 = 1;
pub const DRIVER_ABI_MINOR: u16 = 2;

pub const DRV_CAP_DMA: u64 = 1;
pub const DRV_CAP_MMIO: u64 = 2;
pub const DRV_CAP_IRQ: u64 = 4;
pub const DRV_CAP_PORT_IO: u64 = 8;
pub const DRV_CAP_KNOWN_MASK: u64 = 15;

pub const MAX_INSTALLED_DRIVERS: usize = 32;

#[derive(Clone, Copy, Debug, PartialEq, Eq, Structural)]
pub struct AsdHeader {
    pub version: u16,
    pub architecture: u16,
    pub manifest_len: u32,
    pub payload_len: u32,
    pub signature_len: u16,
    pub abi_major: u16,
    pub abi_minor: u16,
    pub capabilities: u64,
    pub reserved: u64,
}

#[derive(Clone, Copy, Debug, PartialEq, Eq, Structural)]
pub enum AsdError {
    TooShort,
    BadMagic,
    UnsupportedVersion,
    UnsupportedArchitecture,
    IncompatibleAbi,
    InvalidLength,
    OversizedManifest,
    OversizedPayload,
    MissingSignature,
    InvalidSignature,
    CapabilityDenied,
    UnknownCapability,
    ArithmeticOverflow,
    DriverNotFound,
    AlreadyInstalled,
    Quarantined,
    RollbackFailed,
    StorageFull,
}

pub open spec fn spec_supported_architecture(architecture: u16) -> bool {
    architecture == ASD_ARCH_X86_64 || architecture == ASD_ARCH_AARCH64 || architecture == ASD_ARCH_RISCV64
}

pub fn supported_architecture(architecture: u16) -> (r: bool)
    ensures
        r == spec_supported_architecture(architecture),
{
    architecture == ASD_ARCH_X86_64 || architecture == ASD_ARCH_AARCH64 || architecture == ASD_ARCH_RISCV64
}

pub fn validate_driver_capabilities(caps: u64) -> (r: Result<(), AsdError>)
    ensures
        r == if caps & !DRV_CAP_KNOWN_MASK != 0 { Err(AsdError::UnknownCapability) } else { Ok(()) },
{
    if caps & !DRV_CAP_KNOWN_MASK != 0 {
        Err(AsdError::UnknownCapability)
    } else {
        Ok(())
    }
}

/// The header fields stored (little-endian) in the first 38 bytes.
pub open spec fn asd_header_of(s: Seq<u8>) -> AsdHeader {
    AsdHeader {
        version: rd16(s, 4),
        architecture: rd16(s, 6),
        manifest_len: rd32(s, 8),
        payload_len: rd32(s, 12),
        signature_len: rd16(s, 16),
        abi_major: rd16(s, 18),
        abi_minor: rd16(s, 20),
        capabilities: rd64(s, 22),
        reserved: rd64(s, 30),
    }
}

/// The verdict on a driver package image: the first failed check, or its header.
pub open spec fn asd_verdict(s: Seq<u8>) -> Result<AsdHeader, AsdError> {
    let h = asd_header_of(s);
    if s.len() < ASD_HEADER_LEN {
        Err(AsdError::TooShort)
    } else if s.subrange(0, 4) != ASD_MAGIC@ {
        Err(AsdError::BadMagic)
    } else if h.version != ASD_VERSION {
        Err(AsdError::UnsupportedVersion)
    } else if !spec_supported_architecture(h.architecture) {
        Err(AsdError::UnsupportedArchitecture)
    } else if h.abi_major != DRIVER_ABI_MAJOR || h.abi_minor > DRIVER_ABI_MINOR {
        Err(AsdError::IncompatibleAbi)
    } else if h.capabilities & !DRV_CAP_KNOWN_MASK != 0 {
        Err(AsdError::UnknownCapability)
    } else if h.manifest_len > ASD_MAX_MANIFEST {
        Err(AsdError::OversizedManifest)
    } else if h.payload_len > ASD_MAX_PAYLOAD {
        Err(AsdError::OversizedPayload)
    } else if h.signature_len < ASD_MIN_SIGNATURE {
        Err(AsdError::MissingSignature)
    } else if ASD_HEADER_LEN + h.manifest_len + h.payload_len + h.signature_len != s.len() {
        Err(AsdError::InvalidLength)
    } else {
        Ok(h)
    }
}

/// The driver ABI is backward compatible within its major version: an image
/// that `validate_asd` accepts is still accepted, with the same header
/// otherwise, when only its ABI minor version (bytes 20-21, little-endian)
/// is set to any minor version up to `DRIVER_ABI_MINOR`; set to any later
/// minor version, it is refused as `IncompatibleAbi`.
pub proof fn lemma_abi_minor_backward_compatible(s: Seq<u8>, m: u16)
    requires
        asd_verdict(s) is Ok,
    ensures
        m <= DRIVER_ABI_MINOR ==> asd_verdict(s.update(20, m as u8).update(21, (m >> 8u16) as u8))
            == Ok::<AsdHeader, AsdError>(AsdHeader { abi_minor: m, ..asd_verdict(s)->Ok_0 }),
        m > DRIVER_ABI_MINOR ==> asd_verdict(s.update(20, m as u8).update(21, (m >> 8u16) as u8))
            == Err::<AsdHeader, AsdError>(AsdError::IncompatibleAbi),
{
    let t = s.update(20, m as u8).update(21, (m >> 8u16) as u8);
    let lo = m as u8;
    let hi = (m >> 8u16) as u8;
    assert(t[20] == lo && t[21] == hi);
    assert(((lo as u16) | ((hi as u16) << 8u16)) == m) by (bit_vector)
        requires lo == m as u8, hi == (m >> 8u16) as u8;
    assert(rd16(t, 20) == m);
    assert(t.subrange(0, 4) =~= s.subrange(0, 4));
    assert(rd16(t, 4) == rd16(s, 4));
    assert(rd16(t, 6) == rd16(s, 6));
    assert(rd32(t, 8) == rd32(s, 8));
    assert(rd32(t, 12) == rd32(s, 12));
    assert(rd16(t, 16) == rd16(s, 16));
    assert(rd16(t, 18) == rd16(s, 18));
    assert(rd64(t, 22) == rd64(s, 22));
    assert(rd64(t, 30) == rd64(s, 30));
}

/// Only the current major version of the driver ABI is accepted: an image
/// that `validate_asd` accepts is refused as `IncompatibleAbi` when only its
/// ABI major version (bytes 18-19, little-endian) is changed.
pub proof fn lemma_abi_major_exact(s: Seq<u8>, m: u16)
    requires
        asd_verdict(s) is Ok,
        m != DRIVER_ABI_MAJOR,
    ensures
        asd_verdict(s.update(18, m as u8).update(19, (m >> 8u16) as u8))
            == Err::<AsdHeader, AsdError>(AsdError::IncompatibleAbi),
{
    let t = s.update(18, m as u8).update(19, (m >> 8u16) as u8);
    let lo = m as u8;
    let hi = (m >> 8u16) as u8;
    assert(t[18] == lo && t[19] == hi);
    assert(((lo as u16) | ((hi as u16) << 8u16)) == m) by (bit_vector)
        requires lo == m as u8, hi == (m >> 8u16) as u8;
    assert(rd16(t, 18) == m);
    assert(t.subrange(0, 4) =~= s.subrange(0, 4));
    assert(rd16(t, 4) == rd16(s, 4));
    assert(rd16(t, 6) == rd16(s, 6));
}

pub fn validate_asd(bytes: &[u8]) -> (r: Result<AsdHeader, AsdError>)
    ensures
        r == asd_verdict(bytes@),
{
    if bytes.len() < ASD_HEADER_LEN {
        return Err(AsdError::TooShort);
    }
    if !starts_with4(bytes, ASD_MAGIC) {
        return Err(AsdError::BadMagic);
    }
    let header = AsdHeader {
        version: read_le16(bytes, 4),
        architecture: read_le16(bytes, 6),
        manifest_len: read_le32(bytes, 8),
        payload_len: read_le32(bytes, 12),
        signature_len: read_le16(bytes, 16),
        abi_major: read_le16(bytes, 18),
        abi_minor: read_le16(bytes, 20),
        capabilities: read_le64(bytes, 22),
        reserved: read_le64(bytes, 30),
    };
    if header.version != ASD_VERSION {
        return Err(AsdError::UnsupportedVersion);
    }
    if !supported_architecture(header.architecture) {
        return Err(AsdError::UnsupportedArchitecture);
    }
    if header.abi_major != DRIVER_ABI_MAJOR || header.abi_minor > DRIVER_ABI_MINOR {
        return Err(AsdError::IncompatibleAbi);
    }
    match validate_driver_capabilities(header.capabilities) {
        Ok(()) => {},
        Err(e) => return Err(e),
    }
    if header.manifest_len as usize > ASD_MAX_MANIFEST {
        return Err(AsdError::OversizedManifest);
    }
    if header.payload_len as usize > ASD_MAX_PAYLOAD {
        return Err(AsdError::OversizedPayload);
    }
    if (header.signature_len as usize) < ASD_MIN_SIGNATURE {
        return Err(AsdError::MissingSignature);
    }
    let expected = ASD_HEADER_LEN + header.manifest_len as usize + header.payload_len as usize + header.signature_len as usize;
    if expected != bytes.len() {
        return Err(AsdError::InvalidLength);
    }
    Ok(header)
}

/// Splits a validated image into manifest, payload and signature.
pub fn package_parts<'a>(bytes: &'a [u8], header: AsdHeader) -> (r: Result<(&'a [u8], &'a [u8], &'a [u8]), AsdError>)
    ensures
        ({
            let ms = ASD_HEADER_LEN as int;
            let ps = ms + header.manifest_len;
            let ss = ps + header.payload_len;
            let end = ss + header.signature_len;
            match r {
                Ok((m, p, g)) => end == bytes@.len() && m@ == bytes@.subrange(ms, ps) && p@ == bytes@.subrange(ps, ss)
                    && g@ == bytes@.subrange(ss, end),
                Err(e) => if end > usize::MAX { e == AsdError::ArithmeticOverflow } else {
                    e == AsdError::InvalidLength && end != bytes@.len()
                },
            }
        }),
{
    let manifest_start = ASD_HEADER_LEN;
    let payload_start = match manifest_start.checked_add(header.manifest_len as usize) {
        Some(v) => v,
        None => return Err(AsdError::ArithmeticOverflow),
    };
    let signature_start = match payload_start.checked_add(header.payload_len as usize) {
        Some(v) => v,
        None => return Err(AsdError::ArithmeticOverflow),
    };
    let end = match signature_start.checked_add(header.signature_len as usize) {
        Some(v) => v,
        None => return Err(AsdError::ArithmeticOverflow),
    };
    if end != bytes.len() {
        return Err(AsdError::InvalidLength);
    }
    Ok((&bytes[manifest_start..payload_start], &bytes[payload_start..signature_start], &bytes[signature_start..end]))
}

#[derive(Clone, Copy, Debug, PartialEq, Eq)]
pub struct DriverSignerKey {
    pub key_id: u32,
    pub fingerprint: [u8; 16],
    pub is_certified: bool,
}

impl DriverSignerKey {
    /// The tag byte this key expects for `payload`: the byte sum of the
    /// payload, xor the first fingerprint byte, xor 0xC5 for certified keys.
    pub open spec fn expected_tag(self, payload: Seq<u8>) -> u8 {
        let t = sum8(payload) ^ self.fingerprint@[0];
        if self.is_certified { t ^ 0xC5u8 } else { t }
    }

    pub fn verify(&self, payload: &[u8], signature: &[u8]) -> (r: Result<(), AsdError>)
        ensures
            r == if signature@.len() < ASD_MIN_SIGNATURE {
                Err(AsdError::MissingSignature)
            } else if signature@[0] != self.expected_tag(payload@) {
                Err(AsdError::InvalidSignature)
            } else {
                Ok(())
            },
    {
        if signature.len() < ASD_MIN_SIGNATURE {
            return Err(AsdError::MissingSignature);
        }
        let sum = sum8_range(payload, 0, payload.len());
        assert(payload@.subrange(0, payload@.len() as int) =~= payload@);
        let mut expected = sum ^ self.fingerprint[0];
        if self.is_certified {
            expected = expected ^ 0xC5;
        }
        if signature[0] != expected {
            return Err(AsdError::InvalidSignature);
        }
        Ok(())
    }
}

#[derive(Clone, Copy, Debug, PartialEq, Eq, Structural)]
pub enum PackageState {
    Installed,
    Active,
    Staged,
    Failed,
    Quarantined,
}

pub open spec fn spec_package_transition(from: PackageState, to: PackageState) -> bool {
    match (from, to) {
        (PackageState::Installed, PackageState::Active) | (PackageState::Installed, PackageState::Quarantined)
        | (PackageState::Active, PackageState::Staged) | (PackageState::Staged, PackageState::Active)
        | (PackageState::Staged, PackageState::Failed) | (PackageState::Failed, PackageState::Staged)
        | (PackageState::Failed, PackageState::Quarantined) | (PackageState::Active, PackageState::Quarantined) => true,
        _ => false,
    }
}

pub fn package_transition(from: PackageState, to: PackageState) -> (r: bool)
    ensures
        r == spec_package_transition(from, to),
{
    match (from, to) {
        (PackageState::Installed, PackageState::Active) | (PackageState::Installed, PackageState::Quarantined)
        | (PackageState::Active, PackageState::Staged) | (PackageState::Staged, PackageState::Active)
        | (PackageState::Staged, PackageState::Failed) | (PackageState::Failed, PackageState::Staged)
        | (PackageState::Failed, PackageState::Quarantined) | (PackageState::Active, PackageState::Quarantined) => true,
        _ => false,
    }
}

#[derive(Clone, Copy, Debug, PartialEq, Eq)]
pub struct DriverMeta {
    pub driver_id: u32,
    pub version: u16,
    pub signer: DriverSignerKey,
    pub capabilities: u64,
}

#[derive(Clone, Copy, Debug, PartialEq, Eq)]
pub struct DriverRecord {
    pub meta: DriverMeta,
    pub state: PackageState,
    pub active_version: u16,
    pub backup_version: Option<u16>,
}

pub open spec fn record_is(o: Option<DriverRecord>, id: u32) -> bool {
    o matches Some(r) && r.meta.driver_id == id
}

/// `i` is the first slot holding a record of driver `id`.
pub open spec fn first_record(s: Seq<Option<DriverRecord>>, id: u32, i: int) -> bool {
    &&& 0 <= i < s.len()
    &&& record_is(s[i], id)
    &&& forall|j: int| 0 <= j < i ==> !record_is(#[trigger] s[j], id)
}

pub open spec fn has_record(s: Seq<Option<DriverRecord>>, id: u32) -> bool {
    exists|i: int| 0 <= i < s.len() && record_is(#[trigger] s[i], id)
}

/// The slot of the first record of driver `id` (meaningful when there is one).
pub open spec fn first_index(s: Seq<Option<DriverRecord>>, id: u32) -> int {
    choose|i: int| first_record(s, id, i)
}

/// What looking up driver `id` gives: its first record, or `DriverNotFound`.
pub open spec fn record_of(s: Seq<Option<DriverRecord>>, id: u32) -> Result<DriverRecord, AsdError> {
    if has_record(s, id) {
        Ok(s[first_index(s, id)]->Some_0)
    } else {
        Err(AsdError::DriverNotFound)
    }
}

/// The record that replaces slot `i` of `t` when `m` is installed over it:
/// the new version becomes active and the one it replaces is kept as backup.
pub open spec fn updated_record(t: Seq<Option<DriverRecord>>, i: int, m: DriverMeta) -> DriverRecord {
    DriverRecord {
        meta: m,
        state: PackageState::Installed,
        active_version: m.version,
        backup_version: Some(t[i]->Some_0.active_version),
    }
}

/// The table after a successful update with `m`: the first record of the
/// driver is replaced by `updated_record`.
pub open spec fn updated_table(t: Seq<Option<DriverRecord>>, m: DriverMeta) -> Seq<Option<DriverRecord>> {
    let i = first_index(t, m.driver_id);
    t.update(i, Some(updated_record(t, i, m)))
}

/// What rolling driver `id` back gives, and the table after it: the first
/// record's backup version becomes active with no backup left; a driver
/// with no backup is refused, and so is an unknown one.
pub open spec fn rollback_result(t: Seq<Option<DriverRecord>>, id: u32) -> (Result<u16, AsdError>, Seq<Option<DriverRecord>>) {
    if !has_record(t, id) {
        (Err(AsdError::DriverNotFound), t)
    } else {
        let i = first_index(t, id);
        let rec = t[i]->Some_0;
        match rec.backup_version {
            Some(v) => (Ok(v), t.update(i, Some(DriverRecord {
                state: PackageState::Installed, active_version: v, backup_version: None, ..rec }))),
            None => (Err(AsdError::RollbackFailed), t),
        }
    }
}

/// A driver has at most one first record.
pub proof fn lemma_first_record_unique(s: Seq<Option<DriverRecord>>, id: u32, i: int, j: int)
    requires
        first_record(s, id, i),
        first_record(s, id, j),
    ensures
        i == j,
{
    if i < j {
        assert(!record_is(s[i], id));
    } else if j < i {
        assert(!record_is(s[j], id));
    }
}

/// The first record found is the one `first_index` names.
pub proof fn lemma_first_index(s: Seq<Option<DriverRecord>>, id: u32, i: int)
    requires
        first_record(s, id, i),
    ensures
        first_index(s, id) == i,
        has_record(s, id),
{
    assert(record_is(s[i], id));
    lemma_first_record_unique(s, id, i, first_index(s, id));
}

/// A driver with a record has a first one.
pub proof fn lemma_first_index_exists(s: Seq<Option<DriverRecord>>, id: u32)
    requires
        has_record(s, id),
    ensures
        first_record(s, id, first_index(s, id)),
{
    let k = choose|k: int| 0 <= k < s.len() && record_is(#[trigger] s[k], id);
    lemma_first_record_from(s, id, k);
}

proof fn lemma_first_record_from(s: Seq<Option<DriverRecord>>, id: u32, k: int)
    requires
        0 <= k < s.len(),
        record_is(s[k], id),
    ensures
        first_record(s, id, first_index(s, id)),
    decreases k,
{
    if forall|j: int| 0 <= j < k ==> !record_is(#[trigger] s[j], id) {
        assert(first_record(s, id, k));
    } else {
        let j = choose|j: int| 0 <= j < k && record_is(#[trigger] s[j], id);
        lemma_first_record_from(s, id, j);
    }
}

/// Replacing the first record of `id` by another record of `id` keeps it first.
proof fn lemma_first_record_replaced(s: Seq<Option<DriverRecord>>, id: u32, i: int, rec: DriverRecord)
    requires
        first_record(s, id, i),
        rec.meta.driver_id == id,
    ensures
        first_record(s.update(i, Some(rec)), id, i),
        first_index(s.update(i, Some(rec)), id) == i,
{
    let t = s.update(i, Some(rec));
    assert forall|j: int| 0 <= j < i implies !record_is(#[trigger] t[j], id) by {
        assert(t[j] == s[j]);
    }
    assert(first_record(t, id, i));
    lemma_first_index(t, id, i);
}

/// Updating a driver and then rolling it back restores the version that was
/// active before the update: after the update the driver runs the new
/// version with the old one as backup; the rollback then returns the old
/// version and leaves it active and installed, under the new metadata, with
/// no backup; a second rollback is refused.
pub proof fn lemma_update_then_rollback(t0: Seq<Option<DriverRecord>>, m: DriverMeta)
    requires
        has_record(t0, m.driver_id),
    ensures
        record_of(updated_table(t0, m), m.driver_id) == Ok::<DriverRecord, AsdError>(DriverRecord {
            meta: m,
            state: PackageState::Installed,
            active_version: m.version,
            backup_version: Some(record_of(t0, m.driver_id)->Ok_0.active_version),
        }),
        rollback_result(updated_table(t0, m), m.driver_id).0 == Ok::<u16, AsdError>(record_of(t0, m.driver_id)->Ok_0.active_version),
        record_of(rollback_result(updated_table(t0, m), m.driver_id).1, m.driver_id) == Ok::<DriverRecord, AsdError>(DriverRecord {
            meta: m,
            state: PackageState::Installed,
            active_version: record_of(t0, m.driver_id)->Ok_0.active_version,
            backup_version: None,
        }),
        rollback_result(rollback_result(updated_table(t0, m), m.driver_id).1, m.driver_id).0 == Err::<u16, AsdError>(AsdError::RollbackFailed),
{
    let id = m.driver_id;
    lemma_first_index_exists(t0, id);
    let i = first_index(t0, id);
    let t1 = updated_table(t0, m);
    lemma_first_record_replaced(t0, id, i, updated_record(t0, i, m));
    lemma_first_index(t1, id, i);
    let rec1 = t1[i]->Some_0;
    let rec2 = DriverRecord { state: PackageState::Installed, active_version: t0[i]->Some_0.active_version, backup_version: None, ..rec1 };
    lemma_first_record_replaced(t1, id, i, rec2);
    let t2 = t1.update(i, Some(rec2));
    assert(rollback_result(t1, id).1 == t2);
    lemma_first_index(t2, id, i);
}

pub open spec fn recoverable_is(o: Option<DriverRecord>, id: u32) -> bool {
    record_is(o, id) && (o->Some_0.state == PackageState::Quarantined || o->Some_0.state == PackageState::Failed)
}

/// Why an image with this signer is refused (the first failed check), if it is.
pub open spec fn admission_error(bytes: Seq<u8>, signer: DriverSignerKey) -> Option<AsdError> {
    match asd_verdict(bytes) {
        Err(e) => Some(e),
        Ok(h) => {
            let ps = ASD_HEADER_LEN + h.manifest_len;
            let ss = ps + h.payload_len;
            if bytes[ss] != signer.expected_tag(bytes.subrange(ps, ss)) {
                Some(AsdError::InvalidSignature)
            } else {
                None
            }
        },
    }
}

pub struct DriverPackageManager {
    pub drivers: [Option<DriverRecord>; MAX_INSTALLED_DRIVERS],
}

impl DriverPackageManager {
    pub fn new() -> (m: Self)
        ensures
            forall|i: int| 0 <= i < MAX_INSTALLED_DRIVERS ==> (#[trigger] m.drivers@[i]) is None,
    {
        Self { drivers: [None; MAX_INSTALLED_DRIVERS] }
    }

    /// Validates the image, its parts and its signature.
    fn check_package(bytes: &[u8], signer: &DriverSignerKey) -> (r: Result<(), AsdError>)
        ensures
            match r {
                Ok(()) => admission_error(bytes@, *signer) is None,
                Err(e) => admission_error(bytes@, *signer) == Some(e),
            },
    {
        let header = match validate_asd(bytes) {
            Ok(h) => h,
            Err(e) => return Err(e),
        };
        let (_manifest, payload, sig) = match package_parts(bytes, header) {
            Ok(parts) => parts,
            Err(e) => return Err(e),
        };
        signer.verify(payload, sig)
    }

    fn find(&self, driver_id: u32) -> (r: Option<usize>)
        ensures
            match r {
                Some(i) => first_record(self.drivers@, driver_id, i as int),
                None => !has_record(self.drivers@, driver_id),
            },
    {
        let mut i: usize = 0;
        while i < MAX_INSTALLED_DRIVERS
            invariant
                self.drivers@.len() == MAX_INSTALLED_DRIVERS,
                i <= MAX_INSTALLED_DRIVERS,
                forall|j: int| 0 <= j < i ==> !record_is(#[trigger] self.drivers@[j], driver_id),
            decreases MAX_INSTALLED_DRIVERS - i,
        {
            if let Some(r) = &self.drivers[i] {
                if r.meta.driver_id == driver_id {
                    return Some(i);
                }
            }
            i += 1;
        }
        None
    }

    pub fn install_driver(&mut self, bytes: &[u8], meta: DriverMeta) -> (r: Result<u32, AsdError>)
        ensures
            match admission_error(bytes@, meta.signer) {
                Some(e) => r == Err::<u32, AsdError>(e) && *final(self) == *old(self),
                None => match r {
                    Ok(id) => id == meta.driver_id && exists|i: int| is_first_free(old(self).drivers@, i)
                        && final(self).drivers@ == old(self).drivers@.update(i, Some(DriverRecord {
                            meta, state: PackageState::Installed, active_version: meta.version, backup_version: None })),
                    Err(e) => e == AsdError::StorageFull && all_full(old(self).drivers@) && *final(self) == *old(self),
                },
            },
    {
        match Self::check_package(bytes, &meta.signer) {
            Ok(()) => {},
            Err(e) => return Err(e),
        }
        match find_free(&self.drivers) {
            Some(i) => {
                self.drivers[i] = Some(DriverRecord { meta, state: PackageState::Installed, active_version: meta.version, backup_version: None });
                Ok(meta.driver_id)
            },
            None => Err(AsdError::StorageFull),
        }
    }

    /// Replaces a driver's package, keeping the previous version as backup.
    pub fn update_driver(&mut self, new_meta: DriverMeta, new_bytes: &[u8]) -> (r: Result<(), AsdError>)
        ensures
            match admission_error(new_bytes@, new_meta.signer) {
                Some(e) => r == Err::<(), AsdError>(e) && *final(self) == *old(self),
                None => match r {
                    Ok(()) => has_record(old(self).drivers@, new_meta.driver_id)
                        && final(self).drivers@ == updated_table(old(self).drivers@, new_meta),
                    Err(e) => e == AsdError::DriverNotFound && !has_record(old(self).drivers@, new_meta.driver_id)
                        && *final(self) == *old(self),
                },
            },
    {
        match Self::check_package(new_bytes, &new_meta.signer) {
            Ok(()) => {},
            Err(e) => return Err(e),
        }
        match self.find(new_meta.driver_id) {
            Some(i) => {
                proof { lemma_first_index(self.drivers@, new_meta.driver_id, i as int); }
                let old_rec = self.drivers[i].unwrap();
                self.drivers[i] = Some(DriverRecord {
                    meta: new_meta,
                    state: PackageState::Installed,
                    active_version: new_meta.version,
                    backup_version: Some(old_rec.active_version),
                });
                Ok(())
            },
            None => Err(AsdError::DriverNotFound),
        }
    }

    /// Restores the backup version of a driver.
    pub fn rollback_driver(&mut self, driver_id: u32) -> (r: Result<u16, AsdError>)
        ensures
            (r, final(self).drivers@) == rollback_result(old(self).drivers@, driver_id),
    {
        match self.find(driver_id) {
            Some(i) => {
                proof { lemma_first_index(self.drivers@, driver_id, i as int); }
                let rec = self.drivers[i].unwrap();
                match rec.backup_version {
                    Some(backup) => {
                        self.drivers[i] = Some(DriverRecord { state: PackageState::Installed, active_version: backup, backup_version: None, ..rec });
                        Ok(backup)
                    },
                    None => Err(AsdError::RollbackFailed),
                }
            },
            None => Err(AsdError::DriverNotFound),
        }
    }

    /// Quarantines a driver whose state allows it.
    pub fn quarantine_driver(&mut self, driver_id: u32) -> (r: Result<(), AsdError>)
        ensures
            match r {
                Ok(()) => exists|i: int| first_record(old(self).drivers@, driver_id, i)
                    && spec_package_transition(old(self).drivers@[i]->Some_0.state, PackageState::Quarantined)
                    && final(self).drivers@ == old(self).drivers@.update(i, Some(DriverRecord {
                        state: PackageState::Quarantined, ..old(self).drivers@[i]->Some_0 })),
                Err(e) => *final(self) == *old(self) && if has_record(old(self).drivers@, driver_id) {
                    e == AsdError::Quarantined && exists|i: int| first_record(old(self).drivers@, driver_id, i)
                        && !spec_package_transition(old(self).drivers@[i]->Some_0.state, PackageState::Quarantined)
                } else {
                    e == AsdError::DriverNotFound
                },
            },
    {
        match self.find(driver_id) {
            Some(i) => {
                let rec = self.drivers[i].unwrap();
                if package_transition(rec.state, PackageState::Quarantined) {
                    self.drivers[i] = Some(DriverRecord { state: PackageState::Quarantined, ..rec });
                    Ok(())
                } else {
                    Err(AsdError::Quarantined)
                }
            },
            None => Err(AsdError::DriverNotFound),
        }
    }

    /// Stages the first quarantined or failed record of a driver again.
    pub fn recover_driver(&mut self, driver_id: u32) -> (r: Result<(), AsdError>)
        ensures
            match r {
                Ok(()) => exists|i: int| 0 <= i < MAX_INSTALLED_DRIVERS && recoverable_is(old(self).drivers@[i], driver_id)
                    && (forall|j: int| 0 <= j < i ==> !recoverable_is(#[trigger] old(self).drivers@[j], driver_id))
                    && final(self).drivers@ == old(self).drivers@.update(i, Some(DriverRecord {
                        state: PackageState::Staged, ..old(self).drivers@[i]->Some_0 })),
                Err(e) => e == AsdError::DriverNotFound && *final(self) == *old(self)
                    && forall|j: int| 0 <= j < MAX_INSTALLED_DRIVERS ==> !recoverable_is(#[trigger] old(self).drivers@[j], driver_id),
            },
    {
        let mut i: usize = 0;
        while i < MAX_INSTALLED_DRIVERS
            invariant
                self.drivers@.len() == MAX_INSTALLED_DRIVERS,
                i <= MAX_INSTALLED_DRIVERS,
                *self == *old(self),
                forall|j: int| 0 <= j < i ==> !recoverable_is(#[trigger] self.drivers@[j], driver_id),
            decreases MAX_INSTALLED_DRIVERS - i,
        {
            if let Some(rec) = self.drivers[i] {
                if rec.meta.driver_id == driver_id {
                    if rec.state == PackageState::Quarantined || rec.state == PackageState::Failed {
                        assert(recoverable_is(self.drivers@[i as int], driver_id));
                        self.drivers[i] = Some(DriverRecord { state: PackageState::Staged, ..rec });
                        return Ok(());
                    }
                }
            }
            i += 1;
        }
        Err(AsdError::DriverNotFound)
    }

    pub fn get_record(&self, driver_id: u32) -> (r: Result<DriverRecord, AsdError>)
        ensures
            r == record_of(self.drivers@, driver_id),
    {
        match self.find(driver_id) {
            Some(i) => {
                proof { lemma_first_index(self.drivers@, driver_id, i as int); }
                Ok(self.drivers[i].unwrap())
            },
            None => Err(AsdError::DriverNotFound),
        }
    }
}

} // verus!

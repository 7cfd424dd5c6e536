//! Package image builders: the signed `.awos` package and the bare
//! section container, and the header summary of a package image.

use vstd::prelude::*;
use crate::bytes::{le16, le32, rd16, rd32, sum8, push_le16, push_le32, push_all, read_le16, read_le32, starts_with4,
    sum8_range, lemma_le16, lemma_le32};
use crate::appd::awos::{AwosHeader, AWOS_MAGIC, AWOS_HEADER_LEN, AWOS_MAX_DATA, awos_verdict};

verus! {

/// Largest manifest a signed package may carry.
pub const PACKAGE_MAX_MANIFEST: usize = 65536;
/// Largest code section a signed package may carry.
pub const PACKAGE_MAX_CODE: usize = 268435456;
/// Length of the detached signature block appended to a signed package.
pub const PACKAGE_SIGNATURE_LEN: usize = 64;
/// Length of the bare container's header.
pub const CONTAINER_HEADER_LEN: usize = 36;
/// Largest manifest the bare container accepts.
pub const CONTAINER_MAX_MANIFEST: usize = 8192;

#[derive(Clone, Copy, Debug, PartialEq, Eq, Structural)]
pub enum BuildError {
    /// A section is empty or larger than the format allows.
    InvalidBounds,
    /// The image is shorter than a header or does not start with the magic.
    InvalidHeader,
}

/// The signature block: the code's byte sum mixed with the signer key in
/// the first byte, zero elsewhere.
pub open spec fn package_signature(code: Seq<u8>, signer_key_id: u8) -> Seq<u8> {
    seq![sum8(code) ^ signer_key_id ^ 0xA5u8] + Seq::new(63, |i: int| 0u8)
}

/// The 32-byte header of a signed package: version 1, ABI 1.3, the section
/// lengths, a 64-byte signature, entry offset 0 and the GUI flag.
pub open spec fn package_header(manifest_len: nat, code_len: nat, data_len: nat) -> Seq<u8> {
    AWOS_MAGIC@ + le16(1) + le16(1) + le16(3) + le32(manifest_len as u32) + le32(code_len as u32)
        + le32(data_len as u32) + le16(64) + le32(0) + le32(1)
}

pub open spec fn package_bounds_ok(manifest: Seq<u8>, code: Seq<u8>) -> bool {
    manifest.len() <= PACKAGE_MAX_MANIFEST && code.len() > 0 && code.len() <= PACKAGE_MAX_CODE
}

/// The signed package image of the three sections.
pub open spec fn package_image(manifest: Seq<u8>, code: Seq<u8>, data: Seq<u8>, signer_key_id: u8) -> Seq<u8> {
    package_header(manifest.len(), code.len(), data.len()) + manifest + code + data
        + package_signature(code, signer_key_id)
}

/// Builds a signed `.awos` package from its sections: header, manifest,
/// code, data, then the signature block.
pub fn package_awos(manifest: &[u8], code: &[u8], data: &[u8], signer_key_id: u8) -> (r: Result<Vec<u8>, BuildError>)
    ensures
        !package_bounds_ok(manifest@, code@) ==> r == Err::<Vec<u8>, BuildError>(BuildError::InvalidBounds),
        package_bounds_ok(manifest@, code@) ==> r is Ok && r->Ok_0@ == package_image(manifest@, code@, data@, signer_key_id),
{
    if manifest.len() > PACKAGE_MAX_MANIFEST || code.len() == 0 || code.len() > PACKAGE_MAX_CODE {
        return Err(BuildError::InvalidBounds);
    }
    let sum = sum8_range(code, 0, code.len());
    assert(code@.subrange(0, code@.len() as int) =~= code@);
    let mut sig: Vec<u8> = Vec::new();
    sig.push(sum ^ signer_key_id ^ 0xA5u8);
    let mut k: usize = 1;
    while k < PACKAGE_SIGNATURE_LEN
        invariant
            1 <= k <= PACKAGE_SIGNATURE_LEN,
            sig@.len() == k,
            sig@[0] == sum ^ signer_key_id ^ 0xA5u8,
            forall|j: int| 1 <= j < k ==> sig@[j] == 0u8,
        decreases PACKAGE_SIGNATURE_LEN - k,
    {
        sig.push(0u8);
        k += 1;
    }
    assert(sig@ =~= package_signature(code@, signer_key_id));
    let mut out: Vec<u8> = Vec::new();
    out.push(AWOS_MAGIC[0]);
    out.push(AWOS_MAGIC[1]);
    out.push(AWOS_MAGIC[2]);
    out.push(AWOS_MAGIC[3]);
    assert(out@ =~= AWOS_MAGIC@);
    push_le16(&mut out, 1);
    push_le16(&mut out, 1);
    push_le16(&mut out, 3);
    push_le32(&mut out, manifest.len() as u32);
    push_le32(&mut out, code.len() as u32);
    push_le32(&mut out, data.len() as u32);
    push_le16(&mut out, 64);
    push_le32(&mut out, 0);
    push_le32(&mut out, 1);
    assert(out@ == package_header(manifest@.len(), code@.len(), data@.len()));
    push_all(&mut out, manifest);
    push_all(&mut out, code);
    push_all(&mut out, data);
    push_all(&mut out, sig.as_slice());
    Ok(out)
}

/// The 36-byte header of a bare section container: version 1, no flags,
/// ABI 1, the three section lengths, then no signature, entry 0, reserved 0.
pub open spec fn container_header(manifest_len: nat, code_len: nat, data_len: nat) -> Seq<u8> {
    AWOS_MAGIC@ + le16(1) + le16(0) + le32(1) + le32(manifest_len as u32) + le32(code_len as u32)
        + le32(data_len as u32) + le32(0) + le32(0) + le32(0)
}

pub open spec fn container_bounds_ok(manifest: Seq<u8>, code: Seq<u8>, data: Seq<u8>) -> bool {
    code.len() > 0 && manifest.len() <= CONTAINER_MAX_MANIFEST && code.len() <= u32::MAX && data.len() <= u32::MAX
}

/// Builds the bare container of the three sections, signature left to the
/// signing step.
pub fn build_container(manifest: &[u8], code: &[u8], data: &[u8]) -> (r: Result<Vec<u8>, BuildError>)
    ensures
        !container_bounds_ok(manifest@, code@, data@) ==> r == Err::<Vec<u8>, BuildError>(BuildError::InvalidBounds),
        container_bounds_ok(manifest@, code@, data@) ==> r is Ok
            && r->Ok_0@ == container_header(manifest@.len(), code@.len(), data@.len()) + manifest@ + code@ + data@,
{
    if code.len() == 0 || manifest.len() > CONTAINER_MAX_MANIFEST || code.len() as u64 > 0xffff_ffffu64
        || data.len() as u64 > 0xffff_ffffu64 {
        return Err(BuildError::InvalidBounds);
    }
    let mut out: Vec<u8> = Vec::new();
    out.push(AWOS_MAGIC[0]);
    out.push(AWOS_MAGIC[1]);
    out.push(AWOS_MAGIC[2]);
    out.push(AWOS_MAGIC[3]);
    assert(out@ =~= AWOS_MAGIC@);
    push_le16(&mut out, 1);
    push_le16(&mut out, 0);
    push_le32(&mut out, 1);
    push_le32(&mut out, manifest.len() as u32);
    push_le32(&mut out, code.len() as u32);
    push_le32(&mut out, data.len() as u32);
    push_le32(&mut out, 0);
    push_le32(&mut out, 0);
    push_le32(&mut out, 0);
    assert(out@ == container_header(manifest@.len(), code@.len(), data@.len()));
    push_all(&mut out, manifest);
    push_all(&mut out, code);
    push_all(&mut out, data);
    Ok(out)
}

/// Section sizes read from a package header.
#[derive(Clone, Copy, Debug, PartialEq, Eq, Structural)]
pub struct PackageSummary {
    pub manifest_len: u32,
    pub code_len: u32,
    pub data_len: u32,
    pub signature_len: u16,
    pub total_len: usize,
}

/// Reads the section sizes of a signed package image whose header is
/// present and starts with the magic.
pub fn inspect_package(bytes: &[u8]) -> (r: Result<PackageSummary, BuildError>)
    ensures
        bytes@.len() < AWOS_HEADER_LEN || bytes@.subrange(0, 4) != AWOS_MAGIC@
            ==> r == Err::<PackageSummary, BuildError>(BuildError::InvalidHeader),
        bytes@.len() >= AWOS_HEADER_LEN && bytes@.subrange(0, 4) == AWOS_MAGIC@ ==> r == Ok::<PackageSummary, BuildError>(
            PackageSummary {
                manifest_len: rd32(bytes@, 10),
                code_len: rd32(bytes@, 14),
                data_len: rd32(bytes@, 18),
                signature_len: rd16(bytes@, 22),
                total_len: bytes@.len() as usize,
            },
        ),
{
    if bytes.len() < AWOS_HEADER_LEN || !starts_with4(bytes, AWOS_MAGIC) {
        return Err(BuildError::InvalidHeader);
    }
    Ok(PackageSummary {
        manifest_len: read_le32(bytes, 10),
        code_len: read_le32(bytes, 14),
        data_len: read_le32(bytes, 18),
        signature_len: read_le16(bytes, 22),
        total_len: bytes.len(),
    })
}

/// A package that `package_awos` builds, with a data section within the
/// format's limit, passes package validation, and its header reports the
/// sections it was built from.
pub proof fn lemma_built_package_validates(manifest: Seq<u8>, code: Seq<u8>, data: Seq<u8>, signer_key_id: u8)
    requires
        package_bounds_ok(manifest, code),
        data.len() <= AWOS_MAX_DATA,
    ensures
        awos_verdict(package_image(manifest, code, data, signer_key_id)) == Ok::<AwosHeader, crate::appd::awos::AwosError>(
            AwosHeader {
                version: 1,
                abi_major: 1,
                abi_minor: 3,
                manifest_len: manifest.len() as u32,
                code_len: code.len() as u32,
                data_len: data.len() as u32,
                signature_len: 64,
                entry_offset: 0,
                flags: 1,
            },
        ),
{
    let s = package_image(manifest, code, data, signer_key_id);
    let h = package_header(manifest.len(), code.len(), data.len());
    assert(h.len() == 32);
    assert(s.subrange(0, 32) =~= h);
    assert(s.subrange(0, 4) =~= AWOS_MAGIC@);
    assert(s.subrange(4, 6) =~= le16(1));
    assert(s.subrange(6, 8) =~= le16(1));
    assert(s.subrange(8, 10) =~= le16(3));
    assert(s.subrange(10, 14) =~= le32(manifest.len() as u32));
    assert(s.subrange(14, 18) =~= le32(code.len() as u32));
    assert(s.subrange(18, 22) =~= le32(data.len() as u32));
    assert(s.subrange(22, 24) =~= le16(64));
    assert(s.subrange(24, 28) =~= le32(0));
    assert(s.subrange(28, 32) =~= le32(1));
    lemma_le16(1, s, 4);
    lemma_le16(1, s, 6);
    lemma_le16(3, s, 8);
    lemma_le32(manifest.len() as u32, s, 10);
    lemma_le32(code.len() as u32, s, 14);
    lemma_le32(data.len() as u32, s, 18);
    lemma_le16(64, s, 22);
    lemma_le32(0, s, 24);
    lemma_le32(1, s, 28);
    assert(1u32 & !3u32 == 0) by (bit_vector);
}

} // verus!

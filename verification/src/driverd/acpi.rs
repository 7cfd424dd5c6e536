//! Strict ACPI system-description-table parsing: bounds, length and checksum.

use vstd::prelude::*;
use crate::bytes::{rd32, read_le32, sum8, sum8_range};

verus! {

#[derive(Clone, Copy, Debug, PartialEq, Eq)]
pub struct SdtHeader {
    pub signature: [u8; 4],
    pub length: u32,
    pub revision: u8,
    pub checksum: u8,
}

#[derive(Clone, Copy, Debug, PartialEq, Eq)]
pub struct AcpiTableRef {
    pub signature: [u8; 4],
    pub address: u64,
    pub length: u32,
}

#[derive(Clone, Copy, Debug, PartialEq, Eq, Structural)]
pub enum AcpiError {
    TooShort,
    BadChecksum,
    InvalidLength,
    TableOverflow,
}

/// An ACPI structure is valid when its bytes sum to zero modulo 256.
pub fn checksum_ok(bytes: &[u8]) -> (r: bool)
    ensures
        r == (sum8(bytes@) == 0),
{
    let sum = sum8_range(bytes, 0, bytes.len());
    assert(bytes@.subrange(0, bytes@.len() as int) =~= bytes@);
    sum == 0
}

pub open spec fn header_verdict(s: Seq<u8>) -> Result<SdtHeader, AcpiError> {
    if s.len() < 10 {
        Err(AcpiError::TooShort)
    } else if rd32(s, 4) < 10 {
        Err(AcpiError::InvalidLength)
    } else if rd32(s, 4) > s.len() {
        Err(AcpiError::TableOverflow)
    } else if sum8(s.subrange(0, rd32(s, 4) as int)) != 0 {
        Err(AcpiError::BadChecksum)
    } else {
        Ok(SdtHeader { signature: [s[0], s[1], s[2], s[3]], length: rd32(s, 4), revision: s[8], checksum: s[9] })
    }
}

pub fn parse_header(bytes: &[u8]) -> (r: Result<SdtHeader, AcpiError>)
    ensures
        r == header_verdict(bytes@),
{
    if bytes.len() < 10 {
        return Err(AcpiError::TooShort);
    }
    let length = read_le32(bytes, 4);
    if length < 10 {
        return Err(AcpiError::InvalidLength);
    }
    if length as usize > bytes.len() {
        return Err(AcpiError::TableOverflow);
    }
    if sum8_range(bytes, 0, length as usize) != 0 {
        return Err(AcpiError::BadChecksum);
    }
    Ok(SdtHeader { signature: [bytes[0], bytes[1], bytes[2], bytes[3]], length, revision: bytes[8], checksum: bytes[9] })
}

/// The entries of `s` whose signature is `sig`, in order.
pub open spec fn matching(s: Seq<AcpiTableRef>, sig: [u8; 4]) -> Seq<AcpiTableRef>
    decreases s.len(),
{
    if s.len() == 0 {
        Seq::empty()
    } else if s.last().signature@ == sig@ {
        matching(s.drop_last(), sig).push(s.last())
    } else {
        matching(s.drop_last(), sig)
    }
}

pub proof fn lemma_matching_prefix(s: Seq<AcpiTableRef>, sig: [u8; 4], i: int, j: int)
    requires
        0 <= i <= j <= s.len(),
    ensures
        matching(s.take(i), sig).len() <= matching(s.take(j), sig).len(),
        matching(s.take(i), sig) == matching(s.take(j), sig).take(matching(s.take(i), sig).len() as int),
    decreases j - i,
{
    if i < j {
        lemma_matching_prefix(s, sig, i, j - 1);
        assert(s.take(j).drop_last() =~= s.take(j - 1));
        let a = matching(s.take(i), sig);
        let b = matching(s.take(j - 1), sig);
        assert(matching(s.take(j), sig).take(b.len() as int) =~= b);
        assert(b.take(a.len() as int) =~= a);
        assert(matching(s.take(j), sig).take(a.len() as int) =~= a);
    } else {
        assert(matching(s.take(i), sig).take(matching(s.take(i), sig).len() as int) =~= matching(s.take(i), sig));
    }
}

fn sig_eq(a: [u8; 4], b: [u8; 4]) -> (r: bool)
    ensures
        r == (a@ == b@),
{
    let r = a[0] == b[0] && a[1] == b[1] && a[2] == b[2] && a[3] == b[3];
    if r {
        assert(a@ =~= b@);
    } else {
        assert(a@ != b@) by {
            if a@ == b@ {
                assert(a@[0] == b@[0] && a@[1] == b@[1] && a@[2] == b@[2] && a@[3] == b@[3]);
            }
        }
    }
    r
}

/// Copies the first `N` tables with signature `signature` into `out` (in
/// order) and returns how many were copied; other slots are left alone.
pub fn find_table<const N: usize>(entries: &[AcpiTableRef], signature: [u8; 4], out: &mut [Option<AcpiTableRef>; N]) -> (count: usize)
    ensures
        count == if matching(entries@, signature).len() < N { matching(entries@, signature).len() } else { N as nat },
        forall|k: int| 0 <= k < count ==> #[trigger] final(out)@[k] == Some(matching(entries@, signature)[k]),
        forall|k: int| count <= k < N ==> #[trigger] final(out)@[k] == old(out)@[k],
{
    let mut count: usize = 0;
    let mut i: usize = 0;
    assert(entries@.take(0) =~= Seq::<AcpiTableRef>::empty());
    while i < entries.len() && count < N
        invariant
            i <= entries@.len(),
            count <= N,
            out@.len() == N,
            count == matching(entries@.take(i as int), signature).len(),
            forall|k: int| 0 <= k < count ==> #[trigger] out@[k] == Some(matching(entries@.take(i as int), signature)[k]),
            forall|k: int| count <= k < N ==> #[trigger] out@[k] == old(out)@[k],
        decreases entries@.len() - i,
    {
        assert(entries@.take(i + 1).drop_last() =~= entries@.take(i as int));
        if sig_eq(entries[i].signature, signature) {
            out[count] = Some(entries[i]);
            count += 1;
        }
        i += 1;
    }
    proof {
        lemma_matching_prefix(entries@, signature, i as int, entries@.len() as int);
        assert(entries@.take(entries@.len() as int) =~= entries@);
    }
    count
}

#[derive(Clone, Copy, Debug, PartialEq, Eq, Structural)]
pub struct MadtRecord {
    pub local_apic_address: u32,
    pub flags: u32,
    pub record_count: u16,
}

pub fn parse_madt(body: &[u8]) -> (r: Result<MadtRecord, AcpiError>)
    ensures
        r == if body@.len() < 8 {
            Err(AcpiError::TooShort)
        } else {
            Ok(MadtRecord { local_apic_address: rd32(body@, 0), flags: rd32(body@, 4), record_count: 0 })
        },
{
    if body.len() < 8 {
        return Err(AcpiError::TooShort);
    }
    Ok(MadtRecord { local_apic_address: read_le32(body, 0), flags: read_le32(body, 4), record_count: 0 })
}

} // verus!

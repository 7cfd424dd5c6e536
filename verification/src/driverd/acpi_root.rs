//! ACPI root pointer (RSDP) and table-directory validation.

use vstd::prelude::*;
use crate::bytes::{rd32, rd64, read_le32, read_le64, sum8, sum8_range};

verus! {

#[derive(Clone, Copy, Debug, PartialEq, Eq, Structural)]
pub enum RsdpError {
    TooShort,
    BadSignature,
    BadChecksum,
    BadLength,
}

#[derive(Clone, Copy, Debug, PartialEq, Eq, Structural)]
pub struct RsdpInfo {
    pub revision: u8,
    pub rsdt_address: u32,
    pub xsdt_address: u64,
    pub length: u32,
}

/// "RSD PTR "
pub open spec fn rsdp_signature() -> Seq<u8> {
    seq![0x52u8, 0x53u8, 0x44u8, 0x20u8, 0x50u8, 0x54u8, 0x52u8, 0x20u8]
}

/// The verdict on a root pointer: ACPI 1.0 (revision < 2) covers 20 bytes;
/// later revisions carry a length, an extended checksum and the XSDT address.
pub open spec fn rsdp_verdict(s: Seq<u8>) -> Result<RsdpInfo, RsdpError> {
    if s.len() < 20 {
        Err(RsdpError::TooShort)
    } else if s.subrange(0, 8) != rsdp_signature() {
        Err(RsdpError::BadSignature)
    } else if sum8(s.subrange(0, 20)) != 0 {
        Err(RsdpError::BadChecksum)
    } else if s[15] < 2 {
        Ok(RsdpInfo { revision: s[15], rsdt_address: rd32(s, 16), xsdt_address: 0, length: 20 })
    } else if s.len() < 36 {
        Err(RsdpError::TooShort)
    } else if rd32(s, 20) < 36 || rd32(s, 20) > s.len() {
        Err(RsdpError::BadLength)
    } else if sum8(s.subrange(0, rd32(s, 20) as int)) != 0 {
        Err(RsdpError::BadChecksum)
    } else {
        Ok(RsdpInfo { revision: s[15], rsdt_address: rd32(s, 16), xsdt_address: rd64(s, 24), length: rd32(s, 20) })
    }
}

pub fn validate_rsdp(bytes: &[u8]) -> (r: Result<RsdpInfo, RsdpError>)
    ensures
        r == rsdp_verdict(bytes@),
{
    if bytes.len() < 20 {
        return Err(RsdpError::TooShort);
    }
    let sig: [u8; 8] = [0x52, 0x53, 0x44, 0x20, 0x50, 0x54, 0x52, 0x20];
    let mut k: usize = 0;
    while k < 8
        invariant
            bytes@.len() >= 20,
            k <= 8,
            sig@ == rsdp_signature(),
            forall|j: int| 0 <= j < k ==> bytes@[j] == sig@[j],
        decreases 8 - k,
    {
        if bytes[k] != sig[k] {
            assert(bytes@.subrange(0, 8)[k as int] != rsdp_signature()[k as int]);
            return Err(RsdpError::BadSignature);
        }
        k += 1;
    }
    assert(bytes@.subrange(0, 8) =~= rsdp_signature());
    if sum8_range(bytes, 0, 20) != 0 {
        return Err(RsdpError::BadChecksum);
    }
    let revision = bytes[15];
    let rsdt_address = read_le32(bytes, 16);
    if revision < 2 {
        return Ok(RsdpInfo { revision, rsdt_address, xsdt_address: 0, length: 20 });
    }
    if bytes.len() < 36 {
        return Err(RsdpError::TooShort);
    }
    let length = read_le32(bytes, 20);
    if length < 36 || length as usize > bytes.len() {
        return Err(RsdpError::BadLength);
    }
    if sum8_range(bytes, 0, length as usize) != 0 {
        return Err(RsdpError::BadChecksum);
    }
    let xsdt_address = read_le64(bytes, 24);
    Ok(RsdpInfo { revision, rsdt_address, xsdt_address, length })
}

/// Entry `i` of a directory of `entry_size`-byte little-endian addresses.
pub open spec fn pointer_entry(s: Seq<u8>, entry_size: int, i: int) -> u64 {
    if entry_size == 4 { rd32(s, i * 4) as u64 } else { rd64(s, i * 8) }
}

/// Decodes up to `N` table addresses (4 or 8 bytes each) into `out`.
pub fn parse_pointer_table<const N: usize>(bytes: &[u8], entry_size: usize, out: &mut [u64; N]) -> (r: Result<usize, RsdpError>)
    ensures
        match r {
            Ok(count) => (entry_size == 4 || entry_size == 8) && (bytes@.len() as int) % (entry_size as int) == 0
                && count == if (bytes@.len() as int) / (entry_size as int) < N { (bytes@.len() as int) / (entry_size as int) } else { N as int }
                && (forall|i: int| 0 <= i < count ==> #[trigger] final(out)@[i] == pointer_entry(bytes@, entry_size as int, i))
                && (forall|i: int| count <= i < N ==> #[trigger] final(out)@[i] == old(out)@[i]),
            Err(e) => e == RsdpError::BadLength && *final(out) == *old(out)
                && (!(entry_size == 4 || entry_size == 8) || (bytes@.len() as int) % (entry_size as int) != 0),
        },
{
    if entry_size != 4 && entry_size != 8 {
        return Err(RsdpError::BadLength);
    }
    if bytes.len() % entry_size != 0 {
        return Err(RsdpError::BadLength);
    }
    let n = bytes.len() / entry_size;
    let count = if n < N { n } else { N };
    let mut i: usize = 0;
    while i < count
        invariant
            entry_size == 4 || entry_size == 8,
            count <= n,
            n == (bytes@.len() as int) / (entry_size as int),
            count <= N,
            out@.len() == N,
            i <= count,
            forall|k: int| 0 <= k < i ==> #[trigger] out@[k] == pointer_entry(bytes@, entry_size as int, k),
            forall|k: int| i <= k < N ==> #[trigger] out@[k] == old(out)@[k],
        decreases count - i,
    {
        assert(i * entry_size + entry_size <= bytes@.len()) by (nonlinear_arith)
            requires i < n, n == (bytes@.len() as int) / (entry_size as int), entry_size > 0;
        assert(bytes@.len() == bytes.len());
        let base = i * entry_size;
        out[i] = if entry_size == 4 { read_le32(bytes, base) as u64 } else { read_le64(bytes, base) };
        i += 1;
    }
    Ok(count)
}

} // verus!

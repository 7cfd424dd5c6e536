//! Bounded PCI configuration-space enumeration and BAR validation.
//! Hardware access comes from a platform backend; decoding and the device
//! table are deterministic and allocation-free.

use vstd::prelude::*;

verus! {

#[derive(Clone, Copy, Debug, PartialEq, Eq, Structural)]
pub struct PciLocation {
    pub bus: u8,
    pub device: u8,
    pub function: u8,
}

#[derive(Clone, Copy, Debug, PartialEq, Eq, Structural)]
pub struct PciDevice {
    pub location: PciLocation,
    pub vendor_id: u16,
    pub device_id: u16,
    pub class: u8,
    pub subclass: u8,
    pub prog_if: u8,
    pub header_type: u8,
    pub interrupt_line: u8,
}

/// Configuration-space reads, supplied by a platform backend.
pub trait PciConfigAccess {
    /// The configuration word the backend reports at `offset` of `location`.
    spec fn config_word(&self, location: PciLocation, offset: u8) -> u32;

    fn read_u32(&self, location: PciLocation, offset: u8) -> (r: u32)
        ensures
            r == self.config_word(location, offset);
}

/// The configuration-mechanism-1 address word for a register: enable bit,
/// bus, device, function and the dword-aligned offset.
pub open spec fn spec_config_address(location: PciLocation, offset: u8) -> u32 {
    (0x8000_0000u32 | ((location.bus as u32) << 16u32) | ((location.device as u32) << 11u32)
        | ((location.function as u32) << 8u32) | ((offset & 0xFCu8) as u32)) as u32
}

/// The address word written to the configuration address port before a
/// 32-bit configuration read.
pub fn config_address(location: PciLocation, offset: u8) -> (r: u32)
    ensures
        r == spec_config_address(location, offset),
        r & 0x8000_0000 != 0,
        r & 3 == 0,
{
    let aligned = offset & 0xFC;
    let r = 0x8000_0000u32 | ((location.bus as u32) << 16) | ((location.device as u32) << 11)
        | ((location.function as u32) << 8) | aligned as u32;
    let b = location.bus as u32;
    let d = location.device as u32;
    let f = location.function as u32;
    let a = aligned as u32;
    assert(a & 3 == 0 && a <= 0xFC) by (bit_vector)
        requires a == (offset & 0xFCu8) as u32;
    assert((0x8000_0000u32 | (b << 16u32) | (d << 11u32) | (f << 8u32) | a) & 0x8000_0000 != 0) by (bit_vector);
    assert(b <= 0xff && d <= 0xff && f <= 0xff && a & 3 == 0 ==> (0x8000_0000u32 | (b << 16u32) | (d << 11u32) | (f << 8u32) | a) & 3 == 0) by (bit_vector);
    r
}

#[derive(Clone, Copy, Debug, PartialEq, Eq, Structural)]
pub enum PciBarKind {
    Memory32,
    Memory64,
    Io,
}

#[derive(Clone, Copy, Debug, PartialEq, Eq, Structural)]
pub struct PciBar {
    pub index: u8,
    pub kind: PciBarKind,
    pub base: u64,
    pub size: u64,
    pub prefetchable: bool,
}

#[derive(Clone, Copy, Debug, PartialEq, Eq, Structural)]
pub enum PciBarError {
    InvalidIndex,
    InvalidSize,
    MisalignedBase,
    Overflow,
    Unsupported64BitPair,
}

/// A non-zero value with exactly one bit set.
pub open spec fn single_bit(size: u64) -> bool {
    size != 0 && size & ((size - 1) as u64) == 0
}

/// The BAR described by `value` and the all-ones `probe` read-back
/// (with the upper half of a 64-bit pair in `upper`).
pub open spec fn bar_verdict(index: u8, value: u32, probe: u32, upper: Option<(u32, u32)>) -> Result<PciBar, PciBarError> {
    if index >= 6 {
        Err(PciBarError::InvalidIndex)
    } else if value & 1 != 0 {
        let base = (value & 0xFFFF_FFFCu32) as u64;
        let mask = probe & 0xFFFF_FFFCu32;
        let size = ((!mask) + 1) as u64;
        if mask == 0 || !single_bit(size) {
            Err(PciBarError::InvalidSize)
        } else if base % size != 0 {
            Err(PciBarError::MisalignedBase)
        } else {
            Ok(PciBar { index, kind: PciBarKind::Io, base, size, prefetchable: false })
        }
    } else {
        let mem_type = (value >> 1u32) & 3u32;
        let low_base = (value & 0xFFFF_FFF0u32) as u64;
        let low_mask = probe & 0xFFFF_FFF0u32;
        if low_mask == 0 {
            Err(PciBarError::InvalidSize)
        } else if mem_type != 0 && mem_type != 2 {
            Err(PciBarError::InvalidSize)
        } else if mem_type == 2 && upper is None {
            Err(PciBarError::Unsupported64BitPair)
        } else {
            let pair = upper.unwrap();
            let base: u64 = if mem_type == 0 { low_base } else { ((pair.0 as u64) << 32u64) | low_base };
            let mask: u64 = if mem_type == 0 {
                0xFFFF_FFFF_0000_0000u64 | (low_mask as u64)
            } else {
                ((pair.1 as u64) << 32u64) | (low_mask as u64)
            };
            let size = ((!mask) + 1) as u64;
            if !single_bit(size) {
                Err(PciBarError::InvalidSize)
            } else if base % size != 0 {
                Err(PciBarError::MisalignedBase)
            } else if base + (size - 1) > u64::MAX {
                Err(PciBarError::Overflow)
            } else {
                Ok(PciBar {
                    index,
                    kind: if mem_type == 2 { PciBarKind::Memory64 } else { PciBarKind::Memory32 },
                    base,
                    size,
                    prefetchable: value & 8 != 0,
                })
            }
        }
    }
}

/// Decodes a PCI BAR from its value and the probe mask read back after
/// writing all ones to it. The caller owns the hardware write/read sequence.
pub fn decode_bar(index: u8, value: u32, probe: u32, upper: Option<(u32, u32)>) -> (r: Result<PciBar, PciBarError>)
    ensures
        r == bar_verdict(index, value, probe, upper),
{
    if index >= 6 {
        return Err(PciBarError::InvalidIndex);
    }
    if (value & 1) != 0 {
        let base = (value & 0xFFFF_FFFC) as u64;
        let mask_32 = probe & 0xFFFF_FFFC;
        if mask_32 == 0 {
            return Err(PciBarError::InvalidSize);
        }
        assert(!mask_32 < 0xFFFF_FFFFu32) by (bit_vector)
            requires mask_32 != 0u32;
        let size = ((!mask_32) + 1) as u64;
        if size == 0 || (size & (size - 1)) != 0 {
            return Err(PciBarError::InvalidSize);
        }
        if base % size != 0 {
            return Err(PciBarError::MisalignedBase);
        }
        return Ok(PciBar { index, kind: PciBarKind::Io, base, size, prefetchable: false });
    }
    let mem_type = (value >> 1) & 0x3;
    let prefetchable = (value & 0x8) != 0;
    let low_base = (value & 0xFFFF_FFF0) as u64;
    let low_mask_32 = probe & 0xFFFF_FFF0;
    if low_mask_32 == 0 {
        return Err(PciBarError::InvalidSize);
    }
    let lm = low_mask_32 as u64;
    let base: u64;
    let mask: u64;
    if mem_type == 0 {
        base = low_base;
        mask = 0xFFFF_FFFF_0000_0000u64 | lm;
        assert(mask != 0) by (bit_vector)
            requires mask == 0xFFFF_FFFF_0000_0000u64 | lm;
    } else if mem_type == 2 {
        match upper {
            Some((upper_value, upper_probe)) => {
                base = ((upper_value as u64) << 32u64) | low_base;
                mask = ((upper_probe as u64) << 32u64) | lm;
                let up = upper_probe as u64;
                assert(mask != 0) by (bit_vector)
                    requires mask == (up << 32u64) | lm, lm != 0;
            },
            None => {
                return Err(PciBarError::Unsupported64BitPair);
            },
        }
    } else {
        return Err(PciBarError::InvalidSize);
    }
    assert(!mask < 0xFFFF_FFFF_FFFF_FFFFu64) by (bit_vector)
        requires mask != 0;
    let size = (!mask) + 1;
    if (size & (size - 1)) != 0 {
        return Err(PciBarError::InvalidSize);
    }
    if base % size != 0 {
        return Err(PciBarError::MisalignedBase);
    }
    match base.checked_add(size - 1) {
        None => {
            return Err(PciBarError::Overflow);
        },
        Some(_) => {},
    }
    Ok(PciBar {
        index,
        kind: if mem_type == 2 { PciBarKind::Memory64 } else { PciBarKind::Memory32 },
        base,
        size,
        prefetchable,
    })
}

#[derive(Clone, Copy, Debug, PartialEq, Eq, Structural)]
pub enum PciError {
    Full,
}

/// A bounded, append-only table of discovered devices.
pub struct PciDeviceTable<const N: usize> {
    entries: [Option<PciDevice>; N],
    len: usize,
}

impl<const N: usize> PciDeviceTable<N> {
    #[verifier::type_invariant]
    closed spec fn table_inv(self) -> bool {
        &&& self.len <= N
        &&& forall|i: int| 0 <= i < self.len ==> (#[trigger] self.entries@[i]) is Some
    }

    /// The devices in the order they were added.
    pub closed spec fn devices(self) -> Seq<PciDevice> {
        Seq::new(self.len as nat, |i: int| self.entries@[i]->0)
    }

    pub fn new() -> (t: Self)
        ensures
            t.devices() == Seq::<PciDevice>::empty(),
    {
        let t = PciDeviceTable { entries: [None; N], len: 0 };
        assert(t.devices() =~= Seq::<PciDevice>::empty());
        t
    }

    pub fn len(&self) -> (r: usize)
        ensures
            r == self.devices().len(),
            r <= N,
    {
        proof { use_type_invariant(self); }
        self.len
    }

    pub fn push(&mut self, device: PciDevice) -> (r: Result<(), PciError>)
        ensures
            old(self).devices().len() <= N,
            old(self).devices().len() == N ==> r == Err::<(), PciError>(PciError::Full) && final(self).devices() == old(self).devices(),
            old(self).devices().len() < N ==> r == Ok::<(), PciError>(()) && final(self).devices() == old(self).devices().push(device),
    {
        proof { use_type_invariant(&*self); }
        if self.len == N {
            return Err(PciError::Full);
        }
        let ghost before = self.devices();
        self.entries[self.len] = Some(device);
        self.len = self.len + 1;
        assert(self.devices() =~= before.push(device));
        Ok(())
    }

    pub fn get(&self, index: usize) -> (r: Option<PciDevice>)
        ensures
            r == (if index < self.devices().len() { Some(self.devices()[index as int]) } else { None::<PciDevice> }),
    {
        proof { use_type_invariant(self); }
        if index >= self.len {
            None
        } else {
            self.entries[index]
        }
    }
}

impl<const N: usize> Default for PciDeviceTable<N> {
    fn default() -> (t: Self)
        ensures
            t.devices() == Seq::<PciDevice>::empty(),
    {
        Self::new()
    }
}

/// A configuration identity word with a vendor other than the all-ones "absent" value.
pub open spec fn word_present(id: u32) -> bool {
    id & 0xFFFF != 0xFFFF
}

/// The device record assembled from the configuration words of one function.
pub open spec fn device_record(location: PciLocation, vendor_device: u32, class_word: u32, header_word: u32, irq_word: u32) -> PciDevice {
    PciDevice {
        location,
        vendor_id: vendor_device as u16,
        device_id: (vendor_device >> 16u32) as u16,
        class: (class_word >> 24u32) as u8,
        subclass: (class_word >> 16u32) as u8,
        prog_if: (class_word >> 8u32) as u8,
        header_type: (header_word >> 16u32) as u8,
        interrupt_line: irq_word as u8,
    }
}

/// The little-endian 32-bit register holding bytes `b0` (offset 0) to `b3` (offset 3).
pub open spec fn le_register(b0: u8, b1: u8, b2: u8, b3: u8) -> u32 {
    (b0 + b1 * 0x100 + b2 * 0x1_0000 + b3 * 0x100_0000) as u32
}

/// A device record takes its fields from the register bytes at the PCI
/// layout's places: vendor id from bytes 0-1 and device id from bytes 2-3
/// of the identity register (offset 0x00); prog-if, subclass and class from
/// bytes 1, 2 and 3 of the class register (offset 0x08); the header type
/// from byte 2 of the register at offset 0x0C; the interrupt line from
/// byte 0 of the register at offset 0x3C.
pub proof fn lemma_device_record_fields(
    location: PciLocation,
    id: (u8, u8, u8, u8),
    class: (u8, u8, u8, u8),
    header: (u8, u8, u8, u8),
    irq: (u8, u8, u8, u8),
)
    ensures
        ({
            let d = device_record(
                location,
                le_register(id.0, id.1, id.2, id.3),
                le_register(class.0, class.1, class.2, class.3),
                le_register(header.0, header.1, header.2, header.3),
                le_register(irq.0, irq.1, irq.2, irq.3),
            );
            &&& d.location == location
            &&& d.vendor_id == id.0 + id.1 * 0x100
            &&& d.device_id == id.2 + id.3 * 0x100
            &&& d.prog_if == class.1
            &&& d.subclass == class.2
            &&& d.class == class.3
            &&& d.header_type == header.2
            &&& d.interrupt_line == irq.0
        }),
{
    lemma_register_bytes(id.0, id.1, id.2, id.3);
    lemma_register_bytes(class.0, class.1, class.2, class.3);
    lemma_register_bytes(header.0, header.1, header.2, header.3);
    lemma_register_bytes(irq.0, irq.1, irq.2, irq.3);
}

proof fn lemma_register_bytes(b0: u8, b1: u8, b2: u8, b3: u8)
    ensures
        ({
            let w = le_register(b0, b1, b2, b3);
            &&& w as u8 == b0
            &&& (w >> 8u32) as u8 == b1
            &&& (w >> 16u32) as u8 == b2
            &&& (w >> 24u32) as u8 == b3
            &&& w as u16 == b0 + b1 * 0x100
            &&& (w >> 16u32) as u16 == b2 + b3 * 0x100
        }),
{
    let w = le_register(b0, b1, b2, b3);
    assert(w == (b0 + b1 * 0x100 + b2 * 0x1_0000 + b3 * 0x100_0000) as u32);
    assert(b0 + b1 * 0x100 + b2 * 0x1_0000 + b3 * 0x100_0000 <= u32::MAX);
    assert({
        &&& w as u8 == b0
        &&& (w >> 8u32) as u8 == b1
        &&& (w >> 16u32) as u8 == b2
        &&& (w >> 24u32) as u8 == b3
        &&& w as u16 == b0 + b1 * 0x100
        &&& (w >> 16u32) as u16 == b2 + b3 * 0x100
    }) by (bit_vector)
        requires w == b0 + b1 * 0x100 + b2 * 0x1_0000 + b3 * 0x100_0000;
}

pub fn device_from_words(location: PciLocation, vendor_device: u32, class_word: u32, header_word: u32, irq_word: u32) -> (d: PciDevice)
    ensures
        d == device_record(location, vendor_device, class_word, header_word, irq_word),
{
    PciDevice {
        location,
        vendor_id: vendor_device as u16,
        device_id: (vendor_device >> 16) as u16,
        class: (class_word >> 24) as u8,
        subclass: (class_word >> 16) as u8,
        prog_if: (class_word >> 8) as u8,
        header_type: (header_word >> 16) as u8,
        interrupt_line: irq_word as u8,
    }
}

/// Function count of a present slot: eight when the header marks it multi-function.
pub open spec fn slot_functions(header_word: u32) -> u8 {
    if ((header_word >> 16u32) as u8) & 0x80u8 != 0 { 8 } else { 1 }
}

/// Bus `b`, slot `s`, function `f`.
pub open spec fn loc_of(b: int, s: int, f: int) -> PciLocation {
    PciLocation { bus: b as u8, device: s as u8, function: f as u8 }
}

/// What probing function `f` of slot `s` on bus `b` finds: the device
/// record of the function when its slot is present, the function is within
/// the slot's function count, and the function itself is present.
pub open spec fn probe<C: PciConfigAccess>(a: &C, b: int, s: int, f: int) -> Seq<PciDevice> {
    let l0 = loc_of(b, s, 0);
    let l = loc_of(b, s, f);
    let id = a.config_word(l, 0x00);
    if word_present(a.config_word(l0, 0x00)) && f < slot_functions(a.config_word(l0, 0x0C)) && word_present(id) {
        seq![device_record(l, id, a.config_word(l, 0x08), a.config_word(l, 0x0C), a.config_word(l, 0x3C))]
    } else {
        Seq::empty()
    }
}

/// The devices found at the first `k` probe positions, in scan order:
/// position `k` is bus `k / 256`, slot `(k / 8) % 32`, function `k % 8`.
pub open spec fn scan_upto<C: PciConfigAccess>(a: &C, k: int) -> Seq<PciDevice>
    decreases k,
{
    if k <= 0 {
        Seq::empty()
    } else {
        scan_upto(a, k - 1) + probe(a, (k - 1) / 256, ((k - 1) / 8) % 32, (k - 1) % 8)
    }
}

/// Every device of the configuration space, in scan order.
pub open spec fn pci_scan<C: PciConfigAccess>(a: &C) -> Seq<PciDevice> {
    scan_upto(a, 65536)
}

/// Every device the scan finds is present and is read from its own
/// location's registers at the PCI offsets: identity at 0x00, class at
/// 0x08, header at 0x0C and interrupt line at 0x3C; its location is a valid
/// bus, slot (below 32) and function (below 8).
pub proof fn lemma_scan_devices<C: PciConfigAccess>(a: &C, k: int)
    ensures
        forall|j: int| 0 <= j < scan_upto(a, k).len() ==> {
            let d = #[trigger] scan_upto(a, k)[j];
            let l = d.location;
            &&& l.device < 32 && l.function < 8
            &&& word_present(a.config_word(l, 0x00))
            &&& d == device_record(l, a.config_word(l, 0x00), a.config_word(l, 0x08), a.config_word(l, 0x0C), a.config_word(l, 0x3C))
        },
    decreases k,
{
    if k > 0 {
        lemma_scan_devices(a, k - 1);
        let prev = scan_upto(a, k - 1);
        let p = probe(a, (k - 1) / 256, ((k - 1) / 8) % 32, (k - 1) % 8);
        assert(scan_upto(a, k) == prev + p);
        assert forall|j: int| 0 <= j < scan_upto(a, k).len() implies {
            let d = #[trigger] scan_upto(a, k)[j];
            let l = d.location;
            &&& l.device < 32 && l.function < 8
            &&& word_present(a.config_word(l, 0x00))
            &&& d == device_record(l, a.config_word(l, 0x00), a.config_word(l, 0x08), a.config_word(l, 0x0C), a.config_word(l, 0x3C))
        } by {
            if j < prev.len() {
                assert(scan_upto(a, k)[j] == prev[j]);
            } else {
                assert(scan_upto(a, k)[j] == p[j - prev.len()]);
                let l = loc_of((k - 1) / 256, ((k - 1) / 8) % 32, (k - 1) % 8);
                assert((((k - 1) / 8) % 32) as u8 == ((k - 1) / 8) % 32);
                assert(((k - 1) % 8) as u8 == (k - 1) % 8);
            }
        }
    }
}

proof fn lemma_index(b: int, s: int, f: int)
    requires
        0 <= b,
        0 <= s < 32,
        0 <= f < 8,
    ensures
        (b * 256 + s * 8 + f) / 256 == b,
        ((b * 256 + s * 8 + f) / 8) % 32 == s,
        (b * 256 + s * 8 + f) % 8 == f,
{
    assert((b * 256 + s * 8 + f) / 256 == b) by (nonlinear_arith)
        requires 0 <= b, 0 <= s < 32, 0 <= f < 8;
    assert((b * 256 + s * 8 + f) / 8 == b * 32 + s) by (nonlinear_arith)
        requires 0 <= b, 0 <= s < 32, 0 <= f < 8;
    assert((b * 32 + s) % 32 == s) by (nonlinear_arith)
        requires 0 <= b, 0 <= s < 32;
    assert((b * 256 + s * 8 + f) % 8 == f) by (nonlinear_arith)
        requires 0 <= b, 0 <= s < 32, 0 <= f < 8;
}

proof fn lemma_scan_step<C: PciConfigAccess>(a: &C, b: int, s: int, f: int)
    requires
        0 <= b,
        0 <= s < 32,
        0 <= f < 8,
    ensures
        scan_upto(a, b * 256 + s * 8 + f + 1) == scan_upto(a, b * 256 + s * 8 + f) + probe(a, b, s, f),
{
    lemma_index(b, s, f);
}

/// The scan up to `k` is a prefix of the scan up to any later position.
proof fn lemma_scan_prefix<C: PciConfigAccess>(a: &C, k: int, k2: int)
    requires
        0 <= k <= k2,
    ensures
        scan_upto(a, k).len() <= scan_upto(a, k2).len(),
        scan_upto(a, k2).subrange(0, scan_upto(a, k).len() as int) == scan_upto(a, k),
    decreases k2 - k,
{
    if k < k2 {
        lemma_scan_prefix(a, k, k2 - 1);
        let p = scan_upto(a, k2 - 1);
        assert(scan_upto(a, k2) == p + probe(a, (k2 - 1) / 256, ((k2 - 1) / 8) % 32, (k2 - 1) % 8));
        assert(scan_upto(a, k2).subrange(0, scan_upto(a, k).len() as int) =~= p.subrange(0, scan_upto(a, k).len() as int));
    } else {
        assert(scan_upto(a, k2).subrange(0, scan_upto(a, k).len() as int) =~= scan_upto(a, k));
    }
}

/// Functions `f0..8` of a slot that find nothing leave the scan unchanged.
proof fn lemma_slot_tail<C: PciConfigAccess>(a: &C, b: int, s: int, f0: int)
    requires
        0 <= b,
        0 <= s < 32,
        0 <= f0 <= 8,
        forall|f: int| f0 <= f < 8 ==> #[trigger] probe(a, b, s, f) == Seq::<PciDevice>::empty(),
    ensures
        scan_upto(a, b * 256 + s * 8 + 8) == scan_upto(a, b * 256 + s * 8 + f0),
    decreases 8 - f0,
{
    if f0 < 8 {
        lemma_slot_tail(a, b, s, f0 + 1);
        lemma_scan_step(a, b, s, f0);
        assert(probe(a, b, s, f0) == Seq::<PciDevice>::empty());
        assert(scan_upto(a, b * 256 + s * 8 + f0) + Seq::<PciDevice>::empty() =~= scan_upto(a, b * 256 + s * 8 + f0));
    }
}

/// The table after an enumeration that starts from `before`: every device
/// of the scan appended in scan order while there is room; `Err(Full)`
/// when the scan finds more devices than there is room for, with the table
/// filled by the first of them.
pub open spec fn enumerated_into<C: PciConfigAccess>(a: &C, n: int, before: Seq<PciDevice>, after: Seq<PciDevice>, r: Result<(), PciError>) -> bool {
    let all = pci_scan(a);
    let room = n - before.len();
    if all.len() <= room {
        r == Ok::<(), PciError>(()) && after == before + all
    } else {
        r == Err::<(), PciError>(PciError::Full) && after == before + all.take(room)
    }
}

/// Walks every bus, slot and function in order, reading each function's
/// identity, class, header and interrupt words through `access`, and
/// appends the record of every present function to `table`. A slot whose
/// function 0 is absent is skipped; a multi-function slot is probed at
/// eight functions, any other at one.
pub fn enumerate<C: PciConfigAccess, const N: usize>(access: &C, table: &mut PciDeviceTable<N>) -> (r: Result<(), PciError>)
    ensures
        enumerated_into(access, N as int, old(table).devices(), final(table).devices(), r),
{
    let ghost start = table.devices();
    proof {
        use_type_invariant(&*table);
        assert(start + scan_upto(access, 0) =~= start);
    }
    let mut bus: u16 = 0;
    while bus <= 0xFF
        invariant
            bus <= 256,
            start == old(table).devices(),
            table.devices() == start + scan_upto(access, bus * 256),
            table.devices().len() <= N,
        decreases 256 - bus,
    {
        let mut slot: u8 = 0;
        while slot < 32
            invariant
                bus <= 255,
                slot <= 32,
                start == old(table).devices(),
                table.devices() == start + scan_upto(access, bus * 256 + slot * 8),
                table.devices().len() <= N,
            decreases 32 - slot,
        {
            let location0 = PciLocation { bus: bus as u8, device: slot, function: 0 };
            proof {
                assert(location0 == loc_of(bus as int, slot as int, 0));
            }
            let id = access.read_u32(location0, 0x00);
            if (id & 0xFFFF) != 0xFFFF {
                let header = (access.read_u32(location0, 0x0C) >> 16) as u8;
                let multifunction = (header & 0x80) != 0;
                let functions: u8 = if multifunction { 8 } else { 1 };
                let ghost hw = access.config_word(location0, 0x0C);
                assert(functions == slot_functions(hw));
                let mut function: u8 = 0;
                while function < functions
                    invariant
                        bus <= 255,
                        slot < 32,
                        functions <= 8,
                        function <= functions,
                        functions == slot_functions(hw),
                        hw == access.config_word(location0, 0x0C),
                        location0 == loc_of(bus as int, slot as int, 0),
                        word_present(access.config_word(location0, 0x00)),
                        start == old(table).devices(),
                        table.devices() == start + scan_upto(access, bus * 256 + slot * 8 + function),
                        table.devices().len() <= N,
                    decreases functions - function,
                {
                    let location = PciLocation { bus: bus as u8, device: slot, function };
                    let ghost k = bus * 256 + slot * 8 + function;
                    proof {
                        assert(location == loc_of(bus as int, slot as int, function as int));
                        lemma_scan_step(access, bus as int, slot as int, function as int);
                    }
                    let vendor_device = access.read_u32(location, 0x00);
                    if (vendor_device & 0xFFFF) != 0xFFFF {
                        let class_word = access.read_u32(location, 0x08);
                        let header_word = access.read_u32(location, 0x0C);
                        let irq_word = access.read_u32(location, 0x3C);
                        let device = device_from_words(location, vendor_device, class_word, header_word, irq_word);
                        let ghost before = table.devices();
                        proof {
                            assert(probe(access, bus as int, slot as int, function as int) == seq![device]);
                            lemma_scan_prefix(access, k + 1, 65536);
                        }
                        match table.push(device) {
                            Err(e) => {
                                proof {
                                    let cur = scan_upto(access, k);
                                    assert(scan_upto(access, k + 1) == cur + seq![device]);
                                    assert(pci_scan(access).subrange(0, cur.len() as int + 1) == cur + seq![device]);
                                    assert(pci_scan(access).take(cur.len() as int) =~= cur) by {
                                        assert forall|i: int| 0 <= i < cur.len() implies pci_scan(access)[i] == cur[i] by {
                                            assert(pci_scan(access).subrange(0, cur.len() as int + 1)[i] == (cur + seq![device])[i]);
                                        }
                                    }
                                }
                                return Err(e);
                            },
                            Ok(()) => {},
                        }
                        proof {
                            assert(table.devices() =~= start + scan_upto(access, k + 1));
                        }
                    } else {
                        proof {
                            assert(probe(access, bus as int, slot as int, function as int) == Seq::<PciDevice>::empty());
                            assert(scan_upto(access, k) + Seq::<PciDevice>::empty() =~= scan_upto(access, k));
                        }
                    }
                    function = function + 1;
                }
                proof {
                    assert forall|f: int| functions <= f < 8 implies #[trigger] probe(access, bus as int, slot as int, f) == Seq::<PciDevice>::empty() by {}
                    lemma_slot_tail(access, bus as int, slot as int, functions as int);
                    assert(bus * 256 + (slot + 1) * 8 == bus * 256 + slot * 8 + 8);
                }
            } else {
                proof {
                    assert forall|f: int| 0 <= f < 8 implies #[trigger] probe(access, bus as int, slot as int, f) == Seq::<PciDevice>::empty() by {}
                    lemma_slot_tail(access, bus as int, slot as int, 0);
                    assert(bus * 256 + (slot + 1) * 8 == bus * 256 + slot * 8 + 8);
                }
            }
            slot = slot + 1;
        }
        proof {
            assert(bus * 256 + 32 * 8 == (bus + 1) * 256);
        }
        bus = bus + 1;
    }
    proof {
        let all = pci_scan(access);
        assert(table.devices() == start + all);
    }
    Ok(())
}

} // verus!

//! Kernel-facing contracts: the native application container header, IPC
//! messages, addresses and the boot bump allocator.

use vstd::prelude::*;

verus! {

/// "AWESA\0\1\0"
pub const MAGIC: [u8; 8] = [0x41, 0x57, 0x45, 0x53, 0x41, 0x00, 0x01, 0x00];
pub const FORMAT_VERSION: u16 = 1;

#[derive(Clone, Copy)]
pub enum CapabilityKind {
    FilesystemRead,
    FilesystemWrite,
    Network,
    Device,
    Gpu,
    Audio,
    ProcessSpawn,
    Ipc,
}

impl CapabilityKind {
    pub open spec fn spec_code(self) -> u32 {
        match self {
            CapabilityKind::FilesystemRead => 1,
            CapabilityKind::FilesystemWrite => 2,
            CapabilityKind::Network => 3,
            CapabilityKind::Device => 4,
            CapabilityKind::Gpu => 5,
            CapabilityKind::Audio => 6,
            CapabilityKind::ProcessSpawn => 7,
            CapabilityKind::Ipc => 8,
        }
    }

    /// The capability's number in the container format (1 to 8).
    pub fn code(self) -> (c: u32)
        ensures
            c == self.spec_code(),
    {
        match self {
            CapabilityKind::FilesystemRead => 1,
            CapabilityKind::FilesystemWrite => 2,
            CapabilityKind::Network => 3,
            CapabilityKind::Device => 4,
            CapabilityKind::Gpu => 5,
            CapabilityKind::Audio => 6,
            CapabilityKind::ProcessSpawn => 7,
            CapabilityKind::Ipc => 8,
        }
    }
}

#[derive(Clone, Copy)]
pub struct Header {
    pub magic: [u8; 8],
    pub version: u16,
    pub flags: u16,
    pub manifest_offset: u64,
    pub manifest_size: u64,
    pub code_offset: u64,
    pub code_size: u64,
    pub signature_offset: u64,
    pub signature_size: u64,
}

impl Header {
    pub fn valid_magic(&self) -> (r: bool)
        ensures
            r == (self.magic@ == MAGIC@),
    {
        let mut i: usize = 0;
        while i < 8
            invariant
                i <= 8,
                forall|j: int| 0 <= j < i ==> self.magic@[j] == MAGIC@[j],
            decreases 8 - i,
        {
            if self.magic[i] != MAGIC[i] {
                return false;
            }
            i += 1;
        }
        assert(self.magic@ =~= MAGIC@);
        true
    }
}

#[derive(Clone, Copy, PartialEq, Eq, Structural)]
pub struct Handle(pub u32);

#[derive(Clone, Copy, PartialEq, Eq, Structural)]
pub struct Capability(pub u64);

#[derive(Clone, Copy)]
pub struct MessageHeader {
    pub channel: Handle,
    pub length: u32,
    pub flags: u32,
    pub sequence: u64,
}

pub const MAX_INLINE: usize = 256;

pub struct Message {
    pub header: MessageHeader,
    pub data: [u8; MAX_INLINE],
}

impl Message {
    /// An empty message on `channel` with sequence number `sequence`.
    pub fn empty(channel: Handle, sequence: u64) -> (m: Message)
        ensures
            m.header.channel == channel && m.header.length == 0 && m.header.flags == 0 && m.header.sequence == sequence,
            m.data@ == Seq::new(MAX_INLINE as nat, |i: int| 0u8),
    {
        let m = Message { header: MessageHeader { channel, length: 0, flags: 0, sequence }, data: [0; MAX_INLINE] };
        assert(m.data@ =~= Seq::new(MAX_INLINE as nat, |i: int| 0u8));
        m
    }
}

pub const PAGE_SIZE: usize = 4096;

#[derive(Clone, Copy, PartialEq, Eq, Structural)]
pub struct PhysAddr(pub u64);

#[derive(Clone, Copy, PartialEq, Eq, Structural)]
pub struct VirtAddr(pub u64);

impl VirtAddr {
    /// The top 16 bits are all zero or all one.
    pub fn is_canonical(self) -> (r: bool)
        ensures
            r == (self.0 < 0x0001_0000_0000_0000 || self.0 >= 0xffff_0000_0000_0000),
    {
        let v: u64 = self.0;
        let top = v >> 48;
        assert(top == 0 <==> v < 0x0001_0000_0000_0000u64) by (bit_vector)
            requires top == v >> 48u64;
        assert(top == 0xffff <==> v >= 0xffff_0000_0000_0000u64) by (bit_vector)
            requires top == v >> 48u64;
        top == 0 || top == 0xffff
    }

    /// The offset within the 4 KiB page.
    pub fn offset(self) -> (o: usize)
        ensures
            o == self.0 % 4096,
    {
        let v: u64 = self.0;
        let a = v as usize;
        assert(a & 4095 == a % 4096) by (bit_vector);
        assert((v as usize) % 4096 == v % 4096) by (bit_vector);
        a & (PAGE_SIZE - 1)
    }
}

#[derive(Clone, Copy)]
pub enum PageFlags {
    ReadOnly,
    Writable,
    Executable,
    User,
    Global,
}

impl PageFlags {
    pub open spec fn spec_bits(self) -> u8 {
        match self {
            PageFlags::ReadOnly => 1,
            PageFlags::Writable => 2,
            PageFlags::Executable => 4,
            PageFlags::User => 8,
            PageFlags::Global => 16,
        }
    }

    /// The flag's bit in a page-table entry.
    pub fn bits(self) -> (b: u8)
        ensures
            b == self.spec_bits(),
    {
        match self {
            PageFlags::ReadOnly => 1,
            PageFlags::Writable => 2,
            PageFlags::Executable => 4,
            PageFlags::User => 8,
            PageFlags::Global => 16,
        }
    }
}

/// `next` rounded up with the alignment mask of `align` (alignment 0 acts as 1).
pub open spec fn aligned_up(next: usize, align: usize) -> int {
    let mask = if align == 0 { 0usize } else { (align - 1) as usize };
    ((next + mask) as usize & !mask) as int
}

/// A bump allocator for the earliest boot phase.
pub struct BootAllocator {
    next: usize,
    end: usize,
}

impl BootAllocator {
    pub closed spec fn cursor(&self) -> usize {
        self.next
    }

    pub closed spec fn limit(&self) -> usize {
        self.end
    }

    pub fn new(start: usize, end: usize) -> (a: Self)
        ensures
            a.cursor() == start,
            a.limit() == end,
    {
        BootAllocator { next: start, end }
    }

    /// Hands out `size` bytes at the cursor rounded up to `align` (a power
    /// of two), when they fit below the end; the cursor then moves past them.
    pub fn alloc_region(&mut self, size: usize, align: usize) -> (r: Option<usize>)
        requires
            old(self).cursor() + (if align == 0 { 0 } else { align - 1 }) <= usize::MAX,
        ensures
            final(self).limit() == old(self).limit(),
            ({
                let a = aligned_up(old(self).cursor(), align);
                if a + size > usize::MAX || a + size > old(self).limit() {
                    r is None && final(self).cursor() == old(self).cursor()
                } else {
                    r == Some(a as usize) && final(self).cursor() == a + size
                }
            }),
    {
        let mask = align.saturating_sub(1);
        let aligned = (self.next + mask) & !mask;
        let new_end = match aligned.checked_add(size) {
            Some(v) => v,
            None => {
                return None;
            },
        };
        if new_end > self.end {
            return None;
        }
        self.next = new_end;
        Some(aligned)
    }
}

} // verus!

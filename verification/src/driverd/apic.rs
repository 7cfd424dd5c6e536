//! APIC / IOAPIC routing model (validation and state only).

use vstd::prelude::*;

verus! {

#[derive(Clone, Copy, Debug, PartialEq, Eq, Structural)]
pub enum ApicError {
    InvalidVector,
    InvalidGsi,
    InvalidDestination,
}

#[derive(Clone, Copy, Debug, PartialEq, Eq, Structural)]
pub struct LocalApic {
    pub base: u64,
    pub enabled: bool,
}

#[derive(Clone, Copy, Debug, PartialEq, Eq, Structural)]
pub struct IoApic {
    pub id: u8,
    pub base: u64,
    pub gsi_base: u32,
    pub redirection_entries: u16,
}

#[derive(Clone, Copy, Debug, PartialEq, Eq, Structural)]
pub struct IrqRoute {
    pub gsi: u32,
    pub vector: u8,
    pub destination_apic: u8,
    pub masked: bool,
}

impl IrqRoute {
    /// A new route starts masked; vectors below 32 belong to CPU exceptions.
    pub fn new(gsi: u32, vector: u8, destination_apic: u8) -> (r: Result<Self, ApicError>)
        ensures
            r == if vector < 32 {
                Err(ApicError::InvalidVector)
            } else {
                Ok(IrqRoute { gsi, vector, destination_apic, masked: true })
            },
    {
        if vector < 32 {
            return Err(ApicError::InvalidVector);
        }
        Ok(Self { gsi, vector, destination_apic, masked: true })
    }

    pub fn unmask(self) -> (r: Self)
        ensures
            r == (IrqRoute { masked: false, ..self }),
    {
        let mut r = self;
        r.masked = false;
        r
    }
}

impl IoApic {
    /// The GSI range of this IOAPIC fits in 32 bits.
    pub open spec fn range_ok(self) -> bool {
        self.gsi_base + self.redirection_entries <= u32::MAX
    }

    pub fn owns_gsi(self, gsi: u32) -> (r: bool)
        requires
            self.range_ok(),
        ensures
            r == (self.gsi_base <= gsi && gsi < self.gsi_base + self.redirection_entries),
    {
        gsi >= self.gsi_base && gsi < self.gsi_base + self.redirection_entries as u32
    }

    pub fn route(self, gsi: u32, vector: u8, destination: u8) -> (r: Result<IrqRoute, ApicError>)
        requires
            self.range_ok(),
        ensures
            r == if !(self.gsi_base <= gsi && gsi < self.gsi_base + self.redirection_entries) {
                Err(ApicError::InvalidGsi)
            } else if vector < 32 {
                Err(ApicError::InvalidVector)
            } else {
                Ok(IrqRoute { gsi, vector, destination_apic: destination, masked: true })
            },
    {
        if !self.owns_gsi(gsi) {
            return Err(ApicError::InvalidGsi);
        }
        IrqRoute::new(gsi, vector, destination)
    }
}

} // verus!

//! Driver service (driverd): the isolated, restartable hardware plane.

pub mod protocol;
pub mod access;
pub mod contract;
pub mod reference;
pub mod virtio;
pub mod apic;
pub mod registry;
pub mod supervisor;
pub mod asd;
pub mod dependency;
pub mod acpi;
pub mod acpi_root;
pub mod pci;
pub mod catalog;

use vstd::prelude::*;
pub use self::registry::MAX_REGISTERED_DRIVERS;
use self::catalog::BUILTIN_DRIVER_COUNT;

verus! {

/// Driver service ABI version.
pub const DRIVERD_ABI_MAJOR: u16 = 1;
pub const DRIVERD_ABI_MINOR: u16 = 2;

#[derive(Clone, Copy, Debug, PartialEq, Eq, Structural)]
pub struct DriverdInfo {
    pub abi_major: u16,
    pub abi_minor: u16,
    pub max_drivers: usize,
    pub builtin_drivers: usize,
}

impl DriverdInfo {
    pub fn current() -> (info: Self)
        ensures
            info == (DriverdInfo {
                abi_major: DRIVERD_ABI_MAJOR,
                abi_minor: DRIVERD_ABI_MINOR,
                max_drivers: MAX_REGISTERED_DRIVERS,
                builtin_drivers: BUILTIN_DRIVER_COUNT,
            }),
    {
        DriverdInfo {
            abi_major: DRIVERD_ABI_MAJOR,
            abi_minor: DRIVERD_ABI_MINOR,
            max_drivers: MAX_REGISTERED_DRIVERS,
            builtin_drivers: BUILTIN_DRIVER_COUNT,
        }
    }
}

} // verus!

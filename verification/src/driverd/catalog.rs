//! Built-in driver-service catalog: metadata only, the implementations run
//! outside the kernel.

use vstd::prelude::*;
use super::contract::DriverTrust;
use super::protocol::{DriverClass, DriverId, DriverState};
use super::registry::DriverDescriptor;

verus! {

pub const BUILTIN_DRIVER_COUNT: usize = 16;

#[derive(Clone, Copy, Debug, PartialEq, Eq)]
pub struct BuiltinDriver {
    pub id: DriverId,
    pub name: &'static str,
    pub class: DriverClass,
    pub abi_major: u16,
}

/// The class of the `i`-th built-in driver (ids run from 1 to 16 in this order).
pub open spec fn builtin_class(i: int) -> DriverClass {
    if i == 3 {
        DriverClass::Virtio
    } else if i == 4 || i == 14 || i == 15 {
        DriverClass::Storage
    } else if i == 5 {
        DriverClass::Network
    } else if i == 6 || i == 9 {
        DriverClass::Input
    } else if i == 7 || i == 8 {
        DriverClass::Display
    } else if i == 10 {
        DriverClass::Audio
    } else if 11 <= i <= 13 {
        DriverClass::Compatibility
    } else {
        DriverClass::Other
    }
}

/// The name of the `i`-th built-in driver.
pub open spec fn builtin_driver_name(i: int) -> &'static str {
    if i == 0 {
        "awe-pci"
    } else if i == 1 {
        "awe-acpi"
    } else if i == 2 {
        "awe-apic"
    } else if i == 3 {
        "awe-virtio"
    } else if i == 4 {
        "awe-virtio-block"
    } else if i == 5 {
        "awe-virtio-net"
    } else if i == 6 {
        "awe-virtio-input"
    } else if i == 7 {
        "awe-virtio-gpu"
    } else if i == 8 {
        "awe-display"
    } else if i == 9 {
        "awe-input"
    } else if i == 10 {
        "awe-audio"
    } else if i == 11 {
        "awe-linux-compat"
    } else if i == 12 {
        "awe-windows-compat"
    } else if i == 13 {
        "awe-android-compat"
    } else if i == 14 {
        "awe-ahci"
    } else {
        "awe-nvme"
    }
}

/// The catalog entries: driver `i` has id `i + 1`, the name and class above and ABI major 1.
pub open spec fn builtin_ok(table: Seq<BuiltinDriver>) -> bool {
    &&& table.len() == BUILTIN_DRIVER_COUNT
    &&& forall|i: int| 0 <= i < BUILTIN_DRIVER_COUNT ==> (#[trigger] table[i]).id == DriverId((i + 1) as u64)
        && table[i].name == builtin_driver_name(i) && table[i].class == builtin_class(i) && table[i].abi_major == 1
}

fn entry(id: u64, name: &'static str, class: DriverClass) -> (d: BuiltinDriver)
    ensures
        d.id == DriverId(id),
        d.name == name,
        d.class == class,
        d.abi_major == 1,
{
    BuiltinDriver { id: DriverId(id), name, class, abi_major: 1 }
}

/// The sixteen built-in drivers, in id order.
pub fn builtin_drivers() -> (table: [BuiltinDriver; BUILTIN_DRIVER_COUNT])
    ensures
        builtin_ok(table@),
{
    let table = [
        entry(1, "awe-pci", DriverClass::Other),
        entry(2, "awe-acpi", DriverClass::Other),
        entry(3, "awe-apic", DriverClass::Other),
        entry(4, "awe-virtio", DriverClass::Virtio),
        entry(5, "awe-virtio-block", DriverClass::Storage),
        entry(6, "awe-virtio-net", DriverClass::Network),
        entry(7, "awe-virtio-input", DriverClass::Input),
        entry(8, "awe-virtio-gpu", DriverClass::Display),
        entry(9, "awe-display", DriverClass::Display),
        entry(10, "awe-input", DriverClass::Input),
        entry(11, "awe-audio", DriverClass::Audio),
        entry(12, "awe-linux-compat", DriverClass::Compatibility),
        entry(13, "awe-windows-compat", DriverClass::Compatibility),
        entry(14, "awe-android-compat", DriverClass::Compatibility),
        entry(15, "awe-ahci", DriverClass::Storage),
        entry(16, "awe-nvme", DriverClass::Storage),
    ];
    assert(builtin_ok(table@));
    table
}

/// The registry descriptor of a built-in driver: discovered, verified, ABI minor 2.
pub open spec fn descriptor_of(driver: BuiltinDriver) -> DriverDescriptor {
    DriverDescriptor {
        id: driver.id,
        class: driver.class,
        abi_major: driver.abi_major,
        abi_minor: 2,
        vendor: 0,
        device: 0,
        state: DriverState::Discovered,
        trust: DriverTrust::Verified,
    }
}

pub fn descriptor(driver: BuiltinDriver) -> (d: DriverDescriptor)
    ensures
        d == descriptor_of(driver),
{
    DriverDescriptor {
        id: driver.id,
        class: driver.class,
        abi_major: driver.abi_major,
        abi_minor: 2,
        vendor: 0,
        device: 0,
        state: DriverState::Discovered,
        trust: DriverTrust::Verified,
    }
}

/// The descriptors of all built-in drivers, in catalog order.
pub fn descriptors() -> (ds: [DriverDescriptor; BUILTIN_DRIVER_COUNT])
    ensures
        exists|table: Seq<BuiltinDriver>| builtin_ok(table)
            && forall|i: int| 0 <= i < BUILTIN_DRIVER_COUNT ==> #[trigger] ds@[i] == descriptor_of(table[i]),
{
    let b = builtin_drivers();
    let ds = [
        descriptor(b[0]), descriptor(b[1]), descriptor(b[2]), descriptor(b[3]),
        descriptor(b[4]), descriptor(b[5]), descriptor(b[6]), descriptor(b[7]),
        descriptor(b[8]), descriptor(b[9]), descriptor(b[10]), descriptor(b[11]),
        descriptor(b[12]), descriptor(b[13]), descriptor(b[14]), descriptor(b[15]),
    ];
    assert(forall|i: int| 0 <= i < BUILTIN_DRIVER_COUNT ==> #[trigger] ds@[i] == descriptor_of(b@[i]));
    ds
}

} // verus!

//! Built-in application catalog; the applications run in user space.

use vstd::prelude::*;
use super::{AppId, AppManifest, AWE_APP_ABI_MAJOR, AWE_APP_ABI_MINOR};

verus! {

#[derive(Clone, Copy, Debug, PartialEq, Eq)]
pub struct BuiltinApp {
    pub id: AppId,
    pub name: &'static str,
    pub memory_limit_pages: u32,
    pub capability_mask: u64,
}

/// Name of built-in app `i` (ids run 1 to 8).
pub open spec fn builtin_name(i: int) -> &'static str {
    if i == 0 {
        "awe-shell"
    } else if i == 1 {
        "awe-files"
    } else if i == 2 {
        "awe-terminal"
    } else if i == 3 {
        "awe-settings"
    } else if i == 4 {
        "awe-monitor"
    } else if i == 5 {
        "awe-store"
    } else if i == 6 {
        "awe-network"
    } else {
        "awe-devkit"
    }
}

/// Memory budget and capabilities of built-in app `i` (ids run 1 to 8).
pub open spec fn builtin_budget(i: int) -> (u32, u64) {
    if i == 0 {
        (4096, 0x0001)
    } else if i == 1 {
        (4096, 0x0003)
    } else if i == 2 {
        (2048, 0x0001)
    } else if i == 3 {
        (2048, 0x0001)
    } else if i == 4 {
        (2048, 0x0005)
    } else if i == 5 {
        (4096, 0x0009)
    } else if i == 6 {
        (4096, 0x0011)
    } else {
        (8192, 0x0021)
    }
}

fn app(id: u64, name: &'static str, memory_limit_pages: u32, capability_mask: u64) -> (a: BuiltinApp)
    ensures
        a.id == AppId(id) && a.name == name && a.memory_limit_pages == memory_limit_pages && a.capability_mask == capability_mask,
{
    BuiltinApp { id: AppId(id), name, memory_limit_pages, capability_mask }
}

/// The eight built-in applications, in id order.
pub fn builtin_apps() -> (apps: [BuiltinApp; 8])
    ensures
        forall|i: int| 0 <= i < 8 ==> (#[trigger] apps@[i]).id == AppId((i + 1) as u64)
            && (apps@[i].memory_limit_pages, apps@[i].capability_mask) == builtin_budget(i)
            && apps@[i].name == builtin_name(i),
{
    [
        app(1, "awe-shell", 4096, 0x0001),
        app(2, "awe-files", 4096, 0x0003),
        app(3, "awe-terminal", 2048, 0x0001),
        app(4, "awe-settings", 2048, 0x0001),
        app(5, "awe-monitor", 2048, 0x0005),
        app(6, "awe-store", 4096, 0x0009),
        app(7, "awe-network", 4096, 0x0011),
        app(8, "awe-devkit", 8192, 0x0021),
    ]
}

/// The manifest of a built-in app: current ABI, no dependencies or resources.
pub fn manifest(app: BuiltinApp) -> (m: AppManifest)
    ensures
        m == (AppManifest {
            id: app.id,
            abi_major: AWE_APP_ABI_MAJOR,
            abi_minor: AWE_APP_ABI_MINOR,
            memory_limit_pages: app.memory_limit_pages,
            capability_mask: app.capability_mask,
            dependency_count: 0,
            resource_count: 0,
        }),
{
    AppManifest {
        id: app.id,
        abi_major: AWE_APP_ABI_MAJOR,
        abi_minor: AWE_APP_ABI_MINOR,
        memory_limit_pages: app.memory_limit_pages,
        capability_mask: app.capability_mask,
        dependency_count: 0,
        resource_count: 0,
    }
}

} // verus!

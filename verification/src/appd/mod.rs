//! Native application admission: manifest and package checks, the built-in
//! catalog, the runtime supervisor and the `.awos` package engine.

pub mod catalog;
pub mod runtime;
pub mod awos;

use vstd::prelude::*;

verus! {

pub const AWE_APP_ABI_MAJOR: u16 = 1;
pub const AWE_APP_ABI_MINOR: u16 = 3;
pub const MAX_DEPS: usize = 32;
pub const MAX_RESOURCES: usize = 64;

#[derive(Clone, Copy, Debug, PartialEq, Eq, Structural)]
pub struct AppId(pub u64);

#[derive(Clone, Copy, Debug, PartialEq, Eq, Structural)]
pub enum AppState {
    Installed,
    Starting,
    Running,
    Stopped,
    Failed,
    Quarantined,
}

#[derive(Clone, Copy, Debug, PartialEq, Eq, Structural)]
pub struct AppManifest {
    pub id: AppId,
    pub abi_major: u16,
    pub abi_minor: u16,
    pub memory_limit_pages: u32,
    pub capability_mask: u64,
    pub dependency_count: u16,
    pub resource_count: u16,
}

#[derive(Clone, Copy, Debug, PartialEq, Eq, Structural)]
pub enum AppError {
    InvalidManifest,
    AlreadyRunning,
    NotFound,
    CapabilityDenied,
    TooManyDependencies,
    TooManyResources,
}

/// The verdict on a manifest: a non-zero id, a supported ABI and memory
/// budget, then the dependency and resource limits.
pub open spec fn manifest_verdict(m: AppManifest) -> Result<(), AppError> {
    if m.id.0 == 0 || m.abi_major != AWE_APP_ABI_MAJOR || m.abi_minor > AWE_APP_ABI_MINOR || m.memory_limit_pages == 0 {
        Err(AppError::InvalidManifest)
    } else if m.dependency_count > MAX_DEPS {
        Err(AppError::TooManyDependencies)
    } else if m.resource_count > MAX_RESOURCES {
        Err(AppError::TooManyResources)
    } else {
        Ok(())
    }
}

pub fn validate_manifest(manifest: AppManifest) -> (r: Result<(), AppError>)
    ensures
        r == manifest_verdict(manifest),
{
    if manifest.id.0 == 0 || manifest.abi_major != AWE_APP_ABI_MAJOR || manifest.abi_minor > AWE_APP_ABI_MINOR
        || manifest.memory_limit_pages == 0 {
        return Err(AppError::InvalidManifest);
    }
    if manifest.dependency_count as usize > MAX_DEPS {
        return Err(AppError::TooManyDependencies);
    }
    if manifest.resource_count as usize > MAX_RESOURCES {
        return Err(AppError::TooManyResources);
    }
    Ok(())
}

#[derive(Clone, Copy, Debug, PartialEq, Eq, Structural)]
pub struct PackageHeader {
    pub version: u16,
    pub manifest_len: u32,
    pub payload_len: u32,
    pub signature_len: u16,
}

pub const PACKAGE_HEADER_SIZE: usize = 14;
pub const MAX_MANIFEST: usize = 65536;
pub const MAX_PAYLOAD: usize = 67108864;
pub const MIN_SIGNATURE: usize = 32;

/// A package is accepted when its header is in bounds and the header,
/// manifest, payload and signature exactly fill `total_len` bytes.
pub open spec fn package_ok(h: PackageHeader, total_len: usize) -> bool {
    &&& h.version != 0 && h.manifest_len <= MAX_MANIFEST && h.payload_len <= MAX_PAYLOAD && h.signature_len >= MIN_SIGNATURE
    &&& PACKAGE_HEADER_SIZE + h.manifest_len + h.payload_len + h.signature_len == total_len
}

pub fn validate_package(header: PackageHeader, total_len: usize) -> (r: Result<(), AppError>)
    ensures
        r == (if package_ok(header, total_len) { Ok(()) } else { Err(AppError::InvalidManifest) }),
{
    if header.version == 0 || header.manifest_len as usize > MAX_MANIFEST || header.payload_len as usize > MAX_PAYLOAD
        || (header.signature_len as usize) < MIN_SIGNATURE {
        return Err(AppError::InvalidManifest);
    }
    let a = match PACKAGE_HEADER_SIZE.checked_add(header.manifest_len as usize) {
        Some(v) => v,
        None => {
            return Err(AppError::InvalidManifest);
        },
    };
    let b = match a.checked_add(header.payload_len as usize) {
        Some(v) => v,
        None => {
            return Err(AppError::InvalidManifest);
        },
    };
    let expected = match b.checked_add(header.signature_len as usize) {
        Some(v) => v,
        None => {
            return Err(AppError::InvalidManifest);
        },
    };
    if expected != total_len {
        return Err(AppError::InvalidManifest);
    }
    Ok(())
}

/// Dependency and resource counts must fit the manifest's bounded counters.
pub fn validate_declarations(dependencies: usize, resources: usize) -> (r: Result<(), AppError>)
    ensures
        r == (if dependencies > MAX_DEPS {
            Err(AppError::TooManyDependencies)
        } else if resources > MAX_RESOURCES {
            Err(AppError::TooManyResources)
        } else {
            Ok(())
        }),
{
    if dependencies > MAX_DEPS {
        return Err(AppError::TooManyDependencies);
    }
    if resources > MAX_RESOURCES {
        return Err(AppError::TooManyResources);
    }
    Ok(())
}

} // verus!

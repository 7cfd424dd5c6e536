//! AWOSA native application platform runtime: ABI negotiation, capability
//! checks and the bounded process, memory, filesystem, network, UI, IPC and
//! task tables that a native application sees.

pub mod handles;
pub mod process;
pub mod apis;

use vstd::prelude::*;

verus! {

pub const AWOSA_ABI_MAJOR: u16 = 1;
pub const AWOSA_ABI_MINOR: u16 = 3;
pub const MAX_PATH: usize = 256;
pub const MAX_MESSAGE: usize = 4096;
pub const MAX_IO: usize = 65536;
pub const MAX_HANDLES: usize = 64;
pub const MAX_PROCESSES: usize = 32;
pub const MAX_IPC_CHANNELS: usize = 16;
pub const MAX_ASYNC_TASKS: usize = 32;

pub const CAP_NONE: u64 = 0;
pub const CAP_FS_READ: u64 = 1;
pub const CAP_FS_WRITE: u64 = 2;
pub const CAP_NET: u64 = 4;
pub const CAP_IPC: u64 = 8;
pub const CAP_DEVICE: u64 = 16;
pub const CAP_UI: u64 = 32;
pub const CAP_PROCESS_SPAWN: u64 = 64;
pub const CAP_MEM_ADMIN: u64 = 128;
/// Every capability bit defined above.
pub const CAP_KNOWN_MASK: u64 = 0xFF;

#[derive(Clone, Copy, Debug, PartialEq, Eq, Structural)]
pub struct AbiVersion {
    pub major: u16,
    pub minor: u16,
}

#[derive(Clone, Copy, Debug, PartialEq, Eq, Structural)]
pub enum IoKind {
    Read,
    Write,
    Message,
}

#[derive(Clone, Copy, Debug, PartialEq, Eq, Structural)]
pub enum RuntimeError {
    IncompatibleAbi,
    InvalidArgument,
    CapabilityDenied,
    PermissionDenied,
    ResourceExhausted,
    NotFound,
    AlreadyExists,
    UnknownCapability,
    IoError,
    ProcessFailed,
    NotReady,
}

/// A request is served at its own minor version when the major matches and
/// the minor is not newer than this runtime's.
pub fn negotiate(requested: AbiVersion) -> (r: Result<AbiVersion, RuntimeError>)
    ensures
        r == (if requested.major != AWOSA_ABI_MAJOR || requested.minor > AWOSA_ABI_MINOR {
            Err(RuntimeError::IncompatibleAbi)
        } else {
            Ok(AbiVersion { major: AWOSA_ABI_MAJOR, minor: requested.minor })
        }),
{
    if requested.major != AWOSA_ABI_MAJOR || requested.minor > AWOSA_ABI_MINOR {
        Err(RuntimeError::IncompatibleAbi)
    } else {
        Ok(AbiVersion { major: AWOSA_ABI_MAJOR, minor: requested.minor })
    }
}

/// A mask is known when it sets no bit above the eight defined capabilities.
pub open spec fn caps_known(mask: u64) -> bool {
    mask <= CAP_KNOWN_MASK
}

pub fn validate_capabilities(mask: u64) -> (r: Result<(), RuntimeError>)
    ensures
        r == (if caps_known(mask) { Ok(()) } else { Err(RuntimeError::UnknownCapability) }),
{
    assert(mask & !0xFFu64 == 0 <==> mask <= 0xFF) by (bit_vector);
    if mask & !CAP_KNOWN_MASK != 0 {
        Err(RuntimeError::UnknownCapability)
    } else {
        Ok(())
    }
}

pub fn validate_path(path_len: usize) -> (r: Result<(), RuntimeError>)
    ensures
        r == (if path_len == 0 || path_len > MAX_PATH { Err(RuntimeError::InvalidArgument) } else { Ok(()) }),
{
    if path_len == 0 || path_len > MAX_PATH {
        Err(RuntimeError::InvalidArgument)
    } else {
        Ok(())
    }
}

pub fn validate_message(size: usize) -> (r: Result<(), RuntimeError>)
    ensures
        r == (if size == 0 || size > MAX_MESSAGE { Err(RuntimeError::ResourceExhausted) } else { Ok(()) }),
{
    if size == 0 || size > MAX_MESSAGE {
        Err(RuntimeError::ResourceExhausted)
    } else {
        Ok(())
    }
}

pub open spec fn spec_required_capability(kind: IoKind) -> u64 {
    match kind {
        IoKind::Read => CAP_FS_READ,
        IoKind::Write => CAP_FS_WRITE,
        IoKind::Message => CAP_IPC,
    }
}

pub fn required_capability(kind: IoKind) -> (r: u64)
    ensures
        r == spec_required_capability(kind),
{
    match kind {
        IoKind::Read => CAP_FS_READ,
        IoKind::Write => CAP_FS_WRITE,
        IoKind::Message => CAP_IPC,
    }
}

pub open spec fn io_limit(kind: IoKind) -> usize {
    match kind {
        IoKind::Message => MAX_MESSAGE,
        _ => MAX_IO,
    }
}

/// The verdict on an I/O request: unknown capability bits first, then the
/// size bound of its kind, then the capability the kind needs.
pub open spec fn io_verdict(kind: IoKind, size: usize, capabilities: u64) -> Result<(), RuntimeError> {
    if !caps_known(capabilities) {
        Err(RuntimeError::UnknownCapability)
    } else if size == 0 || size > io_limit(kind) {
        Err(RuntimeError::ResourceExhausted)
    } else if capabilities & spec_required_capability(kind) == 0 {
        Err(RuntimeError::CapabilityDenied)
    } else {
        Ok(())
    }
}

pub fn validate_io(kind: IoKind, size: usize, capabilities: u64) -> (r: Result<(), RuntimeError>)
    ensures
        r == io_verdict(kind, size, capabilities),
{
    if validate_capabilities(capabilities).is_err() {
        return Err(RuntimeError::UnknownCapability);
    }
    let limit = match kind {
        IoKind::Read | IoKind::Write => MAX_IO,
        IoKind::Message => MAX_MESSAGE,
    };
    if size == 0 || size > limit {
        return Err(RuntimeError::ResourceExhausted);
    }
    if capabilities & required_capability(kind) == 0 {
        return Err(RuntimeError::CapabilityDenied);
    }
    Ok(())
}

} // verus!

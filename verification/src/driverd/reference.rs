//! Reference VirtIO device request formats and their bounds checks.

use vstd::prelude::*;
use super::virtio::{VirtioKind, VirtioQueue};

verus! {

#[derive(Clone, Copy, Debug, PartialEq, Eq, Structural)]
pub struct BlockRequest {
    pub sector: u64,
    pub sectors: u32,
    pub write: bool,
}

#[derive(Clone, Copy, Debug, PartialEq, Eq)]
pub struct NetFrame<'a> {
    pub bytes: &'a [u8],
}

#[derive(Clone, Copy, Debug, PartialEq, Eq, Structural)]
pub struct InputEvent {
    pub event_type: u16,
    pub code: u16,
    pub value: i32,
}

#[derive(Clone, Copy, Debug, PartialEq, Eq, Structural)]
pub struct DisplayRect {
    pub x: u16,
    pub y: u16,
    pub width: u16,
    pub height: u16,
    pub stride: u32,
}

#[derive(Clone, Copy, Debug, PartialEq, Eq, Structural)]
pub struct ReferenceDevice {
    pub kind: VirtioKind,
    pub queue: VirtioQueue,
}

impl ReferenceDevice {
    pub fn block(queue: VirtioQueue) -> (d: Self)
        ensures
            d == (ReferenceDevice { kind: VirtioKind::Block, queue }),
    {
        Self { kind: VirtioKind::Block, queue }
    }

    pub fn network(queue: VirtioQueue) -> (d: Self)
        ensures
            d == (ReferenceDevice { kind: VirtioKind::Network, queue }),
    {
        Self { kind: VirtioKind::Network, queue }
    }

    pub fn input(queue: VirtioQueue) -> (d: Self)
        ensures
            d == (ReferenceDevice { kind: VirtioKind::Input, queue }),
    {
        Self { kind: VirtioKind::Input, queue }
    }

    pub fn gpu(queue: VirtioQueue) -> (d: Self)
        ensures
            d == (ReferenceDevice { kind: VirtioKind::Gpu, queue }),
    {
        Self { kind: VirtioKind::Gpu, queue }
    }
}

#[derive(Clone, Copy, Debug, PartialEq, Eq, Structural)]
pub enum ReferenceError {
    ZeroLength,
    InvalidRange,
}

/// A block request must name at least one sector and end within the device
/// (the end is computed with saturation, so it never wraps).
pub fn validate_block_request(request: BlockRequest, capacity_sectors: u64) -> (r: Result<(), ReferenceError>)
    ensures
        r == if request.sectors == 0 {
            Err(ReferenceError::ZeroLength)
        } else if request.sector.saturating_add(request.sectors as u64) > capacity_sectors {
            Err(ReferenceError::InvalidRange)
        } else {
            Ok(())
        },
{
    if request.sectors == 0 {
        return Err(ReferenceError::ZeroLength);
    }
    let end = request.sector.saturating_add(request.sectors as u64);
    if end > capacity_sectors {
        return Err(ReferenceError::InvalidRange);
    }
    Ok(())
}

/// A display rectangle must be non-empty and lie within `width` x `height`.
pub fn validate_display_rect(rect: DisplayRect, width: u16, height: u16) -> (r: Result<(), ReferenceError>)
    ensures
        r == if rect.width == 0 || rect.height == 0 {
            Err(ReferenceError::ZeroLength)
        } else if rect.x.saturating_add(rect.width) > width || rect.y.saturating_add(rect.height) > height {
            Err(ReferenceError::InvalidRange)
        } else {
            Ok(())
        },
{
    if rect.width == 0 || rect.height == 0 {
        return Err(ReferenceError::ZeroLength);
    }
    let x_end = rect.x.saturating_add(rect.width);
    let y_end = rect.y.saturating_add(rect.height);
    if x_end > width || y_end > height {
        return Err(ReferenceError::InvalidRange);
    }
    Ok(())
}

} // verus!

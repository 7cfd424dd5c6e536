//! Hardware access contract of a driver: MMIO/PIO windows, interrupt
//! ownership and device power states.

use vstd::prelude::*;
use super::protocol::DriverId;

verus! {

#[derive(Clone, Copy, Debug, PartialEq, Eq, Structural)]
pub enum AccessKind {
    Mmio,
    Pio,
}

#[derive(Clone, Copy, Debug, PartialEq, Eq, Structural)]
pub struct AccessRegion {
    pub driver: DriverId,
    pub base: u64,
    pub length: u64,
    pub kind: AccessKind,
}

impl AccessRegion {
    /// A non-empty window whose end does not overflow the address space.
    pub open spec fn spec_valid(self) -> bool {
        self.length != 0 && self.base + self.length <= u64::MAX
    }

    /// `[offset, offset + width)` is a non-empty access inside the window.
    pub open spec fn spec_contains(self, offset: u64, width: u64) -> bool {
        width != 0 && offset <= self.length && offset + width <= self.length
    }

    pub fn valid(self) -> (r: bool)
        ensures
            r == self.spec_valid(),
    {
        self.length != 0 && self.base.checked_add(self.length).is_some()
    }

    pub fn contains(self, offset: u64, width: u64) -> (r: bool)
        ensures
            r == self.spec_contains(offset, width),
    {
        if width == 0 || offset > self.length {
            return false;
        }
        match offset.checked_add(width) {
            Some(end) => end <= self.length,
            None => false,
        }
    }
}

#[derive(Clone, Copy, Debug, PartialEq, Eq, Structural)]
pub enum InterruptMode {
    Line,
    Msi,
    MsiX,
}

#[derive(Clone, Copy, Debug, PartialEq, Eq, Structural)]
pub struct InterruptOwnership {
    pub driver: DriverId,
    pub vector: u32,
    pub mode: InterruptMode,
    pub shared: bool,
}

impl InterruptOwnership {
    pub fn valid(self) -> (r: bool)
        ensures
            r == (self.vector != 0),
    {
        self.vector != 0
    }
}

#[derive(Clone, Copy, Debug, PartialEq, Eq, Structural)]
pub enum PowerState {
    D0,
    D1,
    D2,
    D3,
}

/// Depth of a power state (D0 = 0 ... D3 = 3).
pub open spec fn power_depth(s: PowerState) -> int {
    match s {
        PowerState::D0 => 0,
        PowerState::D1 => 1,
        PowerState::D2 => 2,
        PowerState::D3 => 3,
    }
}

/// Power changes move at most one state deeper or shallower.
pub fn power_transition_allowed(current: PowerState, next: PowerState) -> (r: bool)
    ensures
        r == (power_depth(current) - power_depth(next) <= 1 && power_depth(next) - power_depth(current) <= 1),
{
    if current == next {
        return true;
    }
    match (current, next) {
        (PowerState::D0, PowerState::D1) | (PowerState::D1, PowerState::D0) | (PowerState::D1, PowerState::D2)
        | (PowerState::D2, PowerState::D1) | (PowerState::D2, PowerState::D3) | (PowerState::D3, PowerState::D2) => true,
        _ => false,
    }
}

#[derive(Clone, Copy, Debug, PartialEq, Eq, Structural)]
pub struct HardwareAccessPlan {
    pub driver: DriverId,
    pub mmio: AccessRegion,
    pub pio: AccessRegion,
    pub interrupt: InterruptOwnership,
    pub power: PowerState,
}

impl HardwareAccessPlan {
    /// Every resource of the plan belongs to its driver and is itself valid.
    pub fn valid(self) -> (r: bool)
        ensures
            r == (self.mmio.driver == self.driver && self.pio.driver == self.driver
                && self.interrupt.driver == self.driver && self.mmio.spec_valid() && self.pio.spec_valid()
                && self.interrupt.vector != 0),
    {
        self.mmio.driver == self.driver && self.pio.driver == self.driver && self.interrupt.driver == self.driver
            && self.mmio.valid() && self.pio.valid() && self.interrupt.valid()
    }
}

} // verus!

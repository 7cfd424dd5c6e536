//! VirtIO 1.x transport model: PCI identity, status handshake, feature
//! negotiation and queue bookkeeping.

use vstd::prelude::*;

verus! {

pub const VIRTIO_PCI_VENDOR_ID: u16 = 0x1AF4;
pub const VIRTIO_F_VERSION_1: u64 = 0x1_0000_0000;
pub const VIRTIO_STATUS_ACKNOWLEDGE: u8 = 1;
pub const VIRTIO_STATUS_DRIVER: u8 = 2;
pub const VIRTIO_STATUS_DRIVER_OK: u8 = 4;
pub const VIRTIO_STATUS_FEATURES_OK: u8 = 8;

#[derive(Clone, Copy, Debug, PartialEq, Eq, Structural)]
pub enum VirtioError {
    InvalidVendor,
    InvalidDevice,
    MissingVersion1,
    QueueTooLarge,
    InvalidQueue,
    QueueOverflow,
    NotReady,
}

#[derive(Clone, Copy, Debug, PartialEq, Eq, Structural)]
pub struct VirtioDevice {
    pub device_id: u16,
    pub vendor_id: u16,
    pub device_features: u64,
    pub driver_features: u64,
    pub status: u8,
}

impl VirtioDevice {
    pub fn new(device_id: u16, vendor_id: u16, device_features: u64) -> (d: Self)
        ensures
            d == (VirtioDevice { device_id, vendor_id, device_features, driver_features: 0, status: 0 }),
    {
        Self { device_id, vendor_id, device_features, driver_features: 0, status: 0 }
    }

    /// VirtIO PCI devices use vendor 0x1AF4 and a device id in the modern
    /// range 0x1000..=0x107F or the legacy range 1..=0x3F.
    pub fn validate_pci_identity(&self) -> (r: Result<(), VirtioError>)
        ensures
            r == if self.vendor_id != VIRTIO_PCI_VENDOR_ID {
                Err(VirtioError::InvalidVendor)
            } else if !(0x1000 <= self.device_id <= 0x107F) && !(1 <= self.device_id <= 0x3F) {
                Err(VirtioError::InvalidDevice)
            } else {
                Ok(())
            },
    {
        if self.vendor_id != VIRTIO_PCI_VENDOR_ID {
            return Err(VirtioError::InvalidVendor);
        }
        if !(self.device_id >= 0x1000 && self.device_id <= 0x107F) && !(self.device_id >= 1 && self.device_id <= 0x3F) {
            return Err(VirtioError::InvalidDevice);
        }
        Ok(())
    }

    pub fn acknowledge(self) -> (d: Self)
        ensures
            d == (VirtioDevice { status: self.status | VIRTIO_STATUS_ACKNOWLEDGE, ..self }),
    {
        let mut d = self;
        d.status = d.status | VIRTIO_STATUS_ACKNOWLEDGE;
        d
    }

    pub fn driver_present(self) -> (d: Self)
        ensures
            d == (VirtioDevice { status: self.status | VIRTIO_STATUS_DRIVER, ..self }),
    {
        let mut d = self;
        d.status = d.status | VIRTIO_STATUS_DRIVER;
        d
    }

    /// Accepts the requested features the device offers; VERSION_1 is mandatory.
    pub fn negotiate(self, requested: u64) -> (r: Result<Self, VirtioError>)
        ensures
            r == if self.device_features & VIRTIO_F_VERSION_1 == 0 {
                Err(VirtioError::MissingVersion1)
            } else {
                Ok(VirtioDevice {
                    driver_features: requested & self.device_features,
                    status: self.status | VIRTIO_STATUS_FEATURES_OK,
                    ..self
                })
            },
    {
        if self.device_features & VIRTIO_F_VERSION_1 == 0 {
            return Err(VirtioError::MissingVersion1);
        }
        let mut d = self;
        d.driver_features = requested & self.device_features;
        d.status = d.status | VIRTIO_STATUS_FEATURES_OK;
        Ok(d)
    }

    /// Sets DRIVER_OK once ACKNOWLEDGE, DRIVER and FEATURES_OK are all set.
    pub fn ready(self) -> (r: Result<Self, VirtioError>)
        ensures
            r == if self.status & 11u8 != 11u8 {
                Err(VirtioError::NotReady)
            } else {
                Ok(VirtioDevice { status: self.status | VIRTIO_STATUS_DRIVER_OK, ..self })
            },
    {
        let need = VIRTIO_STATUS_ACKNOWLEDGE | VIRTIO_STATUS_DRIVER | VIRTIO_STATUS_FEATURES_OK;
        assert(need == 11u8) by (bit_vector)
            requires need == 1u8 | 2u8 | 8u8;
        if self.status & need != need {
            return Err(VirtioError::NotReady);
        }
        let mut d = self;
        d.status = d.status | VIRTIO_STATUS_DRIVER_OK;
        Ok(d)
    }
}

#[derive(Clone, Copy, Debug, PartialEq, Eq, Structural)]
pub struct VirtioQueue {
    pub size: u16,
    pub used_index: u16,
    pub avail_index: u16,
}

/// Queue sizes a device may use: the powers of two up to 1024.
pub open spec fn queue_size_ok(size: u16) -> bool {
    size == 1 || size == 2 || size == 4 || size == 8 || size == 16 || size == 32 || size == 64 || size == 128
        || size == 256 || size == 512 || size == 1024
}

impl VirtioQueue {
    pub fn new(size: u16) -> (r: Result<Self, VirtioError>)
        ensures
            r == if queue_size_ok(size) {
                Ok(VirtioQueue { size, used_index: 0, avail_index: 0 })
            } else {
                Err(VirtioError::QueueTooLarge)
            },
    {
        if size == 0 || size > 1024 || (size & (size - 1)) != 0 {
            assert((size == 0 || size > 1024 || (size & ((size - 1u16) as u16)) != 0) ==> !queue_size_ok(size)) by (bit_vector);
            return Err(VirtioError::QueueTooLarge);
        }
        assert(!(size == 0 || size > 1024 || (size & ((size - 1u16) as u16)) != 0) ==> queue_size_ok(size)) by (bit_vector);
        Ok(Self { size, used_index: 0, avail_index: 0 })
    }

    /// Descriptors outstanding (`avail - used`, modulo 2^16), rejected when
    /// larger than the queue.
    pub fn pending(self) -> (r: Result<u16, VirtioError>)
        ensures
            r == if vstd::wrapping::u16_specs::wrapping_sub(self.avail_index, self.used_index) > self.size {
                Err(VirtioError::QueueOverflow)
            } else {
                Ok(vstd::wrapping::u16_specs::wrapping_sub(self.avail_index, self.used_index))
            },
    {
        let pending = self.avail_index.wrapping_sub(self.used_index);
        if pending > self.size {
            return Err(VirtioError::QueueOverflow);
        }
        Ok(pending)
    }
}

#[derive(Clone, Copy, Debug, PartialEq, Eq, Structural)]
pub enum VirtioKind {
    Block,
    Network,
    Input,
    Gpu,
}

} // verus!

use aweos::driverd::access::{power_transition_allowed, AccessKind, AccessRegion, InterruptMode, InterruptOwnership, PowerState};
use aweos::driverd::acpi::{checksum_ok, find_table, parse_madt, AcpiTableRef};
use aweos::driverd::acpi_root::{parse_pointer_table, validate_rsdp, RsdpError};
use aweos::driverd::apic::{ApicError, IoApic, IrqRoute};
use aweos::driverd::asd::{
    package_transition, validate_asd, AsdError, DriverMeta, DriverPackageManager, DriverSignerKey, PackageState,
    ASD_ARCH_X86_64, ASD_HEADER_LEN, ASD_MAGIC, ASD_VERSION, DRIVER_ABI_MAJOR, DRIVER_ABI_MINOR, DRV_CAP_MMIO,
};
use aweos::driverd::contract::{lifecycle_maps_to_state, transition, DriverLifecycle, DriverManifest, DriverTrust, LifecycleError};
use aweos::driverd::dependency::{DependencyError, DependencyGraph, DriverDependency, DriverHealth, ResourceOwnership};
use aweos::driverd::pci::{
    config_address, decode_bar, enumerate, PciBarError, PciError, PciBarKind, PciConfigAccess, PciDeviceTable, PciLocation,
};
use aweos::driverd::protocol::{DriverClass, DriverCommand, DriverId, DriverState};
use aweos::driverd::reference::{validate_block_request, validate_display_rect, BlockRequest, DisplayRect, ReferenceDevice, ReferenceError};
use aweos::driverd::registry::{DriverDescriptor, DriverRegistry, RegistryError};
use aweos::driverd::supervisor::{DriverSupervisor, SupervisorError};
use aweos::driverd::virtio::{VirtioDevice, VirtioError, VirtioKind, VirtioQueue, VIRTIO_F_VERSION_1, VIRTIO_PCI_VENDOR_ID};
use aweos::securityd::crypto::{ed25519_keypair_from_seed, ed25519_sign};

#[test]
fn region_bounds_are_overflow_safe() {
    let region = AccessRegion { driver: DriverId(1), base: 0x1000, length: 0x100, kind: AccessKind::Mmio };
    assert!(region.valid());
    assert!(region.contains(0x20, 4));
    assert!(!region.contains(0xff, 2));
    assert!(!AccessRegion { driver: DriverId(1), base: u64::MAX, length: 2, kind: AccessKind::Mmio }.valid());
}

#[test]
fn interrupt_ownership_is_explicit() {
    assert!(!InterruptOwnership { driver: DriverId(1), vector: 0, mode: InterruptMode::Msi, shared: false }.valid());
    assert!(InterruptOwnership { driver: DriverId(1), vector: 32, mode: InterruptMode::MsiX, shared: false }.valid());
}

#[test]
fn power_policy_is_bounded() {
    assert!(power_transition_allowed(PowerState::D0, PowerState::D1));
    assert!(power_transition_allowed(PowerState::D3, PowerState::D2));
    assert!(!power_transition_allowed(PowerState::D0, PowerState::D3));
}

#[test]
fn zero_checksum_is_detected() {
    let mut bytes = [0u8; 12];
    bytes[0..4].copy_from_slice(b"TEST");
    bytes[4..8].copy_from_slice(&(12u32).to_le_bytes());
    // An ACPI table is valid when all its bytes sum to zero modulo 256. The
    // signature and length alone sum to 76, so the checksum byte (offset 9)
    // is set to make the table valid before one byte is changed.
    let sum = bytes.iter().fold(0u8, |a, b| a.wrapping_add(*b));
    assert_eq!(sum, 76);
    bytes[9] = 0u8.wrapping_sub(sum);
    assert!(checksum_ok(&bytes));
    bytes[11] = 1;
    assert!(!checksum_ok(&bytes));
}

#[test]
fn table_search_is_bounded() {
    let entries = [
        AcpiTableRef { signature: *b"FACP", address: 1, length: 100 },
        AcpiTableRef { signature: *b"APIC", address: 2, length: 80 },
        AcpiTableRef { signature: *b"APIC", address: 3, length: 96 },
    ];
    let mut out = [None; 1];
    assert_eq!(find_table(&entries, *b"APIC", &mut out), 1);
    assert_eq!(out[0].unwrap().address, 2);
}

#[test]
fn madt_header_is_parsed() {
    let body = [0x00, 0x00, 0xFE, 0x80, 0x01, 0, 0, 0];
    let madt = parse_madt(&body).unwrap();
    assert_eq!(madt.local_apic_address, 0x80FE0000);
    assert_eq!(madt.flags, 1);
}

#[test]
fn rejects_bad_rsdp_signature() {
    let bytes = [0u8; 20];
    assert_eq!(validate_rsdp(&bytes), Err(RsdpError::BadSignature));
}

#[test]
fn parses_pointer_table() {
    let bytes = [1u8, 0, 0, 0, 2, 0, 0, 0];
    let mut out = [0u64; 4];
    assert_eq!(parse_pointer_table(&bytes, 4, &mut out).unwrap(), 2);
    assert_eq!(out[1], 2);
}

#[test]
fn ioapic_gsi_range_is_bounded() {
    let io = IoApic { id: 1, base: 0xFEC0_0000, gsi_base: 32, redirection_entries: 24 };
    assert!(io.owns_gsi(32));
    assert!(io.owns_gsi(55));
    assert!(!io.owns_gsi(56));
}

#[test]
fn irq_vector_below_exception_range_is_rejected() {
    assert_eq!(IrqRoute::new(1, 31, 0), Err(ApicError::InvalidVector));
    assert!(IrqRoute::new(1, 32, 0).is_ok());
}

fn build_asd_bytes(manifest: u32, payload: u32, sig: u16, sig_byte0: u8) -> Vec<u8> {
    let mut b = Vec::with_capacity(ASD_HEADER_LEN + manifest as usize + payload as usize + sig as usize);
    b.extend_from_slice(&ASD_MAGIC);
    b.extend_from_slice(&ASD_VERSION.to_le_bytes());
    b.extend_from_slice(&ASD_ARCH_X86_64.to_le_bytes());
    b.extend_from_slice(&manifest.to_le_bytes());
    b.extend_from_slice(&payload.to_le_bytes());
    b.extend_from_slice(&sig.to_le_bytes());
    b.extend_from_slice(&DRIVER_ABI_MAJOR.to_le_bytes());
    b.extend_from_slice(&DRIVER_ABI_MINOR.to_le_bytes());
    b.extend_from_slice(&DRV_CAP_MMIO.to_le_bytes());
    b.extend_from_slice(&0u64.to_le_bytes());
    b.extend(core::iter::repeat_n(0u8, manifest as usize));
    let payload_bytes = vec![0x55u8; payload as usize];
    b.extend_from_slice(&payload_bytes);
    let mut sig_vec = vec![0u8; sig as usize];
    sig_vec[0] = sig_byte0;
    b.extend_from_slice(&sig_vec);
    b
}

#[test]
fn validates_canonical_header_and_bounds() {
    let signer = DriverSignerKey { key_id: 1, fingerprint: [0x10; 16], is_certified: true };
    let sum_payload = (0x55u8).wrapping_mul(16);
    let expected_sig = sum_payload ^ 0x10 ^ 0xC5;
    let b = build_asd_bytes(8, 16, 64, expected_sig);
    assert!(validate_asd(&b).is_ok());
    let meta = DriverMeta { driver_id: 500, version: 1, signer, capabilities: DRV_CAP_MMIO };
    let mut mgr = DriverPackageManager::new();
    mgr.install_driver(&b, meta).expect("install driver");
    assert_eq!(mgr.get_record(500).unwrap().active_version, 1);
    mgr.quarantine_driver(500).expect("quarantine driver");
    assert_eq!(mgr.get_record(500).unwrap().state, PackageState::Quarantined);
    mgr.recover_driver(500).expect("recover driver");
    assert_eq!(mgr.get_record(500).unwrap().state, PackageState::Staged);
}

#[test]
fn rejects_unknown_architecture() {
    let _signer = DriverSignerKey { key_id: 1, fingerprint: [0x10; 16], is_certified: true };
    let sum_payload = (0x55u8).wrapping_mul(16);
    let expected_sig = sum_payload ^ 0x10 ^ 0xC5;
    let mut b = build_asd_bytes(8, 16, 64, expected_sig);
    b[6..8].copy_from_slice(&0x1234u16.to_le_bytes());
    assert_eq!(validate_asd(&b), Err(AsdError::UnsupportedArchitecture));
}

#[test]
fn asd_admission_is_exercised_end_to_end() {
    let seed = [0x55u8; 32];
    let (_pk, sk) = ed25519_keypair_from_seed(&seed);
    let manifest_bytes = vec![0u8; 16];
    let payload_bytes = vec![0x55u8; 128];
    let mut package_payload_for_sig = Vec::new();
    package_payload_for_sig.extend_from_slice(&manifest_bytes);
    package_payload_for_sig.extend_from_slice(&payload_bytes);
    let real_sig = ed25519_sign(&sk, &package_payload_for_sig);
    let mut package = build_asd_bytes(16, 128, 64, 0);
    let sig_offset = ASD_HEADER_LEN + 16 + 128;
    package[sig_offset..sig_offset + 64].copy_from_slice(&real_sig);
    assert!(validate_asd(&package).is_ok());
    let mut malformed = package.clone();
    malformed[16..18].copy_from_slice(&63u16.to_le_bytes());
    assert_eq!(validate_asd(&malformed), Err(AsdError::MissingSignature));
    assert!(package_transition(PackageState::Installed, PackageState::Active));
    assert!(package_transition(PackageState::Active, PackageState::Staged));
    assert!(package_transition(PackageState::Staged, PackageState::Failed));
    assert!(!package_transition(PackageState::Installed, PackageState::Failed));
}

#[test]
fn lifecycle_accepts_only_declared_transitions() {
    assert_eq!(transition(DriverLifecycle::Discover, DriverLifecycle::Identify, true), Ok(()));
    assert_eq!(transition(DriverLifecycle::Discover, DriverLifecycle::Run, true), Err(LifecycleError::InvalidTransition));
}

#[test]
fn untrusted_driver_cannot_enter_execution_path() {
    assert_eq!(transition(DriverLifecycle::Initialize, DriverLifecycle::Run, false), Err(LifecycleError::Untrusted));
}

#[test]
fn manifest_exposes_architecture_and_capability_contract() {
    let manifest = DriverManifest::new(DriverId(5), DriverClass::Network, 1, 2, 0b1010, 0b0110, DriverTrust::Verified);
    assert!(manifest.targets(0b0010));
    assert!(manifest.declares(0b0010));
    assert!(manifest.is_trusted_for_execution());
}

#[test]
fn lifecycle_state_mapping_is_deterministic() {
    assert_eq!(lifecycle_maps_to_state(DriverLifecycle::Initialize), DriverState::Starting);
    assert_eq!(lifecycle_maps_to_state(DriverLifecycle::Run), DriverState::Running);
    assert_eq!(lifecycle_maps_to_state(DriverLifecycle::Stop), DriverState::Stopping);
    assert_eq!(lifecycle_maps_to_state(DriverLifecycle::Remove), DriverState::Quarantined);
}

#[test]
fn dependency_graph_rejects_self_and_cycles() {
    let mut graph: DependencyGraph<4> = DependencyGraph::new();
    assert_eq!(graph.add(DriverDependency { driver: DriverId(1), requires: DriverId(1) }), Err(DependencyError::SelfDependency));
    assert_eq!(graph.add(DriverDependency { driver: DriverId(1), requires: DriverId(2) }), Ok(()));
    assert_eq!(graph.add(DriverDependency { driver: DriverId(2), requires: DriverId(3) }), Ok(()));
    assert_eq!(graph.add(DriverDependency { driver: DriverId(3), requires: DriverId(1) }), Err(DependencyError::Cycle));
}

#[test]
fn ownership_is_bounded_per_driver() {
    let budget = ResourceOwnership { driver: DriverId(5), mmio_bytes: 4096, io_bytes: 128, dma_bytes: 8192, interrupt_count: 4 };
    let granted = ResourceOwnership { driver: DriverId(5), mmio_bytes: 1024, io_bytes: 64, dma_bytes: 4096, interrupt_count: 2 };
    assert!(granted.within(budget));
    assert!(!ResourceOwnership { driver: DriverId(6), ..granted }.within(budget));
}

#[test]
fn health_model_is_restartable_and_bounded() {
    let health = DriverHealth::new(DriverId(9)).record_failure().record_failure();
    assert_eq!(health.state, DriverState::Failed);
    assert_eq!(health.consecutive_failures, 2);
    assert!(health.can_restart(3));
    let restarted = health.restarted();
    assert_eq!(restarted.state, DriverState::Starting);
    assert_eq!(restarted.restart_count, 1);
    assert_eq!(restarted.consecutive_failures, 0);
}

struct Fake;

impl PciConfigAccess for Fake {
    fn config_word(&self, location: PciLocation, offset: u8) -> u32 {
        if location.bus == 0 && location.device == 1 && location.function == 0 {
            match offset {
                0x00 => 0x1234_5678,
                0x08 => 0x0101_0203,
                0x0C => 0,
                0x3C => 5,
                _ => 0,
            }
        } else {
            0xFFFF_FFFF
        }
    }

    fn read_u32(&self, location: PciLocation, offset: u8) -> u32 {
        self.config_word(location, offset)
    }
}

/// Two slots with a device: a multi-function one on bus 1 (functions 0 and 2
/// present) and a single-function one on bus 3.
struct TwoSlots;

impl PciConfigAccess for TwoSlots {
    fn config_word(&self, location: PciLocation, offset: u8) -> u32 {
        let present = (location.bus == 1 && location.device == 4 && (location.function == 0 || location.function == 2))
            || (location.bus == 3 && location.device == 0 && location.function == 0);
        if !present {
            return 0xFFFF_FFFF;
        }
        match offset {
            0x00 => 0xBEEF_0000 | (location.bus as u32) << 8 | location.function as u32,
            0x0C if location.bus == 1 => 0x0080_0000,
            0x3C => 9,
            _ => 0,
        }
    }

    fn read_u32(&self, location: PciLocation, offset: u8) -> u32 {
        self.config_word(location, offset)
    }
}

#[test]
fn enumeration_follows_scan_order_and_stops_when_full() {
    let mut table: PciDeviceTable<4> = PciDeviceTable::new();
    assert_eq!(enumerate(&TwoSlots, &mut table), Ok(()));
    assert_eq!(table.len(), 3);
    let locs: Vec<(u8, u8, u8)> = (0..3).map(|i| {
        let d = table.get(i).unwrap();
        (d.location.bus, d.location.device, d.location.function)
    }).collect();
    assert_eq!(locs, vec![(1, 4, 0), (1, 4, 2), (3, 0, 0)]);
    assert_eq!(table.get(1).unwrap().vendor_id, 0x0102);
    let mut small: PciDeviceTable<2> = PciDeviceTable::new();
    assert_eq!(enumerate(&TwoSlots, &mut small), Err(PciError::Full));
    assert_eq!(small.len(), 2);
    assert_eq!(small.get(1).unwrap().location.function, 2);
}

#[test]
fn enumerates_present_device() {
    let mut table: PciDeviceTable<4> = PciDeviceTable::new();
    assert_eq!(enumerate(&Fake, &mut table), Ok(()));
    assert_eq!(table.len(), 1);
    let d = table.get(0).unwrap();
    assert_eq!(d.vendor_id, 0x5678);
    assert_eq!(d.device_id, 0x1234);
    assert_eq!(d.interrupt_line, 5);
}

#[test]
fn decodes_32_bit_memory_bar() {
    let bar = decode_bar(0, 0x8000_0000, 0xFFFF_F000, None).unwrap();
    assert_eq!(bar.kind, PciBarKind::Memory32);
    assert_eq!(bar.base, 0x8000_0000);
    assert_eq!(bar.size, 0x1000);
}

#[test]
fn decodes_64_bit_prefetchable_bar() {
    let bar = decode_bar(2, 0x0000_000C, 0xFFFF_F000, Some((0x0000_0001, 0xFFFF_FFFF))).unwrap();
    assert_eq!(bar.kind, PciBarKind::Memory64);
    assert!(bar.prefetchable);
    assert_eq!(bar.base, 0x0000_0001_0000_0000);
}

#[test]
fn rejects_invalid_bar_size() {
    assert_eq!(decode_bar(0, 0x1000, 0, None), Err(PciBarError::InvalidSize));
}

#[test]
fn rejects_misaligned_bar() {
    assert_eq!(decode_bar(0, 0x1800, 0xFFFF_F000, None), Err(PciBarError::MisalignedBase));
}

#[test]
fn rejects_64_bit_bar_without_upper_pair() {
    assert_eq!(decode_bar(0, 0x0000_0004, 0xFFFF_F000, None), Err(PciBarError::Unsupported64BitPair));
}

#[test]
fn config_address_encodes_location_and_aligned_offset() {
    let loc = PciLocation { bus: 1, device: 2, function: 3 };
    assert_eq!(config_address(loc, 0x3F), 0x8000_0000 | (1 << 16) | (2 << 11) | (3 << 8) | 0x3C);
}

#[test]
fn block_request_is_bounds_checked() {
    assert!(validate_block_request(BlockRequest { sector: 10, sectors: 2, write: false }, 20).is_ok());
    assert_eq!(validate_block_request(BlockRequest { sector: 19, sectors: 2, write: false }, 20), Err(ReferenceError::InvalidRange));
}

#[test]
fn display_rect_is_bounds_checked() {
    let rect = DisplayRect { x: 10, y: 10, width: 20, height: 20, stride: 80 };
    assert!(validate_display_rect(rect, 100, 100).is_ok());
    assert_eq!(validate_display_rect(rect, 20, 20), Err(ReferenceError::InvalidRange));
}

#[test]
fn reference_devices_are_typed() {
    let q = VirtioQueue::new(128).unwrap();
    assert_eq!(ReferenceDevice::block(q).kind, VirtioKind::Block);
    assert_eq!(ReferenceDevice::network(q).kind, VirtioKind::Network);
    assert_eq!(ReferenceDevice::input(q).kind, VirtioKind::Input);
    assert_eq!(ReferenceDevice::gpu(q).kind, VirtioKind::Gpu);
}

fn descriptor(id: DriverId, trust: DriverTrust) -> DriverDescriptor {
    DriverDescriptor {
        id,
        class: DriverClass::Virtio,
        abi_major: 1,
        abi_minor: 2,
        vendor: 0x1af4,
        device: 0x1001,
        state: DriverState::Discovered,
        trust,
    }
}

#[test]
fn registry_is_bounded_and_tracks_state() {
    let mut r = DriverRegistry::new();
    let id = DriverId(1);
    assert!(r.register(descriptor(id, DriverTrust::Verified)).is_ok());
    assert_eq!(r.set_state(id, DriverState::Running), Ok(()));
    assert_eq!(r.find(id).unwrap().state, DriverState::Running);
}

#[test]
fn registry_rejects_untrusted_descriptors() {
    let mut r = DriverRegistry::new();
    assert_eq!(r.register(descriptor(DriverId(2), DriverTrust::Unverified)), Err(RegistryError::Untrusted));
}

#[test]
fn descriptor_exports_manifest_contract() {
    let d = descriptor(DriverId(3), DriverTrust::Verified);
    let m = d.manifest(0b10, 0b100);
    assert_eq!(m.id, d.id);
    assert_eq!(m.abi_minor, 2);
    assert!(m.is_trusted_for_execution());
}

fn register(supervisor: &mut DriverSupervisor, id: u64) {
    supervisor
        .registry_mut()
        .register(DriverDescriptor {
            id: DriverId(id),
            class: DriverClass::Virtio,
            abi_major: 1,
            abi_minor: 2,
            vendor: 0x1af4,
            device: 0x1001,
            state: DriverState::Discovered,
            trust: DriverTrust::Verified,
        })
        .unwrap();
}

#[test]
fn restart_policy_is_bounded_and_recovery_is_explicit() {
    let mut supervisor = DriverSupervisor::with_restart_budget(2);
    let id = DriverId(7);
    register(&mut supervisor, id.0);
    assert_eq!(supervisor.command(id, DriverCommand::Probe), Ok(DriverState::Starting));
    assert_eq!(supervisor.command(id, DriverCommand::Start), Ok(DriverState::Running));
    assert_eq!(supervisor.command(id, DriverCommand::Reset), Ok(DriverState::Starting));
    assert_eq!(supervisor.restart_count_for(id), 1);
    assert_eq!(supervisor.command(id, DriverCommand::Start), Ok(DriverState::Running));
    assert_eq!(supervisor.command(id, DriverCommand::Reset), Ok(DriverState::Starting));
    assert_eq!(supervisor.restart_count_for(id), 2);
    assert_eq!(supervisor.command(id, DriverCommand::Reset), Err(SupervisorError::RestartBudgetExhausted));
}

#[test]
fn fault_path_is_fail_closed_and_quarantine_is_available() {
    let mut supervisor = DriverSupervisor::new();
    let id = DriverId(8);
    register(&mut supervisor, id.0);
    assert_eq!(supervisor.fault(id), Ok(()));
    assert_eq!(supervisor.registry().find(id).unwrap().state, DriverState::Failed);
    assert_eq!(supervisor.command(id, DriverCommand::Quarantine), Ok(DriverState::Quarantined));
}

#[test]
fn pci_identity_is_fail_closed() {
    assert!(VirtioDevice::new(2, VIRTIO_PCI_VENDOR_ID, VIRTIO_F_VERSION_1).validate_pci_identity().is_ok());
    assert_eq!(VirtioDevice::new(2, 0x1234, VIRTIO_F_VERSION_1).validate_pci_identity(), Err(VirtioError::InvalidVendor));
    assert_eq!(
        VirtioDevice::new(0x10FF, VIRTIO_PCI_VENDOR_ID, VIRTIO_F_VERSION_1).validate_pci_identity(),
        Err(VirtioError::InvalidDevice)
    );
}

#[test]
fn version_1_is_required() {
    let device = VirtioDevice::new(2, VIRTIO_PCI_VENDOR_ID, VIRTIO_F_VERSION_1);
    let ready = device.acknowledge().driver_present().negotiate(VIRTIO_F_VERSION_1).unwrap().ready();
    assert!(ready.is_ok());
}

#[test]
fn queue_requires_power_of_two_and_bound() {
    assert!(VirtioQueue::new(128).is_ok());
    assert_eq!(VirtioQueue::new(3), Err(VirtioError::QueueTooLarge));
    assert_eq!(VirtioQueue::new(2048), Err(VirtioError::QueueTooLarge));
}

#[test]
fn queue_pending_rejects_corrupt_distance() {
    let queue = VirtioQueue { size: 8, used_index: 0, avail_index: 9 };
    assert_eq!(queue.pending(), Err(VirtioError::QueueOverflow));
    let queue = VirtioQueue { size: 8, used_index: 10, avail_index: 17 };
    assert_eq!(queue.pending(), Ok(7));
}

#[test]
fn negotiation_without_version_one_fails() {
    let device = VirtioDevice::new(2, VIRTIO_PCI_VENDOR_ID, 0);
    assert_eq!(device.acknowledge().driver_present().negotiate(VIRTIO_F_VERSION_1).err(), Some(VirtioError::MissingVersion1));
}

#[test]
fn driver_update_then_rollback_restores_the_version() {
    let signer = DriverSignerKey { key_id: 1, fingerprint: [0x10; 16], is_certified: true };
    let expected_sig = (0x55u8).wrapping_mul(16) ^ 0x10 ^ 0xC5;
    let b = build_asd_bytes(8, 16, 64, expected_sig);
    let meta = DriverMeta { driver_id: 600, version: 1, signer, capabilities: DRV_CAP_MMIO };
    let mut mgr = DriverPackageManager::new();
    mgr.install_driver(&b, meta).unwrap();
    assert_eq!(mgr.rollback_driver(600), Err(AsdError::RollbackFailed));
    mgr.update_driver(DriverMeta { version: 2, ..meta }, &b).unwrap();
    let r = mgr.get_record(600).unwrap();
    assert_eq!((r.active_version, r.backup_version), (2, Some(1)));
    assert_eq!(mgr.rollback_driver(600), Ok(1));
    let r = mgr.get_record(600).unwrap();
    assert_eq!((r.active_version, r.backup_version, r.state), (1, None, PackageState::Installed));
    assert_eq!(mgr.rollback_driver(600), Err(AsdError::RollbackFailed));
    assert_eq!(mgr.rollback_driver(601), Err(AsdError::DriverNotFound));
}

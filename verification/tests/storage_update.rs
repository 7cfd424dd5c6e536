use aweos::storaged::persistence::{export_state, import_state, PersistError, HEADER_LEN, MAX_STATE_SIZE};
use aweos::storaged::{StorageDaemon, VolumeType, BLOCK_SIZE};
use aweos::update::transaction::Transaction;
use aweos::update::{validate_manifest, Slot, SlotState, UpdateError, UpdateManager, UpdateManifest, Version};

#[test]
fn test_storaged_lifecycle() {
    let mut s = StorageDaemon::new();
    let v = s.register_volume(VolumeType::Ramdisk, 2048, 0, false).unwrap();
    assert_eq!(v, 1);
    assert_eq!(s.mount_volume(v, 0x1234_5678).unwrap(), 1);
    assert_eq!(s.create_snapshot(v, 1000).unwrap(), 1);
    let d = [0xAB; BLOCK_SIZE];
    s.cache_write(v, 42, &d).unwrap();
    assert_eq!(s.cache_read(v, 42).unwrap()[0], 0xAB);
    let f = s.store_package_file(v, 0x112233, 4096).unwrap();
    assert_eq!(f, 1);
    assert!(s.trigger_self_healing_repair(v));
    assert_eq!(s.self_healed_events, 1);
    s.delete_package_file(f).unwrap();
    assert!(s.delete_package_file(f).is_err());
}

#[test]
fn state_round_trip_restores_metadata_and_counters() {
    let mut s = StorageDaemon::new();
    let v = s.register_volume(VolumeType::AweFsVolume, 4096, 64, false).unwrap();
    s.mount_volume(v, 0x55AA).unwrap();
    s.create_snapshot(v, 123456).unwrap();
    s.store_package_file(v, 0xABCDEF, 8192).unwrap();
    let mut b = [0u8; MAX_STATE_SIZE];
    let len = export_state(&s, &mut b).unwrap();
    let mut r = StorageDaemon::new();
    import_state(&mut r, &b[..len]).unwrap();
    assert_eq!(r.volumes[0].unwrap().block_count, 4096);
    assert_eq!(r.mounts[0].unwrap().path_hash, 0x55AA);
    assert_eq!(r.snapshots[0].unwrap().timestamp, 123456);
    assert_eq!(r.files[0].unwrap().size_bytes, 8192);
    assert_eq!(r.register_volume(VolumeType::Ramdisk, 1, 1, true).unwrap(), 2);
    assert_eq!(r.mount_volume(2, 3).unwrap(), 2)
}

#[test]
fn tampering_is_rejected_by_checksum() {
    let s = StorageDaemon::new();
    let mut b = [0u8; MAX_STATE_SIZE];
    let len = export_state(&s, &mut b).unwrap();
    b[len - 1] ^= 1;
    let mut r = StorageDaemon::new();
    assert_eq!(import_state(&mut r, &b[..len]), Err(PersistError::ChecksumMismatch))
}

#[test]
fn header_counts_survive_checksum_storage() {
    let mut s = StorageDaemon::new();
    let v = s.register_volume(VolumeType::VirtualDisk, 32, 7, false).unwrap();
    s.mount_volume(v, 9).unwrap();
    let mut b = [0u8; MAX_STATE_SIZE];
    let len = export_state(&s, &mut b).unwrap();
    assert!(len >= HEADER_LEN);
    let mut r = StorageDaemon::new();
    import_state(&mut r, &b[..len]).unwrap();
    assert_eq!(r.volumes[0].unwrap().volume_id, 1);
    assert!(r.mounts[0].is_some())
}

#[test]
fn truncated_state_is_refused() {
    let s = StorageDaemon::new();
    let mut b = [0u8; MAX_STATE_SIZE];
    let len = export_state(&s, &mut b).unwrap();
    let mut r = StorageDaemon::new();
    assert!(import_state(&mut r, &b[..len - 1]).is_err());
    assert!(import_state(&mut r, &b[..4]).is_err());
}

#[test]
fn mounting_an_unknown_volume_fails() {
    let mut s = StorageDaemon::new();
    assert!(s.mount_volume(3, 1).is_err());
    assert!(s.cache_read(3, 0).is_none());
}

fn manifest(generation: u64) -> UpdateManifest {
    UpdateManifest {
        version: Version::new(b"1.1.0").unwrap(),
        generation,
        payload_len: 1024,
        payload_digest: [7; 32],
        min_generation: generation,
    }
}

#[test]
fn atomic_ab_update_promotes_only_healthy_slot() {
    let mut manager = UpdateManager::new(1);
    manager.stage(Slot::B, manifest(2)).unwrap();
    assert_eq!(manager.boot_pending().unwrap(), Slot::B);
    manager.mark_healthy(Slot::B).unwrap();
    assert_eq!(manager.active(), Slot::B);
    assert_eq!(manager.generation(), 2);
}

#[test]
fn failed_update_rolls_back() {
    let mut manager = UpdateManager::new(1);
    manager.stage(Slot::B, manifest(2)).unwrap();
    manager.boot_pending().unwrap();
    manager.mark_failed(Slot::B).unwrap();
    manager.rollback(Slot::B).unwrap();
    assert_eq!(manager.active(), Slot::A);
}

#[test]
fn downgrades_are_rejected() {
    assert_eq!(validate_manifest(manifest(1), 2), Err(UpdateError::Downgrade));
}

fn product_manifest(generation: u64) -> UpdateManifest {
    UpdateManifest {
        version: Version::new(b"1.0.0").expect("valid version"),
        generation,
        payload_len: 4096,
        payload_digest: [0xA5; 32],
        min_generation: generation,
    }
}

#[test]
fn ab_update_boot_health_and_rollback_are_exercised_end_to_end() {
    let mut manager = UpdateManager::new(10);
    manager.stage(Slot::B, product_manifest(11)).expect("stage update");
    assert_eq!(manager.boot_pending().expect("boot pending"), Slot::B);
    assert_eq!(manager.state(Slot::B), SlotState::Booting);
    manager.mark_failed(Slot::B).expect("mark failed");
    manager.rollback(Slot::B).expect("rollback");
    assert_eq!(manager.active(), Slot::A);
    assert_eq!(manager.generation(), 10);
    manager.stage(Slot::B, product_manifest(11)).expect("restage update");
    manager.boot_pending().expect("boot pending");
    manager.mark_healthy(Slot::B).expect("healthy boot");
    assert_eq!(manager.active(), Slot::B);
    assert_eq!(manager.generation(), 11);
}

#[test]
fn version_strings_are_bounded() {
    assert!(Version::new(b"").is_none());
    assert!(Version::new(&[b'1'; 33]).is_none());
    assert_eq!(Version::new(b"2.0").unwrap().len, 3);
}

#[test]
fn booting_without_a_staged_slot_is_refused() {
    let mut manager = UpdateManager::new(1);
    assert!(manager.boot_pending().is_err());
    assert_eq!(manager.active(), Slot::A);
}

#[test]
fn transaction_recovery_returns_to_the_active_slot() {
    let mut manager = UpdateManager::new(1);
    let tx = Transaction::begin(&manager, Slot::B, manifest(2)).unwrap();
    manager.stage(Slot::B, manifest(2)).unwrap();
    manager.boot_pending().unwrap();
    tx.recover(&mut manager).unwrap();
    assert_eq!(manager.active(), Slot::A);
    assert_eq!(manager.state(Slot::B), SlotState::Failed);
    let committed = Transaction::begin(&manager, Slot::B, manifest(2)).unwrap().commit();
    assert!(committed.committed);
}

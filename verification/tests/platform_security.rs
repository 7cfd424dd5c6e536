use aweos::platformd::{
    checksum32, validate_path, BootInfo, Compositor, DeviceManager, DeviceState, Logger, Recovery, ServiceManager, Slot, Window,
};
use aweos::securityd::crypto::{ed25519_keypair_from_seed, ed25519_sign, ed25519_verify, hmac_sha256, sha256, sha512};
use aweos::securityd::{SecurityDaemon, SHA256_DIGEST_LEN};

#[test]
fn boot_is_fail_closed() {
    assert!(BootInfo { abi_major: 1, abi_minor: 0, memory_bytes: 16 * 1024 * 1024, cpu_count: 2 }.validate().is_ok());
    assert!(BootInfo { abi_major: 2, abi_minor: 0, memory_bytes: 16 * 1024 * 1024, cpu_count: 2 }.validate().is_err());
}

#[test]
fn device_lifecycle_is_bounded() {
    let mut m = DeviceManager::new();
    m.discover(1, 2).unwrap();
    m.transition(1, DeviceState::Probed, 7).unwrap();
    m.transition(1, DeviceState::Bound, 7).unwrap();
    m.transition(1, DeviceState::Running, 7).unwrap();
    assert!(m.transition(1, DeviceState::Removed, 7).is_err());
    m.transition(1, DeviceState::Quarantined, 7).unwrap();
}

#[test]
fn service_recovery_and_logging_work() {
    let mut s = ServiceManager::new();
    s.register(1, 3, 64).unwrap();
    s.start(1).unwrap();
    s.fail_and_quarantine(1).unwrap();
    let mut r = Recovery::new(4);
    r.stage(Slot::B, 5).unwrap();
    assert_eq!(r.boot().unwrap(), Slot::B);
    r.healthy().unwrap();
    let mut l = Logger::new();
    for i in 0..140 {
        l.push(i, i as u64);
    }
    assert_eq!(l.len(), 128);
}

#[test]
fn ui_and_input_boundaries_are_safe() {
    let mut c = Compositor::new();
    c.create(Window { id: 1, x: 0, y: 0, w: 800, h: 600 }).unwrap();
    assert_eq!(c.count(), 1);
    assert!(validate_path(b"/etc/awe.conf").is_ok());
    assert!(validate_path(b"/etc/../secret").is_err());
}

#[test]
fn deterministic_checksum_is_stable() {
    assert_eq!(checksum32(b"AWE_OS"), checksum32(b"AWE_OS"));
    assert_ne!(checksum32(b"AWE_OS"), checksum32(b"AWE_X"));
}

#[test]
fn checksum_of_empty_input_is_the_offset_basis() {
    assert_eq!(checksum32(b""), 0x811c9dc5);
    assert_eq!(checksum32(b"a"), 0xe40c292c);
}

#[test]
fn failed_boot_rolls_back_to_the_other_slot() {
    let mut r = Recovery::new(4);
    r.stage(Slot::B, 5).unwrap();
    assert_eq!(r.boot().unwrap(), Slot::B);
    assert_eq!(r.fail_and_rollback().unwrap(), Slot::A);
    assert!(r.stage(Slot::B, 3).is_err());
}

#[test]
fn test_sha256_rfc_vectors() {
    assert_eq!(
        sha256(b""),
        [
            0xe3, 0xb0, 0xc4, 0x42, 0x98, 0xfc, 0x1c, 0x14, 0x9a, 0xfb, 0xf4, 0xc8, 0x99, 0x6f, 0xb9, 0x24, 0x27, 0xae, 0x41,
            0xe4, 0x64, 0x9b, 0x93, 0x4c, 0xa4, 0x95, 0x99, 0x1b, 0x78, 0x52, 0xb8, 0x55
        ]
    );
    assert_eq!(
        sha256(b"abc"),
        [
            0xba, 0x78, 0x16, 0xbf, 0x8f, 0x01, 0xcf, 0xea, 0x41, 0x41, 0x40, 0xde, 0x5d, 0xae, 0x22, 0x23, 0xb0, 0x03, 0x61,
            0xa3, 0x96, 0x17, 0x7a, 0x9c, 0xb4, 0x10, 0xff, 0x61, 0xf2, 0x00, 0x15, 0xad
        ]
    );
}

#[test]
fn test_hmac_sha256_rfc4231_vector1() {
    let key = [0x0bu8; 20];
    let data = b"Hi There";
    let expected = [
        0xb0, 0x34, 0x4c, 0x61, 0xd8, 0xdb, 0x38, 0x53, 0x5c, 0xa8, 0xaf, 0xce, 0xaf, 0x0b, 0xf1, 0x2b, 0x88, 0x1d, 0xc2, 0x00,
        0xc9, 0x83, 0x3d, 0xa7, 0x26, 0xe9, 0x37, 0x6c, 0x2e, 0x32, 0xcf, 0xf7,
    ];
    assert_eq!(hmac_sha256(&key, data), expected);
}

#[test]
fn test_ed25519_sign_verify_roundtrip() {
    let seed = [0x42u8; 32];
    let (pk, sk) = ed25519_keypair_from_seed(&seed);
    let msg = b"AWE_OS 1.0 Production Key Certification";
    let sig = ed25519_sign(&sk, &msg[..]);
    assert!(ed25519_verify(&pk, &msg[..], &sig));
    let mut tampered_msg = msg.to_vec();
    tampered_msg[0] ^= 1;
    assert!(!ed25519_verify(&pk, &tampered_msg[..], &sig));
    let mut tampered_sig = sig;
    tampered_sig[0] ^= 1;
    assert!(!ed25519_verify(&pk, &msg[..], &tampered_sig));
}

#[test]
fn keypair_secret_holds_seed_then_public_key() {
    let seed = [0x07u8; 32];
    let (pk, sk) = ed25519_keypair_from_seed(&seed);
    assert_eq!(&sk[..32], &seed[..]);
    assert_eq!(&sk[32..], &pk[..]);
}

#[test]
fn sha512_of_abc() {
    let d = sha512(b"abc");
    assert_eq!(&d[..4], &[0xdd, 0xaf, 0x35, 0xa1]);
    assert_eq!(&d[60..], &[0xa5, 0x4c, 0xa4, 0x9f]);
}

#[test]
fn test_securityd_pcr_keys_and_tokens() {
    let mut sec = SecurityDaemon::new([0xA5; 16]);
    let digest = [0x11; SHA256_DIGEST_LEN];
    sec.extend_pcr(0, &digest).unwrap();
    assert_eq!(sec.get_pcr(0).unwrap(), digest);
    let kid = sec.store_key(1001, [0xEE; 32]).unwrap();
    assert_eq!(sec.get_key(kid, 1001).unwrap(), [0xEE; 32]);
    assert!(sec.get_key(kid, 9999).is_err());
    let token = sec.issue_token(1001, 0b101, 1000, 500).unwrap();
    assert!(sec.validate_token(token.token_id, 1001, 0b001, 1200));
    assert!(!sec.validate_token(token.token_id, 1001, 0b010, 1200));
    assert!(!sec.validate_token(token.token_id, 1001, 0b001, 1600));
}

#[test]
fn pcr_index_out_of_range_is_refused() {
    let mut sec = SecurityDaemon::new([0; 16]);
    assert!(sec.extend_pcr(24, &[0; SHA256_DIGEST_LEN]).is_err());
    assert!(sec.get_pcr(24).is_err());
}

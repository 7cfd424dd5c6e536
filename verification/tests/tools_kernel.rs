use aweos::appd::awos::{
    package_transition, validate_awos, AppPackageManager, AppPackageState, AwosError, PackageDependency, PackageMeta,
    PublisherIdentity, RepositoryIndex,
    SandboxProfile, AWOS_HEADER_LEN, AWOS_MAGIC, AWOS_VERSION, MAX_PACKAGE_DEPS,
};
use aweos::kernel::{BootAllocator, PageFlags, VirtAddr};
use aweos::securityd::crypto::{ed25519_keypair_from_seed, ed25519_sign};
use aweos::tools::aosin::{AosinGuiApp, HostAction, InstallationMode, InstallerPage};
use aweos::tools::awescript::ScriptInterpreter;
use aweos::tools::builder::{build_container, inspect_package, package_awos, BuildError};

#[test]
fn test_awescript_interpreter_env_and_eval() {
    let mut interp = ScriptInterpreter::new();
    let var_hash = 0x1234_5678;
    interp.set_var(var_hash, 42).unwrap();
    assert_eq!(interp.get_var(var_hash), Some(42));
    let sum = interp.evaluate_expression(10, b'+', 20).unwrap();
    assert_eq!(sum, 30);
    let div = interp.evaluate_expression(100, b'/', 4).unwrap();
    assert_eq!(div, 25);
    assert!(interp.evaluate_expression(10, b'/', 0).is_err());
}

#[test]
fn script_division_truncates_toward_zero() {
    let interp = ScriptInterpreter::new();
    assert_eq!(interp.evaluate_expression(-7, b'/', 2), Ok(-3));
    assert_eq!(interp.evaluate_expression(7, b'/', -2), Ok(-3));
    assert_eq!(interp.evaluate_expression(-7, b'/', -2), Ok(3));
    assert_eq!(interp.evaluate_expression(6, b'*', -7), Ok(-42));
    assert_eq!(interp.evaluate_expression(1, b'%', 1), Err("Unsupported operator"));
}

#[test]
fn script_variables_overwrite_in_place() {
    let mut interp = ScriptInterpreter::new();
    interp.set_var(1, 5).unwrap();
    interp.set_var(1, 6).unwrap();
    assert_eq!(interp.get_var(1), Some(6));
    assert_eq!(interp.get_var(2), None);
}

#[test]
fn test_aosin_gui_page_navigation_and_mode_selection() {
    let mut app = AosinGuiApp::new();
    assert_eq!(app.current_page, InstallerPage::Welcome);
    app.handle_click(750, 680);
    assert_eq!(app.current_page, InstallerPage::SystemScan);
    app.handle_click(750, 680);
    assert_eq!(app.current_page, InstallerPage::ModeSelection);
    app.handle_click(400, 250);
    assert_eq!(app.selected_mode, InstallationMode::DualBoot);
    app.handle_click(750, 680);
    assert_eq!(app.current_page, InstallerPage::MigrationOptions);
    let mut buf = vec![0u8; 800 * 600 * 4];
    app.render_frame(&mut buf, 800, 600);
    assert!(!buf.iter().all(|&b| b == 0));
}

#[test]
fn leaving_the_options_page_runs_the_selected_mode() {
    let mut app = AosinGuiApp::new();
    app.next_page();
    app.next_page();
    app.handle_click(700, 200);
    assert_eq!(app.selected_mode, InstallationMode::FullMigration);
    app.next_page();
    app.handle_click(200, 250);
    assert!(!app.preserve_files);
    let act = app.handle_click(750, 680);
    assert_eq!(act, Some(HostAction::MigrateInPlace));
    assert_eq!(app.current_page, InstallerPage::Complete);
    assert_eq!(app.progress_percent, 100);
}

#[test]
fn rendered_frame_has_header_colour_and_background() {
    let app = AosinGuiApp::new();
    let mut buf = vec![0u8; 1000 * 720 * 4];
    app.render_frame(&mut buf, 1000, 720);
    let header = ((5 * 1000 + 990) * 4) as usize;
    assert_eq!(&buf[header..header + 4], &[215, 120, 0, 255]);
    let background = ((715 * 1000 + 5) * 4) as usize;
    assert_eq!(&buf[background..background + 4], &[30, 20, 16, 255]);
    let button = ((705 * 1000 + 935) * 4) as usize;
    assert_eq!(&buf[button..button + 4], &[80, 160, 0, 255]);
}

#[test]
fn signed_package_validates_and_inspects() {
    let manifest = [1u8; 10];
    let code = [2u8, 3, 4];
    let data = [9u8; 5];
    let image = package_awos(&manifest, &code, &data, 0x12).unwrap();
    assert_eq!(image.len(), 32 + 10 + 3 + 5 + 64);
    assert_eq!(image[image.len() - 64], (2u8 + 3 + 4) ^ 0x12 ^ 0xA5);
    let header = validate_awos(&image).unwrap();
    assert_eq!(header.code_len, 3);
    assert_eq!(header.signature_len, 64);
    let summary = inspect_package(&image).unwrap();
    assert_eq!(summary.manifest_len, 10);
    assert_eq!(summary.data_len, 5);
    assert_eq!(summary.total_len, image.len());
    assert_eq!(package_awos(&manifest, &[], &data, 0), Err(BuildError::InvalidBounds));
    assert_eq!(inspect_package(b"NOPE"), Err(BuildError::InvalidHeader));
}

#[test]
fn container_has_a_36_byte_header() {
    let image = build_container(b"m", b"cc", b"").unwrap();
    assert_eq!(image.len(), 36 + 1 + 2);
    assert_eq!(&image[..4], b"AWOS");
    assert_eq!(&image[12..16], &1u32.to_le_bytes());
    assert_eq!(&image[16..20], &2u32.to_le_bytes());
    assert_eq!(build_container(&[0u8; 8193], b"c", b""), Err(BuildError::InvalidBounds));
}

fn awos_package(manifest: usize, code: usize, data: usize, signature: usize, sig_byte0: u8) -> Vec<u8> {
    let mut bytes = Vec::with_capacity(AWOS_HEADER_LEN + manifest + code + data + signature);
    bytes.extend_from_slice(&AWOS_MAGIC);
    bytes.extend_from_slice(&AWOS_VERSION.to_le_bytes());
    bytes.extend_from_slice(&1u16.to_le_bytes());
    bytes.extend_from_slice(&0u16.to_le_bytes());
    bytes.extend_from_slice(&(manifest as u32).to_le_bytes());
    bytes.extend_from_slice(&(code as u32).to_le_bytes());
    bytes.extend_from_slice(&(data as u32).to_le_bytes());
    bytes.extend_from_slice(&(signature as u16).to_le_bytes());
    bytes.extend_from_slice(&0u32.to_le_bytes());
    bytes.extend_from_slice(&0u32.to_le_bytes());
    bytes.extend(core::iter::repeat_n(0u8, manifest));
    bytes.extend(core::iter::repeat_n(0x90u8, code));
    bytes.extend(core::iter::repeat_n(0u8, data));
    let mut sig_vec = vec![0u8; signature];
    sig_vec[0] = sig_byte0;
    bytes.extend_from_slice(&sig_vec);
    bytes
}

#[test]
fn awos_admission_and_lifecycle_are_exercised_end_to_end() {
    let seed = [0x77u8; 32];
    let (_pk, sk) = ed25519_keypair_from_seed(&seed);
    let code_bytes = vec![0x90u8; 256];
    let real_sig = ed25519_sign(&sk, &code_bytes);
    let mut package = awos_package(16, 256, 32, 64, 0);
    let sig_offset = AWOS_HEADER_LEN + 16 + 256 + 32;
    package[sig_offset..sig_offset + 64].copy_from_slice(&real_sig);
    assert!(validate_awos(&package).is_ok());
    let mut malformed = package.clone();
    malformed[24..28].copy_from_slice(&256u32.to_le_bytes());
    assert!(validate_awos(&malformed).is_err());
    assert!(package_transition(AppPackageState::Installed, AppPackageState::Running));
    assert!(package_transition(AppPackageState::Running, AppPackageState::Failed));
    assert!(package_transition(AppPackageState::Failed, AppPackageState::Quarantined));
    assert!(package_transition(AppPackageState::Installed, AppPackageState::Removed));
}

#[test]
fn boot_allocator_aligns_and_stops_at_the_end() {
    let mut a = BootAllocator::new(0x1001, 0x2000);
    assert_eq!(a.alloc_region(0x100, 0x1000), None);
    assert_eq!(a.alloc_region(0x10, 0x10), Some(0x1010));
    assert_eq!(a.alloc_region(0x10, 0), Some(0x1020));
    let mut b = BootAllocator::new(0x1000, 0x3000);
    assert_eq!(b.alloc_region(0x100, 0x1000), Some(0x1000));
    assert_eq!(b.alloc_region(0x100, 0x1000), Some(0x2000));
    assert_eq!(b.alloc_region(0x100, 0x1000), None);
}

#[test]
fn virtual_addresses_are_checked_for_canonical_form() {
    assert!(VirtAddr(0x0000_7fff_ffff_ffff).is_canonical());
    assert!(VirtAddr(0xffff_8000_0000_0000).is_canonical());
    assert!(!VirtAddr(0x0001_0000_0000_0000).is_canonical());
    assert_eq!(VirtAddr(0x1234).offset(), 0x234);
    assert_eq!(PageFlags::Writable.bits(), 2);
}

fn plain_awos(m: usize, c: usize, d: usize) -> Vec<u8> {
    let mut b = Vec::new();
    b.extend_from_slice(&AWOS_MAGIC);
    b.extend_from_slice(&AWOS_VERSION.to_le_bytes());
    b.extend_from_slice(&1u16.to_le_bytes());
    b.extend_from_slice(&0u16.to_le_bytes());
    b.extend_from_slice(&(m as u32).to_le_bytes());
    b.extend_from_slice(&(c as u32).to_le_bytes());
    b.extend_from_slice(&(d as u32).to_le_bytes());
    b.extend_from_slice(&64u16.to_le_bytes());
    b.extend_from_slice(&0u32.to_le_bytes());
    b.extend_from_slice(&0u32.to_le_bytes());
    b.extend(core::iter::repeat_n(0u8, m));
    b.extend(core::iter::repeat_n(0x90u8, c));
    b.extend(core::iter::repeat_n(0u8, d));
    b.extend(core::iter::repeat_n(0u8, 64));
    b
}

#[test]
fn signature_binds_full_payload() {
    let seed = [7u8; 32];
    let (pk, sk) = ed25519_keypair_from_seed(&seed);
    let p = PublisherIdentity { publisher_id: 1, public_key: pk, is_official: true };
    let mut b = plain_awos(4, 8, 2);
    let n = b.len() - 64;
    let sig = ed25519_sign(&sk, &b[..n]);
    b[n..].copy_from_slice(&sig);
    let meta = PackageMeta {
        package_id: 1,
        version: 1,
        publisher: p,
        sandbox: SandboxProfile::strict_default(1),
        dependencies: [None; MAX_PACKAGE_DEPS],
        dep_count: 0,
    };
    let mut m = AppPackageManager::new();
    m.install_package(&b, meta).unwrap();
    assert_eq!(m.get_installed_record(1).unwrap().active_version, 1);
    b[33] ^= 1;
    assert_eq!(m.update_package(meta, &b), Err(AwosError::InvalidSignature))
}

#[test]
fn update_then_rollback_restores_the_version() {
    let seed = [9u8; 32];
    let (pk, sk) = ed25519_keypair_from_seed(&seed);
    let p = PublisherIdentity { publisher_id: 2, public_key: pk, is_official: true };
    let mut b = plain_awos(4, 8, 2);
    let n = b.len() - 64;
    let sig = ed25519_sign(&sk, &b[..n]);
    b[n..].copy_from_slice(&sig);
    let meta = PackageMeta {
        package_id: 5,
        version: 1,
        publisher: p,
        sandbox: SandboxProfile::strict_default(5),
        dependencies: [None; MAX_PACKAGE_DEPS],
        dep_count: 0,
    };
    let mut m = AppPackageManager::new();
    m.install_package(&b, meta).unwrap();
    m.update_package(PackageMeta { version: 2, ..meta }, &b).unwrap();
    assert_eq!(m.get_installed_record(5).unwrap().active_version, 2);
    assert_eq!(m.rollback_package(5), Ok(1));
    assert_eq!(m.get_installed_record(5).unwrap().active_version, 1);
    assert_eq!(m.rollback_package(5), Err(AwosError::RollbackFailed));
    assert_eq!(m.uninstall_package(5), Ok(()));
    assert_eq!(m.get_installed_record(5), Err(AwosError::PackageNotFound));
}

fn indexed(id: u64, deps: &[u64]) -> PackageMeta {
    let mut dependencies = [None; MAX_PACKAGE_DEPS];
    for (k, d) in deps.iter().enumerate() {
        dependencies[k] = Some(PackageDependency { dep_package_id: *d, min_version: 1 });
    }
    PackageMeta {
        package_id: id,
        version: 1,
        publisher: PublisherIdentity { publisher_id: 1, public_key: [0; 32], is_official: true },
        sandbox: SandboxProfile::strict_default(id),
        dependencies,
        dep_count: deps.len(),
    }
}

#[test]
fn dependencies_resolve_depth_first() {
    let mut index = RepositoryIndex::new();
    index.register(indexed(1, &[2, 3])).unwrap();
    index.register(indexed(2, &[3])).unwrap();
    index.register(indexed(3, &[])).unwrap();
    let out = index.resolve_dependencies(1).unwrap();
    assert_eq!(&out[..4], &[1, 3, 2, 0]);
    assert_eq!(index.resolve_dependencies(2).unwrap()[..3], [2, 3, 0]);
    assert_eq!(index.resolve_dependencies(9), Err(AwosError::DependencyMissing));
    index.register(indexed(4, &[5])).unwrap();
    assert_eq!(index.resolve_dependencies(4), Err(AwosError::DependencyMissing));
}

#[test]
fn dependency_cycles_terminate() {
    let mut index = RepositoryIndex::new();
    index.register(indexed(1, &[2])).unwrap();
    index.register(indexed(2, &[1])).unwrap();
    assert_eq!(index.resolve_dependencies(1).unwrap()[..3], [1, 2, 0]);
}

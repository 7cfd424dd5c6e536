use aweos::appd::{
    validate_declarations, validate_manifest, validate_package, AppError, AppId, AppManifest, AppState, PackageHeader,
    AWE_APP_ABI_MAJOR, AWE_APP_ABI_MINOR, MAX_DEPS, MAX_PAYLOAD, MAX_RESOURCES, PACKAGE_HEADER_SIZE,
};
use aweos::appd::catalog::{builtin_apps, manifest as catalog_manifest};
use aweos::appd::runtime::{RuntimeError, Supervisor, MAX_FAILURES};

#[test]
fn rejects_oversized_package() {
    let h = PackageHeader { version: 1, manifest_len: 1, payload_len: (MAX_PAYLOAD + 1) as u32, signature_len: 64 };
    assert_eq!(validate_package(h, 0), Err(AppError::InvalidManifest));
}

#[test]
fn rejects_short_signature() {
    let h = PackageHeader { version: 1, manifest_len: 1, payload_len: 1, signature_len: 31 };
    assert_eq!(validate_package(h, PACKAGE_HEADER_SIZE + 1 + 1 + 31), Err(AppError::InvalidManifest));
}

#[test]
fn validates_bounded_manifest() {
    let m = AppManifest {
        id: AppId(1),
        abi_major: 1,
        abi_minor: 3,
        memory_limit_pages: 4,
        capability_mask: 1,
        dependency_count: 1,
        resource_count: 1,
    };
    assert!(validate_manifest(m).is_ok());
}

#[test]
fn declaration_limits_fail_closed() {
    assert_eq!(validate_declarations(MAX_DEPS + 1, 0), Err(AppError::TooManyDependencies));
    assert_eq!(validate_declarations(0, MAX_RESOURCES + 1), Err(AppError::TooManyResources));
}

fn spawn(app: AppId, memory: u32, _caps: u64) -> Result<u64, ()> {
    if app.0 == 0 || memory == 0 { Err(()) } else { Ok(0x1000 + app.0) }
}

fn window(app: AppId) -> Result<u16, ()> {
    if app.0 == 0 || app.0 > u16::MAX as u64 { Err(()) } else { Ok(app.0 as u16) }
}

fn manifest(id: u64) -> AppManifest {
    AppManifest {
        id: AppId(id),
        abi_major: AWE_APP_ABI_MAJOR,
        abi_minor: AWE_APP_ABI_MINOR,
        memory_limit_pages: 4,
        capability_mask: 0b101,
        dependency_count: 0,
        resource_count: 0,
    }
}

#[test]
fn admission_start_and_stop_are_real_lifecycle_steps() {
    let mut s = Supervisor::new(spawn, window);
    s.admit_app(manifest(1)).unwrap();
    let pid = s.start(AppId(1), 0b111).unwrap();
    assert_eq!(pid, 0x1001);
    assert_eq!(s.record(AppId(1)).unwrap().window_id, 1);
    assert_eq!(s.state(AppId(1)), Some(AppState::Running));
    s.stop(AppId(1)).unwrap();
    assert_eq!(s.state(AppId(1)), Some(AppState::Stopped));
}

#[test]
fn capability_admission_is_fail_closed() {
    let mut s = Supervisor::new(spawn, window);
    s.admit_app(manifest(2)).unwrap();
    assert_eq!(s.start(AppId(2), 0b001), Err(RuntimeError::CapabilityDenied));
}

#[test]
fn repeated_failures_quarantine_app() {
    let mut s = Supervisor::new(spawn, window);
    s.admit_app(manifest(3)).unwrap();
    s.start(AppId(3), 0b111).unwrap();
    for _ in 0..MAX_FAILURES {
        assert_eq!(s.report_failure(AppId(3)).unwrap(), AppState::Failed);
        s.start(AppId(3), 0b111).unwrap();
    }
    assert_eq!(s.report_failure(AppId(3)).unwrap(), AppState::Quarantined);
}

#[test]
fn quarantined_app_cannot_start_again() {
    let mut s = Supervisor::new(spawn, window);
    s.admit_app(manifest(4)).unwrap();
    s.start(AppId(4), 0b111).unwrap();
    for _ in 0..MAX_FAILURES {
        s.report_failure(AppId(4)).unwrap();
        s.start(AppId(4), 0b111).unwrap();
    }
    s.report_failure(AppId(4)).unwrap();
    assert_eq!(s.start(AppId(4), 0b111), Err(RuntimeError::Quarantined));
}

#[test]
fn duplicate_and_invalid_admissions_are_refused() {
    let mut s = Supervisor::new(spawn, window);
    s.admit_app(manifest(5)).unwrap();
    assert_eq!(s.admit_app(manifest(5)), Err(RuntimeError::Duplicate));
    assert_eq!(s.admit_app(manifest(0)), Err(RuntimeError::InvalidManifest));
    assert_eq!(s.start(AppId(99), 0b111), Err(RuntimeError::NotFound));
    assert_eq!(s.stop(AppId(5)), Err(RuntimeError::InvalidTransition));
}

#[test]
fn manifest_verdicts_cover_each_error() {
    let mut m = manifest(7);
    assert_eq!(validate_manifest(m), Ok(()));
    m.abi_major = 2;
    assert_eq!(validate_manifest(m), Err(AppError::InvalidManifest));
    let mut m = manifest(7);
    m.dependency_count = (MAX_DEPS + 1) as u16;
    assert_eq!(validate_manifest(m), Err(AppError::TooManyDependencies));
    let mut m = manifest(7);
    m.resource_count = (MAX_RESOURCES + 1) as u16;
    assert_eq!(validate_manifest(m), Err(AppError::TooManyResources));
    assert_eq!(validate_declarations(MAX_DEPS, MAX_RESOURCES), Ok(()));
}

#[test]
fn package_length_must_match_sections() {
    let h = PackageHeader { version: 1, manifest_len: 10, payload_len: 20, signature_len: 32 };
    assert_eq!(validate_package(h, PACKAGE_HEADER_SIZE + 10 + 20 + 32), Ok(()));
    assert_eq!(validate_package(h, PACKAGE_HEADER_SIZE + 10 + 20 + 33), Err(AppError::InvalidManifest));
}

#[test]
fn builtin_catalog_manifests_validate() {
    for app in builtin_apps().iter() {
        assert_eq!(validate_manifest(catalog_manifest(*app)), Ok(()));
    }
}

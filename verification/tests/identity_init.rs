use aweos::identityd::{authorize, Credential, GroupId, GroupSet, IdentityError, UserId, MAX_GROUPS};
use aweos::initd::contracts::{
    recovery_action, start_core_manager, validate_user_image, BoundedPath, CoreError, CoreManager, CoreManagerKind,
    CoreManagerRegistry, CrashRecord, RecoveryAction, SecurityPolicy, UserImage,
};
use aweos::initd::runtime::{RuntimeError, ServiceRuntimeSpec, Supervisor, MAX_DEPENDENCIES, MAX_FAILURES};
use aweos::initd::{transition, validate_spec, RestartPolicy, ServiceError, ServiceId, ServiceSpec, ServiceState, ServiceTable, MAX_SERVICES};

#[test]
fn capability_check_is_exact() {
    let c = Credential { user: UserId(1), primary_group: GroupId(1), capability_mask: 0b101 };
    assert!(authorize(c, 0b001).is_ok());
    assert!(authorize(c, 0b010).is_err());
}

#[test]
fn invalid_credential_is_rejected_before_authorization() {
    let c = Credential { user: UserId(u32::MAX), primary_group: GroupId(1), capability_mask: u64::MAX };
    assert_eq!(authorize(c, 1), Err(IdentityError::InvalidUser));
}

#[test]
fn group_membership_is_bounded_and_deduplicated() {
    let mut groups = GroupSet::new();
    assert!(groups.add(GroupId(7)).is_ok());
    assert!(groups.add(GroupId(7)).is_ok());
    assert_eq!(groups.len(), 1);
    assert!(groups.contains(GroupId(7)));
    assert!(groups.remove(GroupId(7)).is_ok());
    assert!(groups.is_empty());
}

#[test]
fn group_set_fills_to_its_bound() {
    let mut groups = GroupSet::new();
    for g in 1..=MAX_GROUPS as u32 {
        groups.add(GroupId(g)).unwrap();
    }
    assert_eq!(groups.len(), MAX_GROUPS);
    assert!(groups.add(GroupId(1000)).is_err());
    assert!(groups.remove(GroupId(1000)).is_ok());
    assert_eq!(groups.len(), MAX_GROUPS);
    assert!(groups.remove(GroupId(3)).is_ok());
    assert!(!groups.contains(GroupId(3)));
    assert!(groups.contains(GroupId(4)));
}

#[test]
fn loader_rejects_missing_entry_and_caps() {
    assert_eq!(validate_user_image(UserImage { entry: 0, image_len: 1, required_caps: 0 }, 0), Err(CoreError::InvalidImage));
    assert_eq!(validate_user_image(UserImage { entry: 1, image_len: 1, required_caps: 4 }, 2), Err(CoreError::CapabilityDenied));
}

#[test]
fn manager_registry_is_bounded_and_unique() {
    let mut registry = CoreManagerRegistry::new();
    let manager = CoreManager { id: ServiceId(1), kind: CoreManagerKind::Network, capabilities: 1 };
    registry.register(manager).unwrap();
    assert_eq!(registry.get(CoreManagerKind::Network), Some(manager));
    assert_eq!(registry.register(manager), Err(CoreError::Duplicate));
}

#[test]
fn security_is_deny_by_default() {
    let policy = SecurityPolicy::deny_all();
    assert_eq!(policy.authorize(1), Err(CoreError::CapabilityDenied));
}

#[test]
fn crash_policy_restarts_only_recoverable_failed_services() {
    let record = CrashRecord { service: ServiceId(2), state: ServiceState::Failed, fault_code: 7, recoverable: true };
    assert_eq!(recovery_action(record), RecoveryAction::Restart);
    assert_eq!(recovery_action(CrashRecord { recoverable: false, ..record }), RecoveryAction::Halt);
}

#[test]
fn core_manager_can_start_through_service_table() {
    let mut services = ServiceTable::new();
    services
        .register(ServiceSpec {
            id: ServiceId(3),
            restart: RestartPolicy::OnFailure,
            capability_mask: 1,
            memory_limit_pages: 4,
            cpu_budget_ticks: 10,
        })
        .unwrap();
    start_core_manager(&mut services, CoreManager { id: ServiceId(3), kind: CoreManagerKind::Filesystem, capabilities: 1 }).unwrap();
    assert_eq!(services.state(ServiceId(3)), Some(ServiceState::Running));
}

#[test]
fn bounded_paths_refuse_empty_and_long_input() {
    assert!(BoundedPath::new(b"/bin/init").is_ok());
    assert!(BoundedPath::new(b"").is_err());
    assert!(BoundedPath::new(&[b'a'; 300]).is_err());
    assert_eq!(BoundedPath::new(b"/bin/init").unwrap().as_bytes(), b"/bin/init");
}

#[test]
fn rejects_unbounded_service_specs() {
    let spec = ServiceSpec {
        id: ServiceId(MAX_SERVICES as u16),
        restart: RestartPolicy::Always,
        capability_mask: 0,
        memory_limit_pages: 1,
        cpu_budget_ticks: 1,
    };
    assert_eq!(validate_spec(spec), Err(ServiceError::InvalidSpec));
}

#[test]
fn lifecycle_is_fail_closed() {
    assert!(transition(ServiceState::Starting, ServiceState::Running));
    assert!(!transition(ServiceState::Stopped, ServiceState::Running));
}

fn spawn(entry: usize, service: ServiceId, _mem: u32, _cpu: u32) -> Result<u64, ()> {
    if entry == 0 || service.0 == 0 { Err(()) } else { Ok((entry as u64) ^ service.0 as u64) }
}

fn spec(id: u16, deps: [Option<ServiceId>; MAX_DEPENDENCIES], count: u8) -> ServiceRuntimeSpec {
    ServiceRuntimeSpec {
        spec: ServiceSpec {
            id: ServiceId(id),
            restart: RestartPolicy::OnFailure,
            capability_mask: u64::MAX,
            memory_limit_pages: 4,
            cpu_budget_ticks: 100,
        },
        dependencies: deps,
        dependency_count: count,
        entry: id as usize + 1,
    }
}

#[test]
fn dependencies_are_enforced() {
    let mut s = Supervisor::new(spawn);
    s.register(spec(1, [None; MAX_DEPENDENCIES], 0)).unwrap();
    s.register(spec(2, [Some(ServiceId(1)), None, None, None, None, None, None, None], 1)).unwrap();
    assert_eq!(s.start(ServiceId(2)), Err(RuntimeError::MissingDependency));
    s.start(ServiceId(1)).unwrap();
    assert!(s.start(ServiceId(2)).is_ok());
}

#[test]
fn failure_escalates_to_quarantine() {
    let mut s = Supervisor::new(spawn);
    s.register(spec(1, [None; MAX_DEPENDENCIES], 0)).unwrap();
    s.start(ServiceId(1)).unwrap();
    for _ in 0..MAX_FAILURES {
        assert_eq!(s.report_failure(ServiceId(1)).unwrap(), ServiceState::Failed);
        s.start(ServiceId(1)).unwrap();
    }
    assert_eq!(s.report_failure(ServiceId(1)).unwrap(), ServiceState::Quarantined);
}

#[test]
fn started_service_gets_its_spawned_process() {
    let mut s = Supervisor::new(spawn);
    s.register(spec(4, [None; MAX_DEPENDENCIES], 0)).unwrap();
    let pid = s.start(ServiceId(4)).unwrap();
    assert_eq!(pid, 5 ^ 4);
    assert_eq!(s.process_id(ServiceId(4)), Some(5 ^ 4));
    assert_eq!(s.state(ServiceId(4)), Some(ServiceState::Running));
}

use aweos::awosa::apis::{AwosaAsyncScheduler, AwosaSdkContext, FileMode, SocketProtocol, TaskStatus, WindowConfig};
use aweos::awosa::handles::HandleTable;
use aweos::awosa::process::{MemoryManager, ProcessId, ProcessManager, ProcessState};
use aweos::awosa::{
    negotiate, validate_capabilities, validate_message, validate_path, AbiVersion, RuntimeError, CAP_FS_READ, CAP_IPC,
    CAP_MEM_ADMIN, CAP_NET, CAP_NONE, CAP_PROCESS_SPAWN, CAP_UI, MAX_HANDLES, MAX_MESSAGE, MAX_PATH,
};

#[test]
fn test_abi_negotiation_and_capabilities() {
    assert!(negotiate(AbiVersion { major: 1, minor: 2 }).is_ok());
    assert_eq!(negotiate(AbiVersion { major: 2, minor: 0 }), Err(RuntimeError::IncompatibleAbi));
    assert!(validate_capabilities(CAP_FS_READ | CAP_UI).is_ok());
    assert_eq!(validate_capabilities(1 << 63), Err(RuntimeError::UnknownCapability));
}

#[test]
fn test_handle_table_recycling() {
    let mut table = HandleTable::new();
    let h1 = table.allocate().unwrap();
    let h2 = table.allocate().unwrap();
    assert!(table.contains(h1));
    assert!(table.contains(h2));
    table.release(h1).unwrap();
    assert!(!table.contains(h1));
    let h3 = table.allocate().unwrap();
    assert_eq!(h1, h3);
}

#[test]
fn test_process_lifecycle_and_spawning() {
    let mut pm = ProcessManager::new();
    let pid = pm.spawn(CAP_FS_READ, 16, 0, CAP_PROCESS_SPAWN).unwrap();
    assert_eq!(pm.get_info(pid).unwrap().state, ProcessState::Created);
    pm.set_state(pid, ProcessState::Running).unwrap();
    assert_eq!(pm.get_info(pid).unwrap().state, ProcessState::Running);
    pm.terminate(pid, 0).unwrap();
    assert_eq!(pm.get_info(pid).unwrap().state, ProcessState::Terminated(0));
    assert_eq!(pm.spawn(CAP_FS_READ, 16, 0, CAP_NONE), Err(RuntimeError::CapabilityDenied));
}

#[test]
fn test_memory_allocation_and_permissions() {
    let mut mm = MemoryManager::new();
    let reg = mm.allocate(4, true, false, CAP_NONE).expect("alloc data page");
    assert_eq!(reg.page_count, 4);
    assert_eq!(mm.allocate(1, false, true, CAP_NONE), Err(RuntimeError::CapabilityDenied));
    let exec_reg = mm.allocate(1, false, true, CAP_MEM_ADMIN).expect("alloc code page");
    assert!(exec_reg.executable);
    mm.free(reg.virt_addr).unwrap();
    assert_eq!(mm.free(reg.virt_addr), Err(RuntimeError::NotFound));
}

#[test]
fn test_filesystem_and_net_and_ui_and_ipc_apis() {
    let mut sdk = AwosaSdkContext::init(AbiVersion { major: 1, minor: 3 }).unwrap();
    let f_handle = sdk.fs_api.open(b"/app/data.txt", FileMode::Read, CAP_FS_READ).unwrap();
    assert!(sdk.fs_api.close(f_handle).is_ok());
    let s_handle = sdk.net_api.socket_create(SocketProtocol::Tcp, CAP_NET).unwrap();
    assert!(sdk.net_api.socket_close(s_handle).is_ok());
    let w_config = WindowConfig { width: 800, height: 600, title_len: 12 };
    let w_handle = sdk.ui_api.create_window(w_config, CAP_UI).unwrap();
    assert!(sdk.ui_api.close_window(w_handle).is_ok());
    let cid = sdk.ipc_api.create_channel(ProcessId(1), CAP_IPC).unwrap();
    let sent = sdk.ipc_api.send_message(cid, b"ping", CAP_IPC).unwrap();
    assert_eq!(sent, 4);
}

#[test]
fn test_async_scheduler() {
    let mut sched = AwosaAsyncScheduler::new();
    let tid = sched.spawn_task().unwrap();
    assert_eq!(sched.poll_task(tid).unwrap(), TaskStatus::Running);
    sched.complete_task(tid, 42).unwrap();
    assert_eq!(sched.poll_task(tid).unwrap(), TaskStatus::Completed(42));
}

#[test]
fn released_handle_is_the_lowest_reused() {
    let mut table = HandleTable::new();
    let a = table.allocate().unwrap();
    let b = table.allocate().unwrap();
    let c = table.allocate().unwrap();
    assert_eq!((a, b, c), (0, 1, 2));
    table.release(b).unwrap();
    table.release(a).unwrap();
    assert_eq!(table.allocate().unwrap(), a);
    assert_eq!(table.allocate().unwrap(), b);
    assert_eq!(table.release(c + 10), Err(RuntimeError::NotFound));
}

#[test]
fn handle_table_fills_up() {
    let mut table = HandleTable::new();
    for _ in 0..MAX_HANDLES {
        table.allocate().unwrap();
    }
    assert_eq!(table.allocate(), Err(RuntimeError::ResourceExhausted));
}

#[test]
fn pids_follow_spawn_order() {
    let mut pm = ProcessManager::new();
    let a = pm.spawn(CAP_FS_READ, 1, 0, CAP_PROCESS_SPAWN).unwrap();
    let b = pm.spawn(CAP_FS_READ, 1, 0, CAP_PROCESS_SPAWN).unwrap();
    assert_eq!(a, ProcessId(1));
    assert_eq!(b, ProcessId(2));
    assert_eq!(pm.get_info(ProcessId(9)), Err(RuntimeError::NotFound));
}

#[test]
fn path_and_message_limits() {
    assert!(validate_path(MAX_PATH).is_ok());
    assert_eq!(validate_path(0), Err(RuntimeError::InvalidArgument));
    assert_eq!(validate_path(MAX_PATH + 1), Err(RuntimeError::InvalidArgument));
    assert!(validate_message(MAX_MESSAGE).is_ok());
    assert_eq!(validate_message(MAX_MESSAGE + 1), Err(RuntimeError::ResourceExhausted));
    assert_eq!(negotiate(AbiVersion { major: 1, minor: 9 }), Err(RuntimeError::IncompatibleAbi));
    assert_eq!(negotiate(AbiVersion { major: 1, minor: 2 }), Ok(AbiVersion { major: 1, minor: 2 }));
}

#[test]
fn apis_require_capabilities() {
    let mut sdk = AwosaSdkContext::init(AbiVersion { major: 1, minor: 0 }).unwrap();
    assert_eq!(sdk.fs_api.open(b"/app/data.txt", FileMode::Read, CAP_NONE), Err(RuntimeError::CapabilityDenied));
    assert_eq!(sdk.net_api.socket_create(SocketProtocol::Udp, CAP_NONE), Err(RuntimeError::CapabilityDenied));
    assert_eq!(sdk.ipc_api.create_channel(ProcessId(1), CAP_NONE), Err(RuntimeError::CapabilityDenied));
}

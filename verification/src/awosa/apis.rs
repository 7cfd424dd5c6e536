//! Filesystem, socket, window, IPC and task APIs, and the SDK context that
//! bundles them.

use vstd::prelude::*;
use crate::table::{all_full, find_free, is_first_free};
use super::{io_verdict, negotiate, validate_io, validate_path, AbiVersion, IoKind, RuntimeError,
    AWOSA_ABI_MAJOR, AWOSA_ABI_MINOR, CAP_FS_READ, CAP_FS_WRITE, CAP_IPC, CAP_NET, CAP_UI,
    MAX_ASYNC_TASKS, MAX_HANDLES, MAX_IPC_CHANNELS, MAX_PATH};
use super::handles::{all_used, lowest_free, HandleTable};
use super::process::{MemoryManager, ProcessControlBlock, ProcessId, ProcessManager};

verus! {

#[derive(Clone, Copy, Debug, PartialEq, Eq, Structural)]
pub enum FileMode {
    Read,
    Write,
    ReadWrite,
}

#[derive(Clone, Copy, Debug, PartialEq, Eq, Structural)]
pub struct FileDescriptor {
    pub handle: u16,
    pub mode: FileMode,
    pub offset: u64,
}

pub open spec fn mode_caps(mode: FileMode) -> u64 {
    match mode {
        FileMode::Read => CAP_FS_READ,
        FileMode::Write => CAP_FS_WRITE,
        FileMode::ReadWrite => 3,
    }
}

pub struct AwosaFilesystemApi {
    pub handles: HandleTable,
    pub descriptors: [Option<FileDescriptor>; MAX_HANDLES],
}

impl AwosaFilesystemApi {
    pub fn new() -> (api: Self)
        ensures
            api.handles.slots() == Seq::new(MAX_HANDLES as nat, |i: int| false),
            forall|i: int| 0 <= i < MAX_HANDLES ==> (#[trigger] api.descriptors@[i]) is None,
    {
        AwosaFilesystemApi { handles: HandleTable::new(), descriptors: [None; MAX_HANDLES] }
    }

    /// Opens `path` in `mode`: the path length is checked first, then the
    /// capabilities the mode needs, then a handle is allocated and its
    /// descriptor starts at offset 0.
    pub fn open(&mut self, path: &[u8], mode: FileMode, capabilities: u64) -> (r: Result<u16, RuntimeError>)
        ensures
            path@.len() == 0 || path@.len() > MAX_PATH ==> r == Err::<u16, RuntimeError>(RuntimeError::InvalidArgument),
            0 < path@.len() <= MAX_PATH && capabilities & mode_caps(mode) != mode_caps(mode)
                ==> r == Err::<u16, RuntimeError>(RuntimeError::CapabilityDenied),
            0 < path@.len() <= MAX_PATH && capabilities & mode_caps(mode) == mode_caps(mode) && all_used(old(self).handles.slots())
                ==> r == Err::<u16, RuntimeError>(RuntimeError::ResourceExhausted),
            r is Err ==> final(self).handles == old(self).handles && final(self).descriptors == old(self).descriptors,
            match r {
                Ok(h) => {
                    &&& lowest_free(old(self).handles.slots(), h as int)
                    &&& final(self).handles.slots() == old(self).handles.slots().update(h as int, true)
                    &&& final(self).descriptors@ == old(self).descriptors@.update(h as int, Some(FileDescriptor { handle: h, mode, offset: 0 }))
                },
                Err(_) => path@.len() == 0 || path@.len() > MAX_PATH || capabilities & mode_caps(mode) != mode_caps(mode)
                    || all_used(old(self).handles.slots()),
            },
    {
        match validate_path(path.len()) {
            Err(e) => {
                return Err(e);
            },
            Ok(()) => {},
        }
        let required: u64 = match mode {
            FileMode::Read => CAP_FS_READ,
            FileMode::Write => CAP_FS_WRITE,
            FileMode::ReadWrite => CAP_FS_READ | CAP_FS_WRITE,
        };
        assert(CAP_FS_READ | CAP_FS_WRITE == 3u64) by (bit_vector);
        if capabilities & required != required {
            return Err(RuntimeError::CapabilityDenied);
        }
        let handle = match self.handles.allocate() {
            Ok(h) => h,
            Err(e) => {
                return Err(e);
            },
        };
        self.descriptors[handle as usize] = Some(FileDescriptor { handle, mode, offset: 0 });
        Ok(handle)
    }

    pub fn close(&mut self, handle: u16) -> (r: Result<(), RuntimeError>)
        ensures
            old(self).handles.held(handle) ==> r == Ok::<(), RuntimeError>(())
                && final(self).handles.slots() == old(self).handles.slots().update(handle as int, false)
                && final(self).descriptors@ == old(self).descriptors@.update(handle as int, None),
            !old(self).handles.held(handle) ==> r == Err::<(), RuntimeError>(RuntimeError::NotFound)
                && final(self).handles == old(self).handles && final(self).descriptors == old(self).descriptors,
    {
        match self.handles.release(handle) {
            Err(e) => {
                return Err(e);
            },
            Ok(()) => {},
        }
        self.descriptors[handle as usize] = None;
        Ok(())
    }
}

impl Default for AwosaFilesystemApi {
    fn default() -> (api: Self)
        ensures
            api.handles.slots() == Seq::new(MAX_HANDLES as nat, |i: int| false),
            forall|i: int| 0 <= i < MAX_HANDLES ==> (#[trigger] api.descriptors@[i]) is None,
    {
        Self::new()
    }
}

#[derive(Clone, Copy, Debug, PartialEq, Eq, Structural)]
pub enum SocketProtocol {
    Tcp,
    Udp,
}

pub struct AwosaNetApi {
    socket_handles: HandleTable,
}

impl AwosaNetApi {
    pub closed spec fn sockets(&self) -> HandleTable {
        self.socket_handles
    }

    pub fn new() -> (api: Self)
        ensures
            api.sockets().slots() == Seq::new(MAX_HANDLES as nat, |i: int| false),
    {
        AwosaNetApi { socket_handles: HandleTable::new() }
    }

    /// Needs `CAP_NET`; the socket gets the lowest free handle.
    pub fn socket_create(&mut self, proto: SocketProtocol, capabilities: u64) -> (r: Result<u16, RuntimeError>)
        ensures
            capabilities & CAP_NET == 0 ==> r == Err::<u16, RuntimeError>(RuntimeError::CapabilityDenied) && final(self).sockets() == old(self).sockets(),
            capabilities & CAP_NET != 0 ==> match r {
                Ok(h) => lowest_free(old(self).sockets().slots(), h as int)
                    && final(self).sockets().slots() == old(self).sockets().slots().update(h as int, true),
                Err(e) => e == RuntimeError::ResourceExhausted && all_used(old(self).sockets().slots())
                    && final(self).sockets() == old(self).sockets(),
            },
    {
        if capabilities & CAP_NET == 0 {
            return Err(RuntimeError::CapabilityDenied);
        }
        self.socket_handles.allocate()
    }

    pub fn socket_close(&mut self, handle: u16) -> (r: Result<(), RuntimeError>)
        ensures
            old(self).sockets().held(handle) ==> r == Ok::<(), RuntimeError>(())
                && final(self).sockets().slots() == old(self).sockets().slots().update(handle as int, false),
            !old(self).sockets().held(handle) ==> r == Err::<(), RuntimeError>(RuntimeError::NotFound)
                && final(self).sockets() == old(self).sockets(),
    {
        self.socket_handles.release(handle)
    }
}

impl Default for AwosaNetApi {
    fn default() -> (api: Self)
        ensures
            api.sockets().slots() == Seq::new(MAX_HANDLES as nat, |i: int| false),
    {
        Self::new()
    }
}

#[derive(Clone, Copy, Debug, PartialEq, Eq, Structural)]
pub struct WindowConfig {
    pub width: u32,
    pub height: u32,
    pub title_len: u16,
}

pub struct AwosaUiApi {
    windows: HandleTable,
}

impl AwosaUiApi {
    pub closed spec fn window_handles(&self) -> HandleTable {
        self.windows
    }

    pub fn new() -> (api: Self)
        ensures
            api.window_handles().slots() == Seq::new(MAX_HANDLES as nat, |i: int| false),
    {
        AwosaUiApi { windows: HandleTable::new() }
    }

    /// Needs `CAP_UI` and a non-empty size; the window gets the lowest free handle.
    pub fn create_window(&mut self, config: WindowConfig, capabilities: u64) -> (r: Result<u16, RuntimeError>)
        ensures
            capabilities & CAP_UI == 0 ==> r == Err::<u16, RuntimeError>(RuntimeError::CapabilityDenied),
            capabilities & CAP_UI != 0 && (config.width == 0 || config.height == 0) ==> r == Err::<u16, RuntimeError>(RuntimeError::InvalidArgument),
            capabilities & CAP_UI != 0 && config.width != 0 && config.height != 0 && all_used(old(self).window_handles().slots())
                ==> r == Err::<u16, RuntimeError>(RuntimeError::ResourceExhausted),
            r is Err ==> final(self).window_handles() == old(self).window_handles(),
            match r {
                Ok(h) => lowest_free(old(self).window_handles().slots(), h as int)
                    && final(self).window_handles().slots() == old(self).window_handles().slots().update(h as int, true),
                Err(_) => capabilities & CAP_UI == 0 || config.width == 0 || config.height == 0
                    || all_used(old(self).window_handles().slots()),
            },
    {
        if capabilities & CAP_UI == 0 {
            return Err(RuntimeError::CapabilityDenied);
        }
        if config.width == 0 || config.height == 0 {
            return Err(RuntimeError::InvalidArgument);
        }
        self.windows.allocate()
    }

    pub fn close_window(&mut self, handle: u16) -> (r: Result<(), RuntimeError>)
        ensures
            old(self).window_handles().held(handle) ==> r == Ok::<(), RuntimeError>(())
                && final(self).window_handles().slots() == old(self).window_handles().slots().update(handle as int, false),
            !old(self).window_handles().held(handle) ==> r == Err::<(), RuntimeError>(RuntimeError::NotFound)
                && final(self).window_handles() == old(self).window_handles(),
    {
        self.windows.release(handle)
    }
}

impl Default for AwosaUiApi {
    fn default() -> (api: Self)
        ensures
            api.window_handles().slots() == Seq::new(MAX_HANDLES as nat, |i: int| false),
    {
        Self::new()
    }
}

#[derive(Clone, Copy, Debug, PartialEq, Eq, Structural)]
pub struct IpcChannelDescriptor {
    pub channel_id: u32,
    pub owner_pid: ProcessId,
}

/// Channels fill their slots in order and are never closed; the `n`-th
/// channel (from 0) has id `100 + n`.
pub struct AwosaIpcApi {
    channels: [Option<IpcChannelDescriptor>; MAX_IPC_CHANNELS],
    next_channel_id: u32,
}

impl AwosaIpcApi {
    pub closed spec fn wf(&self) -> bool {
        &&& 100 <= self.next_channel_id <= 100 + MAX_IPC_CHANNELS
        &&& forall|i: int| 0 <= i < MAX_IPC_CHANNELS ==> ((#[trigger] self.channels@[i]) is Some <==> i < self.next_channel_id - 100)
        &&& forall|i: int| 0 <= i < self.next_channel_id - 100 ==> (#[trigger] self.channels@[i])->Some_0.channel_id == 100 + i
    }

    /// The channels created so far, oldest first.
    pub closed spec fn open_channels(&self) -> Seq<IpcChannelDescriptor> {
        Seq::new((self.next_channel_id - 100) as nat, |i: int| self.channels@[i]->Some_0)
    }

    pub fn new() -> (api: Self)
        ensures
            api.wf(),
            api.open_channels() == Seq::<IpcChannelDescriptor>::empty(),
    {
        let api = AwosaIpcApi { channels: [None; MAX_IPC_CHANNELS], next_channel_id: 100 };
        assert(api.open_channels() =~= Seq::<IpcChannelDescriptor>::empty());
        api
    }

    pub fn create_channel(&mut self, owner_pid: ProcessId, capabilities: u64) -> (r: Result<u32, RuntimeError>)
        requires
            old(self).wf(),
        ensures
            final(self).wf(),
            capabilities & CAP_IPC == 0 ==> r == Err::<u32, RuntimeError>(RuntimeError::CapabilityDenied),
            capabilities & CAP_IPC != 0 && old(self).open_channels().len() == MAX_IPC_CHANNELS
                ==> r == Err::<u32, RuntimeError>(RuntimeError::ResourceExhausted),
            r is Err ==> final(self).open_channels() == old(self).open_channels(),
            capabilities & CAP_IPC != 0 && old(self).open_channels().len() < MAX_IPC_CHANNELS ==> {
                let cid = (100 + old(self).open_channels().len()) as u32;
                &&& r == Ok::<u32, RuntimeError>(cid)
                &&& final(self).open_channels() == old(self).open_channels().push(IpcChannelDescriptor { channel_id: cid, owner_pid })
            },
    {
        if capabilities & CAP_IPC == 0 {
            return Err(RuntimeError::CapabilityDenied);
        }
        let cid = self.next_channel_id;
        match find_free(&self.channels) {
            Some(i) => {
                assert(i == self.next_channel_id - 100) by {
                    if i < self.next_channel_id - 100 {
                        assert(self.channels@[i as int] is Some);
                    } else if i > self.next_channel_id - 100 {
                        assert(self.channels@[self.next_channel_id - 100] is None);
                    }
                }
                let ghost before = self.open_channels();
                self.channels[i] = Some(IpcChannelDescriptor { channel_id: cid, owner_pid });
                self.next_channel_id = self.next_channel_id + 1;
                assert(self.open_channels() =~= before.push(IpcChannelDescriptor { channel_id: cid, owner_pid }));
                Ok(cid)
            },
            None => {
                assert(self.next_channel_id - 100 == MAX_IPC_CHANNELS) by {
                    if self.next_channel_id - 100 < MAX_IPC_CHANNELS {
                        assert(self.channels@[self.next_channel_id - 100] is None);
                    }
                }
                Err(RuntimeError::ResourceExhausted)
            },
        }
    }

    /// Accepts a message for an existing channel and reports its length as sent;
    /// the message is checked as `IoKind::Message` I/O first.
    pub fn send_message(&self, channel_id: u32, msg: &[u8], capabilities: u64) -> (r: Result<usize, RuntimeError>)
        requires
            self.wf(),
        ensures
            r == (match io_verdict(IoKind::Message, msg@.len() as usize, capabilities) {
                Err(e) => Err(e),
                Ok(()) => if exists|i: int| 0 <= i < self.open_channels().len() && (#[trigger] self.open_channels()[i]).channel_id == channel_id {
                    Ok(msg@.len() as usize)
                } else {
                    Err(RuntimeError::NotFound)
                },
            }),
    {
        match validate_io(IoKind::Message, msg.len(), capabilities) {
            Err(e) => {
                return Err(e);
            },
            Ok(()) => {},
        }
        let n = (self.next_channel_id - 100) as usize;
        let mut i: usize = 0;
        while i < n
            invariant
                self.wf(),
                n == self.open_channels().len(),
                i <= n,
                io_verdict(IoKind::Message, msg@.len() as usize, capabilities) is Ok,
                forall|j: int| 0 <= j < i ==> (#[trigger] self.open_channels()[j]).channel_id != channel_id,
            decreases n - i,
        {
            assert(self.channels@[i as int] is Some);
            match self.channels[i] {
                Some(c) => {
                    if c.channel_id == channel_id {
                        assert(self.open_channels()[i as int].channel_id == channel_id);
                        assert(exists|k: int| 0 <= k < self.open_channels().len() && (#[trigger] self.open_channels()[k]).channel_id == channel_id);
                        assert(io_verdict(IoKind::Message, msg@.len() as usize, capabilities) is Ok);
                        return Ok(msg.len());
                    }
                },
                None => {},
            }
            i += 1;
        }
        Err(RuntimeError::NotFound)
    }
}

impl Default for AwosaIpcApi {
    fn default() -> (api: Self)
        ensures
            api.wf(),
            api.open_channels() == Seq::<IpcChannelDescriptor>::empty(),
    {
        Self::new()
    }
}

#[derive(Clone, Copy, Debug, PartialEq, Eq, Structural)]
pub enum TaskStatus {
    Ready,
    Running,
    Completed(i32),
}

#[derive(Clone, Copy, Debug, PartialEq, Eq, Structural)]
pub struct AsyncTask {
    pub task_id: u32,
    pub status: TaskStatus,
}

/// Where polling leaves a task: a ready task starts running, others stay.
pub open spec fn polled(status: TaskStatus) -> TaskStatus {
    if status == TaskStatus::Ready { TaskStatus::Running } else { status }
}

/// Task slots fill in order and are never reused; the `n`-th task (from 0) has id `n + 1`.
pub struct AwosaAsyncScheduler {
    tasks: [Option<AsyncTask>; MAX_ASYNC_TASKS],
    next_task_id: u32,
}

impl AwosaAsyncScheduler {
    pub closed spec fn wf(&self) -> bool {
        &&& 1 <= self.next_task_id <= 1 + MAX_ASYNC_TASKS
        &&& forall|i: int| 0 <= i < MAX_ASYNC_TASKS ==> ((#[trigger] self.tasks@[i]) is Some <==> i < self.next_task_id - 1)
        &&& forall|i: int| 0 <= i < self.next_task_id - 1 ==> (#[trigger] self.tasks@[i])->Some_0.task_id == i + 1
    }

    /// The tasks spawned so far, oldest first.
    pub closed spec fn task_list(&self) -> Seq<AsyncTask> {
        Seq::new((self.next_task_id - 1) as nat, |i: int| self.tasks@[i]->Some_0)
    }

    pub fn new() -> (s: Self)
        ensures
            s.wf(),
            s.task_list() == Seq::<AsyncTask>::empty(),
    {
        let s = AwosaAsyncScheduler { tasks: [None; MAX_ASYNC_TASKS], next_task_id: 1 };
        assert(s.task_list() =~= Seq::<AsyncTask>::empty());
        s
    }

    pub fn spawn_task(&mut self) -> (r: Result<u32, RuntimeError>)
        requires
            old(self).wf(),
        ensures
            final(self).wf(),
            old(self).task_list().len() == MAX_ASYNC_TASKS ==> r == Err::<u32, RuntimeError>(RuntimeError::ResourceExhausted)
                && final(self).task_list() == old(self).task_list(),
            old(self).task_list().len() < MAX_ASYNC_TASKS ==> {
                let tid = (old(self).task_list().len() + 1) as u32;
                &&& r == Ok::<u32, RuntimeError>(tid)
                &&& final(self).task_list() == old(self).task_list().push(AsyncTask { task_id: tid, status: TaskStatus::Ready })
            },
    {
        let tid = self.next_task_id;
        match find_free(&self.tasks) {
            Some(i) => {
                assert(i == self.next_task_id - 1) by {
                    if i < self.next_task_id - 1 {
                        assert(self.tasks@[i as int] is Some);
                    } else if i > self.next_task_id - 1 {
                        assert(self.tasks@[self.next_task_id - 1] is None);
                    }
                }
                let ghost before = self.task_list();
                self.tasks[i] = Some(AsyncTask { task_id: tid, status: TaskStatus::Ready });
                self.next_task_id = self.next_task_id + 1;
                assert(self.task_list() =~= before.push(AsyncTask { task_id: tid, status: TaskStatus::Ready }));
                Ok(tid)
            },
            None => {
                assert(self.next_task_id - 1 == MAX_ASYNC_TASKS) by {
                    if self.next_task_id - 1 < MAX_ASYNC_TASKS {
                        assert(self.tasks@[self.next_task_id - 1] is None);
                    }
                }
                Err(RuntimeError::ResourceExhausted)
            },
        }
    }

    fn find(&self, task_id: u32) -> (r: Option<usize>)
        requires
            self.wf(),
        ensures
            match r {
                Some(i) => i < self.task_list().len() && self.task_list()[i as int].task_id == task_id,
                None => forall|j: int| 0 <= j < self.task_list().len() ==> (#[trigger] self.task_list()[j]).task_id != task_id,
            },
    {
        let n = (self.next_task_id - 1) as usize;
        let mut i: usize = 0;
        while i < n
            invariant
                self.wf(),
                n == self.task_list().len(),
                i <= n,
                forall|j: int| 0 <= j < i ==> (#[trigger] self.task_list()[j]).task_id != task_id,
            decreases n - i,
        {
            assert(self.tasks@[i as int] is Some);
            match self.tasks[i] {
                Some(t) => {
                    if t.task_id == task_id {
                        return Some(i);
                    }
                },
                None => {},
            }
            i += 1;
        }
        None
    }

    /// Polling a ready task marks it running; the task's status after the poll is returned.
    pub fn poll_task(&mut self, task_id: u32) -> (r: Result<TaskStatus, RuntimeError>)
        requires
            old(self).wf(),
        ensures
            final(self).wf(),
            match r {
                Ok(status) => exists|i: int| 0 <= i < old(self).task_list().len() && old(self).task_list()[i].task_id == task_id
                    && status == polled(old(self).task_list()[i].status)
                    && final(self).task_list() == old(self).task_list().update(i, AsyncTask { task_id, status }),
                Err(e) => e == RuntimeError::NotFound && final(self).task_list() == old(self).task_list()
                    && forall|j: int| 0 <= j < old(self).task_list().len() ==> (#[trigger] old(self).task_list()[j]).task_id != task_id,
            },
    {
        match self.find(task_id) {
            Some(i) => {
                let ghost before = self.task_list();
                let t = self.tasks[i].unwrap();
                let status = if t.status == TaskStatus::Ready { TaskStatus::Running } else { t.status };
                self.tasks[i] = Some(AsyncTask { task_id: t.task_id, status });
                assert(self.task_list() =~= before.update(i as int, AsyncTask { task_id, status }));
                Ok(status)
            },
            None => Err(RuntimeError::NotFound),
        }
    }

    pub fn complete_task(&mut self, task_id: u32, result: i32) -> (r: Result<(), RuntimeError>)
        requires
            old(self).wf(),
        ensures
            final(self).wf(),
            match r {
                Ok(()) => exists|i: int| 0 <= i < old(self).task_list().len() && old(self).task_list()[i].task_id == task_id
                    && final(self).task_list() == old(self).task_list().update(i, AsyncTask { task_id, status: TaskStatus::Completed(result) }),
                Err(e) => e == RuntimeError::NotFound && final(self).task_list() == old(self).task_list()
                    && forall|j: int| 0 <= j < old(self).task_list().len() ==> (#[trigger] old(self).task_list()[j]).task_id != task_id,
            },
    {
        match self.find(task_id) {
            Some(i) => {
                let ghost before = self.task_list();
                self.tasks[i] = Some(AsyncTask { task_id, status: TaskStatus::Completed(result) });
                assert(self.task_list() =~= before.update(i as int, AsyncTask { task_id, status: TaskStatus::Completed(result) }));
                Ok(())
            },
            None => Err(RuntimeError::NotFound),
        }
    }
}

impl Default for AwosaAsyncScheduler {
    fn default() -> (s: Self)
        ensures
            s.wf(),
            s.task_list() == Seq::<AsyncTask>::empty(),
    {
        Self::new()
    }
}

/// Everything a native application sees, in its initial state.
pub struct AwosaSdkContext {
    pub abi_version: AbiVersion,
    pub process_mgr: ProcessManager,
    pub memory_mgr: MemoryManager,
    pub fs_api: AwosaFilesystemApi,
    pub net_api: AwosaNetApi,
    pub ui_api: AwosaUiApi,
    pub ipc_api: AwosaIpcApi,
    pub async_scheduler: AwosaAsyncScheduler,
}

impl AwosaSdkContext {
    pub open spec fn fresh(&self) -> bool {
        &&& self.process_mgr.wf() && self.process_mgr.procs() == Seq::<ProcessControlBlock>::empty()
        &&& self.memory_mgr.slots() == Seq::new(16, |i: int| None::<super::process::MemoryRegion>)
        &&& self.memory_mgr.cursor() == 0x0040_0000
        &&& self.fs_api.handles.slots() == Seq::new(MAX_HANDLES as nat, |i: int| false)
        &&& forall|i: int| 0 <= i < MAX_HANDLES ==> (#[trigger] self.fs_api.descriptors@[i]) is None
        &&& self.net_api.sockets().slots() == Seq::new(MAX_HANDLES as nat, |i: int| false)
        &&& self.ui_api.window_handles().slots() == Seq::new(MAX_HANDLES as nat, |i: int| false)
        &&& self.ipc_api.wf() && self.ipc_api.open_channels() == Seq::<IpcChannelDescriptor>::empty()
        &&& self.async_scheduler.wf() && self.async_scheduler.task_list() == Seq::<AsyncTask>::empty()
    }

    /// Negotiates the ABI and starts every table empty.
    pub fn init(requested_abi: AbiVersion) -> (r: Result<Self, RuntimeError>)
        ensures
            requested_abi.major != AWOSA_ABI_MAJOR || requested_abi.minor > AWOSA_ABI_MINOR ==> r is Err && r->Err_0 == RuntimeError::IncompatibleAbi,
            requested_abi.major == AWOSA_ABI_MAJOR && requested_abi.minor <= AWOSA_ABI_MINOR ==> r is Ok
                && r->Ok_0.abi_version == (AbiVersion { major: AWOSA_ABI_MAJOR, minor: requested_abi.minor })
                && r->Ok_0.fresh(),
    {
        let abi_version = match negotiate(requested_abi) {
            Ok(v) => v,
            Err(e) => {
                return Err(e);
            },
        };
        Ok(AwosaSdkContext {
            abi_version,
            process_mgr: ProcessManager::new(),
            memory_mgr: MemoryManager::new(),
            fs_api: AwosaFilesystemApi::new(),
            net_api: AwosaNetApi::new(),
            ui_api: AwosaUiApi::new(),
            ipc_api: AwosaIpcApi::new(),
            async_scheduler: AwosaAsyncScheduler::new(),
        })
    }
}

} // verus!

//! Process and memory tables of the AWOSA runtime.

use vstd::prelude::*;
use crate::table::{all_full, find_free, is_first_free};
use super::{caps_known, validate_capabilities, RuntimeError, CAP_MEM_ADMIN, CAP_PROCESS_SPAWN, MAX_PROCESSES};

verus! {

#[derive(Clone, Copy, Debug, PartialEq, Eq, Structural)]
pub struct ProcessId(pub u32);

#[derive(Clone, Copy, Debug, PartialEq, Eq, Structural)]
pub enum ProcessState {
    Unused,
    Created,
    Running,
    Blocked,
    Terminated(i32),
}

#[derive(Clone, Copy, Debug, PartialEq, Eq, Structural)]
pub struct ProcessControlBlock {
    pub pid: ProcessId,
    pub state: ProcessState,
    pub capabilities: u64,
    pub memory_pages: u32,
    pub parent_pid: u32,
}

/// `i` is the first process of `procs` with this pid.
pub open spec fn pid_at(procs: Seq<ProcessControlBlock>, pid: ProcessId, i: int) -> bool {
    &&& 0 <= i < procs.len()
    &&& procs[i].pid == pid
    &&& forall|j: int| 0 <= j < i ==> (#[trigger] procs[j]).pid != pid
}

pub open spec fn no_pid(procs: Seq<ProcessControlBlock>, pid: ProcessId) -> bool {
    forall|j: int| 0 <= j < procs.len() ==> (#[trigger] procs[j]).pid != pid
}

/// Process slots fill in order and are never reused; the `n`-th process has pid `n`.
pub struct ProcessManager {
    processes: [Option<ProcessControlBlock>; MAX_PROCESSES],
    next_pid: u32,
}

impl ProcessManager {
    pub closed spec fn wf(&self) -> bool {
        &&& 1 <= self.next_pid <= MAX_PROCESSES + 1
        &&& forall|i: int| 0 <= i < MAX_PROCESSES ==> ((#[trigger] self.processes@[i]) is Some <==> i < self.next_pid - 1)
        &&& forall|i: int| 0 <= i < self.next_pid - 1 ==> (#[trigger] self.processes@[i])->Some_0.pid == ProcessId((i + 1) as u32)
    }

    /// The processes spawned so far, oldest first.
    pub closed spec fn procs(&self) -> Seq<ProcessControlBlock> {
        Seq::new((self.next_pid - 1) as nat, |i: int| self.processes@[i]->Some_0)
    }

    pub fn new() -> (m: Self)
        ensures
            m.wf(),
            m.procs() == Seq::<ProcessControlBlock>::empty(),
    {
        let m = ProcessManager { processes: [None; MAX_PROCESSES], next_pid: 1 };
        assert(m.procs() =~= Seq::<ProcessControlBlock>::empty());
        m
    }

    pub fn spawn(&mut self, capabilities: u64, memory_pages: u32, parent_pid: u32, caller_caps: u64) -> (r: Result<ProcessId, RuntimeError>)
        requires
            old(self).wf(),
        ensures
            final(self).wf(),
            caller_caps & CAP_PROCESS_SPAWN == 0 ==> r == Err::<ProcessId, RuntimeError>(RuntimeError::CapabilityDenied),
            caller_caps & CAP_PROCESS_SPAWN != 0 && !caps_known(capabilities) ==> r == Err::<ProcessId, RuntimeError>(RuntimeError::UnknownCapability),
            caller_caps & CAP_PROCESS_SPAWN != 0 && caps_known(capabilities) && old(self).procs().len() == MAX_PROCESSES
                ==> r == Err::<ProcessId, RuntimeError>(RuntimeError::ResourceExhausted),
            r is Err ==> final(self).procs() == old(self).procs(),
            caller_caps & CAP_PROCESS_SPAWN != 0 && caps_known(capabilities) && old(self).procs().len() < MAX_PROCESSES ==> {
                let pid = ProcessId((old(self).procs().len() + 1) as u32);
                &&& r == Ok::<ProcessId, RuntimeError>(pid)
                &&& final(self).procs() == old(self).procs().push(ProcessControlBlock {
                    pid,
                    state: ProcessState::Created,
                    capabilities,
                    memory_pages,
                    parent_pid,
                })
            },
    {
        if caller_caps & CAP_PROCESS_SPAWN == 0 {
            return Err(RuntimeError::CapabilityDenied);
        }
        match validate_capabilities(capabilities) {
            Err(e) => {
                return Err(e);
            },
            Ok(()) => {},
        }
        let pid = ProcessId(self.next_pid);
        match find_free(&self.processes) {
            Some(i) => {
                assert(i == self.next_pid - 1) by {
                    if i < self.next_pid - 1 {
                        assert(self.processes@[i as int] is Some);
                    } else if i > self.next_pid - 1 {
                        assert(self.processes@[self.next_pid - 1] is None);
                    }
                }
                let ghost before = self.procs();
                self.processes[i] = Some(ProcessControlBlock {
                    pid,
                    state: ProcessState::Created,
                    capabilities,
                    memory_pages,
                    parent_pid,
                });
                self.next_pid = self.next_pid + 1;
                assert(self.procs() =~= before.push(ProcessControlBlock {
                    pid,
                    state: ProcessState::Created,
                    capabilities,
                    memory_pages,
                    parent_pid,
                }));
                Ok(pid)
            },
            None => {
                assert(self.next_pid - 1 == MAX_PROCESSES) by {
                    if self.next_pid - 1 < MAX_PROCESSES {
                        assert(self.processes@[self.next_pid - 1] is None);
                    }
                }
                Err(RuntimeError::ResourceExhausted)
            },
        }
    }

    fn find(&self, pid: ProcessId) -> (r: Option<usize>)
        requires
            self.wf(),
        ensures
            match r {
                Some(i) => pid_at(self.procs(), pid, i as int),
                None => no_pid(self.procs(), pid),
            },
    {
        let n = (self.next_pid - 1) as usize;
        let mut i: usize = 0;
        while i < n
            invariant
                self.wf(),
                n == self.procs().len(),
                n <= MAX_PROCESSES,
                i <= n,
                forall|j: int| 0 <= j < i ==> (#[trigger] self.procs()[j]).pid != pid,
            decreases n - i,
        {
            assert(self.processes@[i as int] is Some);
            match self.processes[i] {
                Some(p) => {
                    if p.pid == pid {
                        return Some(i);
                    }
                },
                None => {},
            }
            i += 1;
        }
        None
    }

    pub fn set_state(&mut self, pid: ProcessId, state: ProcessState) -> (r: Result<(), RuntimeError>)
        requires
            old(self).wf(),
        ensures
            final(self).wf(),
            match r {
                Ok(()) => exists|i: int| pid_at(old(self).procs(), pid, i)
                    && final(self).procs() == old(self).procs().update(i, ProcessControlBlock { state, ..old(self).procs()[i] }),
                Err(e) => e == RuntimeError::NotFound && no_pid(old(self).procs(), pid) && final(self).procs() == old(self).procs(),
            },
    {
        match self.find(pid) {
            Some(i) => {
                let ghost before = self.procs();
                let p = self.processes[i].unwrap();
                self.processes[i] = Some(ProcessControlBlock { state, ..p });
                assert(self.procs() =~= before.update(i as int, ProcessControlBlock { state, ..before[i as int] }));
                Ok(())
            },
            None => Err(RuntimeError::NotFound),
        }
    }

    pub fn get_info(&self, pid: ProcessId) -> (r: Result<ProcessControlBlock, RuntimeError>)
        requires
            self.wf(),
        ensures
            match r {
                Ok(p) => exists|i: int| pid_at(self.procs(), pid, i) && p == self.procs()[i],
                Err(e) => e == RuntimeError::NotFound && no_pid(self.procs(), pid),
            },
    {
        match self.find(pid) {
            Some(i) => Ok(self.processes[i].unwrap()),
            None => Err(RuntimeError::NotFound),
        }
    }

    pub fn terminate(&mut self, pid: ProcessId, exit_code: i32) -> (r: Result<(), RuntimeError>)
        requires
            old(self).wf(),
        ensures
            final(self).wf(),
            match r {
                Ok(()) => exists|i: int| pid_at(old(self).procs(), pid, i)
                    && final(self).procs() == old(self).procs().update(i, ProcessControlBlock { state: ProcessState::Terminated(exit_code), ..old(self).procs()[i] }),
                Err(e) => e == RuntimeError::NotFound && no_pid(old(self).procs(), pid) && final(self).procs() == old(self).procs(),
            },
    {
        self.set_state(pid, ProcessState::Terminated(exit_code))
    }
}

impl Default for ProcessManager {
    fn default() -> (m: Self)
        ensures
            m.wf(),
            m.procs() == Seq::<ProcessControlBlock>::empty(),
    {
        Self::new()
    }
}

/// The `i`-th spawned process has pid `i + 1`, so no two processes share a pid.
pub proof fn lemma_pid_is_position(m: ProcessManager, i: int)
    requires
        m.wf(),
        0 <= i < m.procs().len(),
    ensures
        m.procs()[i].pid == ProcessId((i + 1) as u32),
{
}

pub const PAGE_SIZE: usize = 4096;

#[derive(Clone, Copy, Debug, PartialEq, Eq, Structural)]
pub struct MemoryRegion {
    pub virt_addr: u64,
    pub page_count: u32,
    pub readable: bool,
    pub writable: bool,
    pub executable: bool,
}

pub open spec fn region_at(o: Option<MemoryRegion>, virt_addr: u64) -> bool {
    o matches Some(r) && r.virt_addr == virt_addr
}

/// `i` is the first slot holding a region that starts at `virt_addr`.
pub open spec fn first_region_at(slots: Seq<Option<MemoryRegion>>, virt_addr: u64, i: int) -> bool {
    &&& 0 <= i < slots.len()
    &&& region_at(slots[i], virt_addr)
    &&& forall|j: int| 0 <= j < i ==> !region_at(#[trigger] slots[j], virt_addr)
}

/// Sixteen region slots and a bump cursor for virtual addresses, starting at 4 MiB.
pub struct MemoryManager {
    regions: [Option<MemoryRegion>; 16],
    next_vaddr: u64,
}

impl MemoryManager {
    pub closed spec fn slots(&self) -> Seq<Option<MemoryRegion>> {
        self.regions@
    }

    /// Where the next region will start.
    pub closed spec fn cursor(&self) -> u64 {
        self.next_vaddr
    }

    pub fn new() -> (m: Self)
        ensures
            m.slots() == Seq::new(16, |i: int| None::<MemoryRegion>),
            m.cursor() == 0x0040_0000,
    {
        let m = MemoryManager { regions: [None; 16], next_vaddr: 0x0040_0000 };
        assert(m.slots() =~= Seq::new(16, |i: int| None::<MemoryRegion>));
        m
    }

    /// Reserves `page_count` pages at the cursor in the lowest free slot.
    /// Executable memory needs `CAP_MEM_ADMIN`; the cursor must not pass the
    /// end of the address space.
    pub fn allocate(&mut self, page_count: u32, writable: bool, executable: bool, capabilities: u64) -> (r: Result<MemoryRegion, RuntimeError>)
        requires
            page_count != 0 && !(executable && capabilities & CAP_MEM_ADMIN == 0) && !all_full(old(self).slots())
                ==> old(self).cursor() + page_count * PAGE_SIZE <= u64::MAX,
        ensures
            final(self).slots().len() == 16,
            page_count == 0 ==> r == Err::<MemoryRegion, RuntimeError>(RuntimeError::InvalidArgument),
            page_count != 0 && executable && capabilities & CAP_MEM_ADMIN == 0 ==> r == Err::<MemoryRegion, RuntimeError>(RuntimeError::CapabilityDenied),
            page_count != 0 && !(executable && capabilities & CAP_MEM_ADMIN == 0) && all_full(old(self).slots())
                ==> r == Err::<MemoryRegion, RuntimeError>(RuntimeError::ResourceExhausted),
            r is Err ==> *final(self) == *old(self),
            match r {
                Ok(region) => {
                    &&& region == (MemoryRegion { virt_addr: old(self).cursor(), page_count, readable: true, writable, executable })
                    &&& exists|i: int| is_first_free(old(self).slots(), i) && final(self).slots() == old(self).slots().update(i, Some(region))
                    &&& final(self).cursor() == old(self).cursor() + page_count * PAGE_SIZE
                },
                Err(_) => page_count == 0 || (executable && capabilities & CAP_MEM_ADMIN == 0) || all_full(old(self).slots()),
            },
    {
        if page_count == 0 {
            return Err(RuntimeError::InvalidArgument);
        }
        if executable && (capabilities & CAP_MEM_ADMIN == 0) {
            return Err(RuntimeError::CapabilityDenied);
        }
        let virt_addr = self.next_vaddr;
        match find_free(&self.regions) {
            Some(i) => {
                let region = MemoryRegion { virt_addr, page_count, readable: true, writable, executable };
                self.regions[i] = Some(region);
                self.next_vaddr = self.next_vaddr + (page_count as u64) * (PAGE_SIZE as u64);
                Ok(region)
            },
            None => Err(RuntimeError::ResourceExhausted),
        }
    }

    /// Frees the first region that starts at `virt_addr`.
    pub fn free(&mut self, virt_addr: u64) -> (r: Result<(), RuntimeError>)
        ensures
            final(self).cursor() == old(self).cursor(),
            match r {
                Ok(()) => exists|i: int| first_region_at(old(self).slots(), virt_addr, i) && final(self).slots() == old(self).slots().update(i, None),
                Err(e) => e == RuntimeError::NotFound && *final(self) == *old(self)
                    && forall|j: int| 0 <= j < old(self).slots().len() ==> !region_at(#[trigger] old(self).slots()[j], virt_addr),
            },
    {
        let mut i: usize = 0;
        while i < 16
            invariant
                *self == *old(self),
                self.regions@.len() == 16,
                i <= 16,
                forall|j: int| 0 <= j < i ==> !region_at(#[trigger] self.regions@[j], virt_addr),
            decreases 16 - i,
        {
            if let Some(reg) = self.regions[i] {
                if reg.virt_addr == virt_addr {
                    assert(first_region_at(old(self).slots(), virt_addr, i as int));
                    self.regions[i] = None;
                    return Ok(());
                }
            }
            i += 1;
        }
        Err(RuntimeError::NotFound)
    }
}

impl Default for MemoryManager {
    fn default() -> (m: Self)
        ensures
            m.slots() == Seq::new(16, |i: int| None::<MemoryRegion>),
            m.cursor() == 0x0040_0000,
    {
        Self::new()
    }
}

} // verus!

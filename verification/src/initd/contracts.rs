//! Core-service contracts: loader checks, the core manager registry, log
//! records, security policy and crash recovery.

use vstd::prelude::*;
use super::{lifecycle_edge, RestartPolicy, ServiceId, ServiceState, ServiceTable};

verus! {

pub const MAX_PATH: usize = 192;
pub const MAX_LOG_MESSAGE: usize = 128;
pub const MAX_CORE_MANAGERS: usize = 8;

#[derive(Clone, Copy, Debug, PartialEq, Eq, Structural)]
pub enum CoreError {
    InvalidPath,
    InvalidImage,
    Full,
    Duplicate,
    CapabilityDenied,
    InvalidState,
    RecoveryRequired,
}

/// An absolute path of at most 192 bytes.
#[derive(Clone, Copy, Debug, PartialEq, Eq)]
pub struct BoundedPath {
    bytes: [u8; MAX_PATH],
    len: u16,
}

impl BoundedPath {
    pub closed spec fn wf(&self) -> bool {
        self.len <= MAX_PATH
    }

    /// The path's bytes.
    pub closed spec fn path(&self) -> Seq<u8> {
        self.bytes@.subrange(0, self.len as int)
    }

    pub fn new(path: &[u8]) -> (r: Result<Self, CoreError>)
        ensures
            path@.len() == 0 || path@.len() > MAX_PATH || path@[0] != 47 ==> r == Err::<Self, CoreError>(CoreError::InvalidPath),
            0 < path@.len() <= MAX_PATH && path@[0] == 47 ==> r is Ok && r->Ok_0.wf() && r->Ok_0.path() == path@,
    {
        if path.len() == 0 || path.len() > MAX_PATH || path[0] != 47u8 {
            return Err(CoreError::InvalidPath);
        }
        let mut bytes = [0u8; MAX_PATH];
        let mut i: usize = 0;
        while i < path.len()
            invariant
                i <= path@.len() <= MAX_PATH,
                bytes@.len() == MAX_PATH,
                forall|j: int| 0 <= j < i ==> bytes@[j] == path@[j],
            decreases path@.len() - i,
        {
            bytes[i] = path[i];
            i += 1;
        }
        let p = BoundedPath { bytes, len: path.len() as u16 };
        assert(p.path() =~= path@);
        Ok(p)
    }

    pub fn len(&self) -> (n: usize)
        requires
            self.wf(),
        ensures
            n == self.path().len(),
    {
        self.len as usize
    }

    pub fn as_bytes(&self) -> (b: &[u8])
        requires
            self.wf(),
        ensures
            b@ == self.path(),
    {
        let s = self.bytes.as_slice();
        &s[0..self.len as usize]
    }
}

#[derive(Clone, Copy, Debug, PartialEq, Eq, Structural)]
pub struct UserImage {
    pub entry: u64,
    pub image_len: u32,
    pub required_caps: u64,
}

/// A user image needs an entry point and a body, and every capability it
/// requires must be granted.
pub fn validate_user_image(image: UserImage, granted_caps: u64) -> (r: Result<(), CoreError>)
    ensures
        r == (if image.entry == 0 || image.image_len == 0 {
            Err(CoreError::InvalidImage)
        } else if image.required_caps & !granted_caps != 0 {
            Err(CoreError::CapabilityDenied)
        } else {
            Ok(())
        }),
{
    if image.entry == 0 || image.image_len == 0 {
        return Err(CoreError::InvalidImage);
    }
    if image.required_caps & !granted_caps != 0 {
        return Err(CoreError::CapabilityDenied);
    }
    Ok(())
}

#[derive(Clone, Copy, Debug, PartialEq, Eq, Structural)]
pub enum CoreManagerKind {
    Device,
    Filesystem,
    Network,
    Logging,
    Security,
    CrashRecovery,
}

#[derive(Clone, Copy, Debug, PartialEq, Eq, Structural)]
pub struct CoreManager {
    pub id: ServiceId,
    pub kind: CoreManagerKind,
    pub capabilities: u64,
}

/// `m` already holds the id or the kind of `manager`.
pub open spec fn clashes(m: CoreManager, manager: CoreManager) -> bool {
    m.id == manager.id || m.kind == manager.kind
}

/// At most one manager per id and per kind, eight in all, in registration order.
pub struct CoreManagerRegistry {
    entries: [Option<CoreManager>; MAX_CORE_MANAGERS],
    len: usize,
}

impl CoreManagerRegistry {
    pub closed spec fn wf(&self) -> bool {
        &&& self.len <= MAX_CORE_MANAGERS
        &&& forall|i: int| 0 <= i < MAX_CORE_MANAGERS ==> ((#[trigger] self.entries@[i]) is Some <==> i < self.len)
    }

    /// The registered managers, oldest first.
    pub closed spec fn managers(&self) -> Seq<CoreManager> {
        Seq::new(self.len as nat, |i: int| self.entries@[i]->Some_0)
    }

    pub fn new() -> (r: Self)
        ensures
            r.wf(),
            r.managers() == Seq::<CoreManager>::empty(),
    {
        let r = CoreManagerRegistry { entries: [None; MAX_CORE_MANAGERS], len: 0 };
        assert(r.managers() =~= Seq::<CoreManager>::empty());
        r
    }

    pub fn len(&self) -> (n: usize)
        requires
            self.wf(),
        ensures
            n == self.managers().len(),
    {
        self.len
    }

    /// Adds a manager whose id and kind are both new.
    pub fn register(&mut self, manager: CoreManager) -> (r: Result<(), CoreError>)
        requires
            old(self).wf(),
        ensures
            final(self).wf(),
            (exists|i: int| 0 <= i < old(self).managers().len() && clashes(#[trigger] old(self).managers()[i], manager))
                ==> r == Err::<(), CoreError>(CoreError::Duplicate),
            r is Err ==> final(self).managers() == old(self).managers(),
            (forall|i: int| 0 <= i < old(self).managers().len() ==> !clashes(#[trigger] old(self).managers()[i], manager)) ==> if old(self).managers().len() == MAX_CORE_MANAGERS {
                r == Err::<(), CoreError>(CoreError::Full)
            } else {
                r == Ok::<(), CoreError>(()) && final(self).managers() == old(self).managers().push(manager)
            },
    {
        let mut i: usize = 0;
        while i < self.len
            invariant
                self.wf(),
                *self == *old(self),
                i <= self.len,
                forall|j: int| 0 <= j < i ==> !clashes(#[trigger] self.managers()[j], manager),
            decreases self.len - i,
        {
            assert(self.entries@[i as int] is Some);
            let e = self.entries[i].unwrap();
            assert(self.managers()[i as int] == e);
            if e.id == manager.id || e.kind == manager.kind {
                return Err(CoreError::Duplicate);
            }
            i += 1;
        }
        if self.len == MAX_CORE_MANAGERS {
            return Err(CoreError::Full);
        }
        let ghost before = self.managers();
        self.entries[self.len] = Some(manager);
        self.len = self.len + 1;
        assert(self.managers() =~= before.push(manager));
        Ok(())
    }

    /// The first manager of this kind.
    pub fn get(&self, kind: CoreManagerKind) -> (r: Option<CoreManager>)
        requires
            self.wf(),
        ensures
            match r {
                Some(m) => exists|i: int| 0 <= i < self.managers().len() && self.managers()[i] == m && m.kind == kind
                    && forall|j: int| 0 <= j < i ==> (#[trigger] self.managers()[j]).kind != kind,
                None => forall|j: int| 0 <= j < self.managers().len() ==> (#[trigger] self.managers()[j]).kind != kind,
            },
    {
        let mut i: usize = 0;
        while i < self.len
            invariant
                self.wf(),
                i <= self.len,
                forall|j: int| 0 <= j < i ==> (#[trigger] self.managers()[j]).kind != kind,
            decreases self.len - i,
        {
            assert(self.entries@[i as int] is Some);
            let e = self.entries[i].unwrap();
            if e.kind == kind {
                assert(self.managers()[i as int] == e);
                return Some(e);
            }
            i += 1;
        }
        None
    }
}

impl Default for CoreManagerRegistry {
    fn default() -> (r: Self)
        ensures
            r.wf(),
            r.managers() == Seq::<CoreManager>::empty(),
    {
        Self::new()
    }
}

#[derive(Clone, Copy, Debug, PartialEq, Eq, Structural)]
pub enum LogLevel {
    Debug,
    Info,
    Warn,
    Error,
    Critical,
}

#[derive(Clone, Copy, Debug, PartialEq, Eq)]
pub struct LogRecord {
    pub sequence: u64,
    pub level: LogLevel,
    pub service: ServiceId,
    pub message: [u8; MAX_LOG_MESSAGE],
    pub message_len: u16,
}

impl LogRecord {
    /// A record with a message of at most 128 bytes, zero-padded.
    pub fn new(sequence: u64, level: LogLevel, service: ServiceId, message: &[u8]) -> (r: Result<Self, CoreError>)
        ensures
            message@.len() > MAX_LOG_MESSAGE ==> r == Err::<Self, CoreError>(CoreError::InvalidPath),
            message@.len() <= MAX_LOG_MESSAGE ==> r is Ok && {
                let rec = r->Ok_0;
                &&& rec.sequence == sequence && rec.level == level && rec.service == service
                &&& rec.message_len == message@.len()
                &&& rec.message@ == message@ + Seq::new((MAX_LOG_MESSAGE - message@.len()) as nat, |i: int| 0u8)
            },
    {
        if message.len() > MAX_LOG_MESSAGE {
            return Err(CoreError::InvalidPath);
        }
        let mut buf = [0u8; MAX_LOG_MESSAGE];
        let mut i: usize = 0;
        while i < message.len()
            invariant
                i <= message@.len() <= MAX_LOG_MESSAGE,
                buf@.len() == MAX_LOG_MESSAGE,
                forall|j: int| 0 <= j < i ==> buf@[j] == message@[j],
                forall|j: int| i <= j < MAX_LOG_MESSAGE ==> buf@[j] == 0u8,
            decreases message@.len() - i,
        {
            buf[i] = message[i];
            i += 1;
        }
        assert(buf@ =~= message@ + Seq::new((MAX_LOG_MESSAGE - message@.len()) as nat, |i: int| 0u8));
        Ok(LogRecord { sequence, level, service, message: buf, message_len: message.len() as u16 })
    }

    pub fn message(&self) -> (m: &[u8])
        requires
            self.message_len <= MAX_LOG_MESSAGE,
        ensures
            m@ == self.message@.subrange(0, self.message_len as int),
    {
        let s = self.message.as_slice();
        &s[0..self.message_len as usize]
    }
}

#[derive(Clone, Copy, Debug, PartialEq, Eq, Structural)]
pub struct SecurityPolicy {
    pub allowed_caps: u64,
    pub deny_by_default: bool,
}

impl SecurityPolicy {
    pub fn deny_all() -> (p: Self)
        ensures
            p == (SecurityPolicy { allowed_caps: 0, deny_by_default: true }),
    {
        SecurityPolicy { allowed_caps: 0, deny_by_default: true }
    }

    /// A request is authorised when it asks for no capability outside the allowed set.
    pub fn authorize(&self, requested: u64) -> (r: Result<(), CoreError>)
        ensures
            r == (if requested & !self.allowed_caps != 0 { Err(CoreError::CapabilityDenied) } else { Ok(()) }),
    {
        if self.deny_by_default && requested & !self.allowed_caps != 0 {
            return Err(CoreError::CapabilityDenied);
        }
        if requested & !self.allowed_caps != 0 {
            return Err(CoreError::CapabilityDenied);
        }
        Ok(())
    }
}

/// A policy that allows nothing refuses every non-empty request.
pub proof fn lemma_deny_all_refuses(requested: u64)
    requires
        requested != 0,
    ensures
        requested & !0u64 != 0,
{
    assert(requested != 0 ==> requested & !0u64 != 0) by (bit_vector);
}

#[derive(Clone, Copy, Debug, PartialEq, Eq, Structural)]
pub struct CrashRecord {
    pub service: ServiceId,
    pub state: ServiceState,
    pub fault_code: u32,
    pub recoverable: bool,
}

#[derive(Clone, Copy, Debug, PartialEq, Eq, Structural)]
pub enum RecoveryAction {
    Restart,
    Quarantine,
    Halt,
}

/// Only recoverable crashes are acted on: a failed service restarts, a
/// quarantined one stays quarantined, everything else halts.
pub open spec fn spec_recovery_action(record: CrashRecord) -> RecoveryAction {
    if !record.recoverable {
        RecoveryAction::Halt
    } else if record.state == ServiceState::Failed {
        RecoveryAction::Restart
    } else if record.state == ServiceState::Quarantined {
        RecoveryAction::Quarantine
    } else {
        RecoveryAction::Halt
    }
}

pub fn recovery_action(record: CrashRecord) -> (a: RecoveryAction)
    ensures
        a == spec_recovery_action(record),
{
    if !record.recoverable {
        return RecoveryAction::Halt;
    }
    match record.state {
        ServiceState::Failed => RecoveryAction::Restart,
        ServiceState::Quarantined => RecoveryAction::Quarantine,
        _ => RecoveryAction::Halt,
    }
}

/// Brings a core manager's service up: a failed service is restarted
/// (refused restarts ask for recovery), a declared one goes through
/// `Starting` to `Running`, a running one is left alone.
pub fn start_core_manager(services: &mut ServiceTable, manager: CoreManager) -> (r: Result<(), CoreError>)
    ensures
        match old(services).spec_state(manager.id) {
            None => r == Err::<(), CoreError>(CoreError::InvalidState) && final(services).slots() == old(services).slots(),
            Some(ServiceState::Failed) => {
                let spec = old(services).slots()[manager.id.0 as int]->Some_0.0;
                if spec.restart == RestartPolicy::Never {
                    r == Err::<(), CoreError>(CoreError::RecoveryRequired) && final(services).slots() == old(services).slots()
                } else {
                    r == Ok::<(), CoreError>(()) && final(services).spec_state(manager.id) == Some(ServiceState::Running)
                        && final(services).slots() == old(services).slots().update(manager.id.0 as int, Some((spec, ServiceState::Running)))
                }
            },
            Some(ServiceState::Declared) => r == Ok::<(), CoreError>(())
                && final(services).slots() == old(services).slots().update(manager.id.0 as int,
                    Some((old(services).slots()[manager.id.0 as int]->Some_0.0, ServiceState::Running))),
            Some(ServiceState::Running) => r == Ok::<(), CoreError>(()) && final(services).slots() == old(services).slots(),
            Some(_) => r == Err::<(), CoreError>(CoreError::InvalidState) && final(services).slots() == old(services).slots(),
        },
{
    let state = match services.state(manager.id) {
        None => {
            return Err(CoreError::InvalidState);
        },
        Some(s) => s,
    };
    if state == ServiceState::Failed {
        return match services.restart(manager.id) {
            Ok(()) => Ok(()),
            Err(_) => Err(CoreError::RecoveryRequired),
        };
    }
    if state == ServiceState::Declared {
        match services.set_state(manager.id, ServiceState::Starting) {
            Err(_) => {
                return Err(CoreError::InvalidState);
            },
            Ok(()) => {},
        }
        match services.set_state(manager.id, ServiceState::Running) {
            Err(_) => {
                return Err(CoreError::InvalidState);
            },
            Ok(()) => {},
        }
        return Ok(());
    }
    if state == ServiceState::Running {
        return Ok(());
    }
    Err(CoreError::InvalidState)
}

} // verus!

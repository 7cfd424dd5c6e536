//! AWE_OS userspace service plane: bounded, capability-aware service logic
//! (package admission, drivers, storage, networking, IPC, update/recovery).

pub mod bytes;
pub mod table;
pub mod storaged;
pub mod netd;
pub mod driverd;
pub mod awosa;
pub mod ayui;
pub mod platformd;
pub mod initd;
pub mod identityd;
pub mod update;
pub mod nexus;
pub mod securityd;
pub mod appd;
pub mod kernel;
pub mod tools;

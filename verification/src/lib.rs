//! Verified logic of the Akarin microkernel.

pub mod collections;
pub mod device;
pub mod error;
pub mod init;
pub mod interrupt;
pub mod ipc;
pub mod memory;
pub mod numeric;
pub mod object;
pub mod runtime;
pub mod sched;
pub mod text;

//! Processes: lifecycle, task membership, handles and address space.

pub mod control;
pub mod laws;
pub mod lifecycle;
pub mod loader;
pub mod manager;
pub mod objects;
pub mod spawn;
pub mod stack;
pub mod tasks;
pub mod vm;

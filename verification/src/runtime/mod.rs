//! Services of the running kernel.

pub mod bootstrap;
pub mod extensions;
pub mod futex;
pub mod intercpu;
pub mod laws;
pub mod once;

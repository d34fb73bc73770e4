//! PCI configuration space, interrupt capabilities and function objects.

pub mod bars;
pub mod cap;
pub mod config;
pub mod ecam;
pub mod function;
pub mod interrupt;
pub mod laws;
pub mod object;
pub mod scan;

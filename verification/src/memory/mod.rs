//! Memory management.

pub mod early;
pub mod frame;
pub mod heap;
pub mod laws;
pub mod range;
pub mod slab;
pub mod small;
pub mod zones;

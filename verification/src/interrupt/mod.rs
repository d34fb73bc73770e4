//! Interrupt sources and the objects that expose them.

pub mod laws;
pub mod object;

use vstd::prelude::*;

verus! {

/// Errors of the interrupt controller.
#[derive(Debug, Clone, Copy, PartialEq, Eq, Structural)]
pub enum IrqError {
    InvalidParameter,
    NotSupported,
    OutOfResources,
    InvalidIrq(usize),
    WouldBlock,
    Closed,
    DeadlineUnsupported,
}

/// One message that a device sends to raise an interrupt.
#[derive(Debug, Clone, Copy, PartialEq, Eq, Structural)]
pub struct MessageIrqDescriptor {
    pub address_lo: u32,
    pub address_hi: u32,
    pub data: u32,
    pub vector: usize,
    pub cpu_id: usize,
}

/// Kind of a block of message interrupts.
#[derive(Debug, Clone, Copy, PartialEq, Eq, Structural)]
pub enum MessageIrqKind {
    Msi,
    Msix,
}

/// Request to the interrupt controller for a block of message interrupts.
#[derive(Debug, Clone, Copy, PartialEq, Eq, Structural)]
pub struct MessageIrqRequest {
    pub kind: MessageIrqKind,
    pub count: usize,
    pub target_cpu: Option<usize>,
    pub allow_spread: bool,
}

} // verus!

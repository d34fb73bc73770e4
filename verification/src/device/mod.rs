//! Devices that the kernel drives itself.

pub mod acpi;
pub mod efifb;
pub mod glyph;
pub mod laws;
pub mod manager;
pub mod mmio;
pub mod pci;

use vstd::prelude::*;

verus! {

/// Why a device was not set up.
#[derive(Debug, Clone, Copy, PartialEq, Eq, Structural)]
pub enum DeviceProbeError {
    /// The probed device is not described by firmware or not usable.
    NotPresent,
    /// The probe failed while initializing the device.
    InitializationFailed,
}

} // verus!

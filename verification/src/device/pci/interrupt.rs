//! Binder between PCI interrupt capabilities and blocks of message interrupts.

use super::cap::{
    MsixTablePlan, PciInterruptCapabilities, PciMsiCapability, PciMsixCapability, all_off,
    consecutive, msi_of, msi_on, msix_masked, msix_of, table_words,
};
use super::config::{PciBdf, PciConfigAccess, Spaces, put_space, space_of};
use super::scan::answers;
use crate::device::mmio::half_at;
use crate::interrupt::{IrqError, MessageIrqDescriptor, MessageIrqKind, MessageIrqRequest};
use vstd::arithmetic::power2::pow2;
use vstd::prelude::*;

verus! {

/// One allocated PCI interrupt bundle returned by the binder.
pub struct PciInterruptAllocation<B, S> {
    pub block: B,
    pub sessions: Vec<S>,
}

/// Kernel-internal interrupt binder.
pub struct PciInterruptBinder;

/// What a function asks the interrupt controller for to use MSI.
pub open spec fn msi_request(
    spaces: Spaces,
    bdf: PciBdf,
    count: usize,
    cpu_hint: Option<usize>,
) -> Result<(PciMsiCapability, MessageIrqRequest), IrqError> {
    if !answers(spaces, bdf) {
        Err(IrqError::InvalidParameter)
    } else {
        match msi_of(space_of(spaces, bdf)) {
            None => Err(IrqError::NotSupported),
            Some(msi) => if !msi.supports(count) {
                Err(IrqError::InvalidParameter)
            } else {
                Ok(
                    (
                        msi,
                        MessageIrqRequest {
                            kind: MessageIrqKind::Msi,
                            count,
                            target_cpu: cpu_hint,
                            allow_spread: false,
                        },
                    ),
                )
            },
        }
    }
}

/// What a function asks the interrupt controller for to use MSI-X.
pub open spec fn msix_request(
    spaces: Spaces,
    bdf: PciBdf,
    count: usize,
    cpu_hint: Option<usize>,
) -> Result<(PciMsixCapability, MessageIrqRequest), IrqError> {
    if !answers(spaces, bdf) {
        Err(IrqError::InvalidParameter)
    } else {
        match msix_of(space_of(spaces, bdf)) {
            None => Err(IrqError::NotSupported),
            Some(msix) => if count == 0 || count > msix.table_size {
                Err(IrqError::InvalidParameter)
            } else {
                Ok(
                    (
                        msix,
                        MessageIrqRequest {
                            kind: MessageIrqKind::Msix,
                            count,
                            target_cpu: cpu_hint,
                            allow_spread: true,
                        },
                    ),
                )
            },
        }
    }
}

/// The spaces once every delivery mode of a function is off.
pub open spec fn silenced(spaces: Spaces, bdf: PciBdf) -> Spaces {
    put_space(spaces, bdf, all_off(space_of(spaces, bdf)))
}

/// The spaces once a function that is there has been silenced.
pub open spec fn disabled(spaces: Spaces, bdf: PciBdf) -> Spaces {
    if answers(spaces, bdf) {
        silenced(spaces, bdf)
    } else {
        spaces
    }
}

impl PciInterruptBinder {
    /// Decides what to ask the controller for to put a function into MSI mode.
    pub fn request_msi<A: PciConfigAccess>(
        access: &A,
        bdf: PciBdf,
        count: usize,
        cpu_hint: Option<usize>,
    ) -> (result: Result<(PciMsiCapability, MessageIrqRequest), IrqError>)
        requires
            access.wf(),
        ensures
            result == msi_request(access.spaces(), bdf, count, cpu_hint),
            result matches Ok(request) ==> request.0.wf(),
    {
        let caps = PciInterruptCapabilities::new(access, bdf);
        if !caps.present() {
            return Err(IrqError::InvalidParameter);
        }
        match caps.msi() {
            None => Err(IrqError::NotSupported),
            Some(capability) => {
                if !capability.supports_count(count) {
                    return Err(IrqError::InvalidParameter);
                }
                Ok(
                    (
                        capability,
                        MessageIrqRequest {
                            kind: MessageIrqKind::Msi,
                            count,
                            target_cpu: cpu_hint,
                            allow_spread: false,
                        },
                    ),
                )
            },
        }
    }

    /// Decides what to ask the controller for to put a function into MSI-X
    /// mode.
    pub fn request_msix<A: PciConfigAccess>(
        access: &A,
        bdf: PciBdf,
        count: usize,
        cpu_hint: Option<usize>,
    ) -> (result: Result<(PciMsixCapability, MessageIrqRequest), IrqError>)
        requires
            access.wf(),
        ensures
            result == msix_request(access.spaces(), bdf, count, cpu_hint),
            result matches Ok(request) ==> request.0.wf(),
    {
        let caps = PciInterruptCapabilities::new(access, bdf);
        if !caps.present() {
            return Err(IrqError::InvalidParameter);
        }
        match caps.msix() {
            None => Err(IrqError::NotSupported),
            Some(capability) => {
                if count == 0 || count > capability.table_size {
                    return Err(IrqError::InvalidParameter);
                }
                Ok(
                    (
                        capability,
                        MessageIrqRequest {
                            kind: MessageIrqKind::Msix,
                            count,
                            target_cpu: cpu_hint,
                            allow_spread: true,
                        },
                    ),
                )
            },
        }
    }

    /// Programs a function with the MSI messages of a block. Every mode is
    /// switched off first, and stays off where the messages do not fit.
    pub fn allocate_msi<A: PciConfigAccess, B, S>(
        access: &mut A,
        bdf: PciBdf,
        capability: PciMsiCapability,
        block: B,
        descriptors: &Vec<MessageIrqDescriptor>,
        sessions: Vec<S>,
    ) -> (result: Result<PciInterruptAllocation<B, S>, IrqError>)
        requires
            capability.wf(),
            old(access).wf(),
        ensures
            final(access).wf(),
            ({
                let quiet = silenced(old(access).spaces(), bdf);
                let fits = descriptors@.len() > 0 && capability.supports(
                    descriptors@.len() as usize,
                ) && consecutive(descriptors@);
                match result {
                    Ok(allocation) => {
                        &&& fits
                        &&& allocation.block == block
                        &&& allocation.sessions@ == sessions@
                        &&& exists|exponent: u16|
                            descriptors@.len() == #[trigger] pow2(exponent as nat)
                                && final(access).spaces() == put_space(
                                quiet,
                                bdf,
                                msi_on(space_of(quiet, bdf), capability, descriptors@[0], exponent),
                            )
                    },
                    Err(error) => {
                        &&& !fits
                        &&& error == IrqError::InvalidParameter
                        &&& final(access).spaces() == quiet
                    },
                }
            }),
    {
        PciInterruptCapabilities::disable_all_interrupts(access, bdf);
        match capability.enable(access, bdf, descriptors) {
            Ok(()) => Ok(PciInterruptAllocation { block, sessions }),
            Err(error) => Err(error),
        }
    }

    /// Begins to program a function with the MSI-X messages of a block. Every
    /// mode is switched off first. The caller stores the planned words in the
    /// table and then ends the change.
    pub fn allocate_msix<A: PciConfigAccess, B, S>(
        access: &mut A,
        bdf: PciBdf,
        capability: PciMsixCapability,
        block: B,
        descriptors: &Vec<MessageIrqDescriptor>,
        sessions: Vec<S>,
    ) -> (result: Result<(PciInterruptAllocation<B, S>, MsixTablePlan), IrqError>)
        requires
            capability.wf(),
            old(access).wf(),
        ensures
            final(access).wf(),
            ({
                let quiet = silenced(old(access).spaces(), bdf);
                let before = space_of(quiet, bdf);
                let masked = put_space(quiet, bdf, msix_masked(before, capability.offset));
                if descriptors@.len() == 0 || descriptors@.len() > capability.table_size {
                    &&& result matches Err(error)
                    &&& error == IrqError::InvalidParameter
                    &&& final(access).spaces() == quiet
                } else {
                    &&& final(access).spaces() == masked
                    &&& match result {
                        Err(error) => capability.table_place(space_of(masked, bdf)) == Err::<
                            int,
                            IrqError,
                        >(error),
                        Ok((allocation, plan)) => {
                            &&& allocation.block == block
                            &&& allocation.sessions@ == sessions@
                            &&& capability.table_place(space_of(masked, bdf)) == Ok::<
                                int,
                                IrqError,
                            >(plan.phys_base as int)
                            &&& plan.writes@ == table_words(
                                capability.table_offset as int,
                                descriptors@,
                            )
                            &&& plan.size == capability.table_offset + 16 * capability.table_size
                            &&& plan.control == (half_at(before, capability.offset + 2) | 0x4000)
                                & 0x7fff
                        },
                    }
                }
            }),
    {
        PciInterruptCapabilities::disable_all_interrupts(access, bdf);
        match capability.enable(access, bdf, descriptors) {
            Ok(plan) => Ok((PciInterruptAllocation { block, sessions }, plan)),
            Err(error) => Err(error),
        }
    }

    /// Disable every interrupt mode currently programmed on the supplied
    /// function.
    pub fn disable_interrupts<A: PciConfigAccess>(access: &mut A, bdf: PciBdf) -> (result: Result<
        (),
        IrqError,
    >)
        requires
            old(access).wf(),
        ensures
            final(access).wf(),
            final(access).spaces() == disabled(old(access).spaces(), bdf),
            result == (if answers(old(access).spaces(), bdf) {
                Ok::<(), IrqError>(())
            } else {
                Err::<(), IrqError>(IrqError::InvalidParameter)
            }),
    {
        if !PciInterruptCapabilities::new(&*access, bdf).present() {
            return Err(IrqError::InvalidParameter);
        }
        PciInterruptCapabilities::disable_all_interrupts(access, bdf);
        Ok(())
    }
}

} // verus!

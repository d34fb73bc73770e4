//! PCI function objects: queries and changes of interrupt delivery.

use super::bars::bar_summary_matches;
use super::cap::{
    PciInterruptCapabilities, PciMsiCapability, PciMsixCapability, capability_summary_of, msi_of,
    msix_of,
};
use super::config::{PciBdf, PciConfigAccess, Spaces, space_of};
use super::interrupt::{PciInterruptBinder, disabled, msi_request, msix_request};
use super::object::{
    PciAbi, PciFunctionInfo, PciFunctionMethod, PciInterruptBindArgs, PciInvokeError, PciReply,
    PciSyscallCodec,
};
use super::scan::answers;
use crate::interrupt::object::{make_sessions, sessions_made, IrqAbi};
use crate::interrupt::{IrqError, MessageIrqKind, MessageIrqRequest};
use crate::ipc::cap::{caps_cover, covers};
use crate::ipc::frame::ReplyValues;
use crate::object::{
    Handle, HandleTable, ObjectError, law_install_then_discard, lemma_room, slots_in_turn,
    table_after,
};
use vstd::prelude::*;

verus! {

/// Block of message interrupts that the controller gave to a function.
#[derive(Debug, Clone, Copy, PartialEq, Eq, Structural)]
pub struct IrqMessageBlock {
    pub id: u64,
    pub kind: MessageIrqKind,
}

/// `/Resource/PCI/<BDF>` function object.
#[derive(Debug, Clone, Copy, PartialEq, Eq, Structural)]
pub struct PciFunction {
    pub info: PciFunctionInfo,
    /// Whether a change of interrupt delivery is under way.
    pub configuring: bool,
    pub active: Option<IrqMessageBlock>,
}

impl PciFunction {
    pub fn new(info: PciFunctionInfo) -> (function: Self)
        ensures
            function == (PciFunction { info, configuring: false, active: None }),
    {
        PciFunction { info, configuring: false, active: None }
    }

    /// The number of the mode in which interrupts are delivered.
    pub open spec fn mode(self, abi: PciAbi) -> usize {
        match self.active {
            None => abi.mode_intx,
            Some(block) => match block.kind {
                MessageIrqKind::Msi => abi.mode_msi,
                MessageIrqKind::Msix => abi.mode_msix,
            },
        }
    }

    pub fn current_interrupt_mode(&self, abi: &PciAbi) -> (mode: usize)
        ensures
            mode == self.mode(*abi),
    {
        match self.active {
            None => abi.mode_intx,
            Some(block) => match block.kind {
                MessageIrqKind::Msi => abi.mode_msi,
                MessageIrqKind::Msix => abi.mode_msix,
            },
        }
    }

    /// Words that describe the modes that a function can be put into.
    pub open spec fn mode_words(self, abi: PciAbi, space: Seq<u8>) -> ReplyValues {
        let with_msi = if msi_of(space) is Some {
            abi.bit_intx | abi.bit_msi
        } else {
            abi.bit_intx
        };
        ReplyValues {
            v0: if msix_of(space) is Some {
                with_msi | abi.bit_msix
            } else {
                with_msi
            },
            v1: self.mode(abi),
            v2: match msi_of(space) {
                Some(msi) => msi.max_messages,
                None => 0,
            },
            v3: match msix_of(space) {
                Some(msix) => msix.table_size,
                None => 0,
            },
            v4: 0,
        }
    }

    fn query_interrupt_modes_words<A: PciConfigAccess>(&self, abi: &PciAbi, config: &A) -> (reply:
        PciReply)
        requires
            config.wf(),
        ensures
            reply == PciReply::Done(
                self.mode_words(*abi, space_of(config.spaces(), self.info.bdf)),
            ),
    {
        let caps = PciInterruptCapabilities::new(config, self.info.bdf);
        let mut supported_modes: usize = abi.bit_intx;
        let mut max_msi_vectors: usize = 0;
        let mut max_msix_vectors: usize = 0;
        if let Some(msi) = caps.msi() {
            supported_modes = supported_modes | abi.bit_msi;
            max_msi_vectors = msi.max_messages;
        }
        if let Some(msix) = caps.msix() {
            supported_modes = supported_modes | abi.bit_msix;
            max_msix_vectors = msix.table_size;
        }
        PciReply::Done(
            ReplyValues {
                v0: supported_modes,
                v1: self.current_interrupt_mode(abi),
                v2: max_msi_vectors,
                v3: max_msix_vectors,
                v4: 0,
            },
        )
    }

    /// Marks that a change of interrupt delivery is under way.
    pub fn begin_reconfigure(&mut self) -> (result: Result<(), PciInvokeError>)
        ensures
            result == (if old(self).configuring {
                Err::<(), PciInvokeError>(PciInvokeError::Busy)
            } else {
                Ok::<(), PciInvokeError>(())
            }),
            *final(self) == (PciFunction { configuring: true, ..*old(self) }),
    {
        if self.configuring {
            return Err(PciInvokeError::Busy);
        }
        self.configuring = true;
        Ok(())
    }

    /// Ends a change of interrupt delivery with a new block or none.
    pub fn finish_reconfigure(&mut self, new_allocation: Option<IrqMessageBlock>)
        ensures
            *final(self) == (PciFunction {
                configuring: false,
                active: new_allocation,
                ..*old(self)
            }),
    {
        self.active = new_allocation;
        self.configuring = false;
    }

    /// Gives up a change of interrupt delivery.
    pub fn cancel_reconfigure(&mut self)
        ensures
            *final(self) == (PciFunction { configuring: false, ..*old(self) }),
    {
        self.configuring = false;
    }

    /// Takes the block out of the function.
    pub fn take_active_allocation(&mut self) -> (block: Option<IrqMessageBlock>)
        ensures
            block == old(self).active,
            *final(self) == (PciFunction { active: None, ..*old(self) }),
    {
        let block = self.active;
        self.active = None;
        block
    }

    /// What is left to do when the function object goes away: the block whose
    /// sessions have to be closed. Its device no longer delivers.
    pub fn retire<A: PciConfigAccess>(&mut self, config: &mut A, runtime: bool) -> (block: Option<
        IrqMessageBlock,
    >)
        requires
            old(config).wf(),
        ensures
            final(config).wf(),
            block == old(self).active,
            *final(self) == (PciFunction { active: None, configuring: false, ..*old(self) }),
            final(config).spaces() == (if old(self).active is Some && runtime {
                disabled(old(config).spaces(), old(self).info.bdf)
            } else {
                old(config).spaces()
            }),
    {
        let block = self.take_active_allocation();
        self.cancel_reconfigure();
        if block.is_some() && runtime {
            let _ = PciInterruptBinder::disable_interrupts(config, self.info.bdf);
        }
        block
    }
}

/// Read-side guard for one PCI function resource object.
pub struct PciFunctionReadGuard {
    pub interface_caps: u32,
}

impl PciFunctionReadGuard {
    pub open spec fn is_query(method: PciFunctionMethod) -> bool {
        method == PciFunctionMethod::QueryInfo || method == PciFunctionMethod::QueryInterruptModes
            || method == PciFunctionMethod::QueryBars || method
            == PciFunctionMethod::QueryCapabilities
    }

    /// Answers a query; `None` is a number that names no method. Queries of
    /// the device itself need the PCI runtime.
    pub fn dispatch<A: PciConfigAccess>(
        &self,
        function: &PciFunction,
        abi: &PciAbi,
        method: Option<PciFunctionMethod>,
        runtime: Option<&A>,
    ) -> (result: Result<PciReply, ObjectError>)
        requires
            runtime matches Some(config) ==> config.wf(),
        ensures
            match method {
                None => result == Ok::<PciReply, ObjectError>(
                    PciReply::Failed(PciInvokeError::InvalidParameter),
                ),
                Some(method) => if !Self::is_query(method) || !covers(
                    self.interface_caps,
                    abi.function_query,
                ) {
                    result == Err::<PciReply, ObjectError>(ObjectError::InsufficientCapabilities)
                } else {
                    &&& result matches Ok(reply)
                    &&& if method == PciFunctionMethod::QueryInfo {
                        reply == PciReply::Done(PciSyscallCodec::info_words(function.info))
                    } else {
                        match runtime {
                            None => reply == PciReply::Failed(PciInvokeError::RuntimeUnavailable),
                            Some(config) => {
                                let space = space_of(config.spaces(), function.info.bdf);
                                if method == PciFunctionMethod::QueryInterruptModes {
                                    reply == PciReply::Done(function.mode_words(*abi, space))
                                } else if method == PciFunctionMethod::QueryBars {
                                    &&& reply matches PciReply::Done(words)
                                    &&& bar_summary_matches(
                                        space,
                                        super::bars::PciBarSummary {
                                            bar_count: words.v0,
                                            present_mask: words.v1,
                                            io_mask: words.v2,
                                            mmio64_mask: words.v3,
                                            prefetchable_mask: words.v4,
                                        },
                                    )
                                } else {
                                    let summary = capability_summary_of(
                                        space,
                                        abi.capability_bits,
                                    );
                                    reply == PciSyscallCodec::three(
                                        summary.capability_bits,
                                        summary.max_msi_vectors,
                                        summary.max_msix_vectors,
                                    )
                                }
                            },
                        }
                    }
                },
            },
    {
        let method = match method {
            Some(method) => method,
            None => {
                return Ok(PciReply::Failed(PciInvokeError::InvalidParameter));
            },
        };
        match method {
            PciFunctionMethod::EnableMsi | PciFunctionMethod::EnableMsix
            | PciFunctionMethod::DisableInterrupts => {
                return Err(ObjectError::InsufficientCapabilities);
            },
            _ => {},
        }
        if !caps_cover(self.interface_caps, abi.function_query) {
            return Err(ObjectError::InsufficientCapabilities);
        }
        match method {
            PciFunctionMethod::QueryInfo => Ok(PciSyscallCodec::function_info(function.info)),
            _ => match runtime {
                None => Ok(PciReply::Failed(PciInvokeError::RuntimeUnavailable)),
                Some(config) => {
                    let caps = PciInterruptCapabilities::new(config, function.info.bdf);
                    match method {
                        PciFunctionMethod::QueryInterruptModes => Ok(
                            function.query_interrupt_modes_words(abi, config),
                        ),
                        PciFunctionMethod::QueryBars => Ok(
                            PciSyscallCodec::bar_summary(caps.bar_summary()),
                        ),
                        _ => Ok(
                            PciSyscallCodec::capability_summary(
                                caps.capability_summary(abi.capability_bits),
                            ),
                        ),
                    }
                },
            },
        }
    }
}

/// The capability that a request for interrupts goes through.
#[derive(Debug, Clone, Copy, PartialEq, Eq, Structural)]
pub enum PciMessageCapability {
    Msi(PciMsiCapability),
    Msix(PciMsixCapability),
}

/// How far a request for a change of interrupt delivery has got.
#[derive(Debug, Clone, Copy, PartialEq, Eq)]
pub enum PciExecuteStep {
    /// The request is answered.
    Finished(Result<PciReply, ObjectError>),
    /// The controller has to be asked for a block.
    Allocate(PciMessageCapability, MessageIrqRequest),
}

/// A step, and the block that it took from the function and whose sessions have
/// to be closed.
#[derive(Debug, Clone, Copy, PartialEq, Eq)]
pub struct PciExecuteOutcome {
    pub step: PciExecuteStep,
    pub retired: Option<IrqMessageBlock>,
}

/// Execute-side guard for one PCI function resource object.
pub struct PciFunctionExecuteGuard {
    pub interface_caps: u32,
}

/// What a request for a block of message interrupts is answered before the
/// controller is asked.
pub open spec fn early_refusal(
    args: Option<PciInterruptBindArgs>,
    runtime: bool,
) -> Option<PciInvokeError> {
    match args {
        None => Some(PciInvokeError::Fault),
        Some(args) => if args.count == 0 {
            Some(PciInvokeError::InvalidParameter)
        } else if args.slots_len < args.count {
            Some(PciInvokeError::BufferTooSmall)
        } else if !runtime {
            Some(PciInvokeError::RuntimeUnavailable)
        } else {
            None
        },
    }
}

/// The capability and the request for the controller, or why there is none.
pub open spec fn message_request(
    spaces: Spaces,
    bdf: PciBdf,
    kind: MessageIrqKind,
    count: usize,
    hint: Option<usize>,
) -> Result<(PciMessageCapability, MessageIrqRequest), IrqError> {
    match kind {
        MessageIrqKind::Msi => match msi_request(spaces, bdf, count, hint) {
            Ok((msi, request)) => Ok((PciMessageCapability::Msi(msi), request)),
            Err(error) => Err(error),
        },
        MessageIrqKind::Msix => match msix_request(spaces, bdf, count, hint) {
            Ok((msix, request)) => Ok((PciMessageCapability::Msix(msix), request)),
            Err(error) => Err(error),
        },
    }
}

pub open spec fn hint_of(args: PciInterruptBindArgs, abi: PciAbi) -> Option<usize> {
    if args.cpu_hint != abi.no_cpu_hint {
        Some(args.cpu_hint)
    } else {
        None
    }
}

pub open spec fn failed(error: PciInvokeError) -> PciExecuteStep {
    PciExecuteStep::Finished(Ok(PciReply::Failed(error)))
}

impl PciFunctionExecuteGuard {
    /// What the first step of a request for message interrupts does.
    pub open spec fn enable_effect(
        kind: MessageIrqKind,
        abi: PciAbi,
        args: Option<PciInterruptBindArgs>,
        runtime: bool,
        before: (PciFunction, Spaces),
        after: (PciFunction, Spaces),
        outcome: PciExecuteOutcome,
    ) -> bool {
        let (function, spaces) = before;
        if function.configuring {
            after == before && outcome == PciExecuteOutcome {
                step: failed(PciInvokeError::Busy),
                retired: None,
            }
        } else {
            match early_refusal(args, runtime) {
                Some(error) => after == before && outcome == PciExecuteOutcome {
                    step: failed(error),
                    retired: None,
                },
                None => {
                    let bdf = function.info.bdf;
                    let quiet = if function.active is Some {
                        disabled(spaces, bdf)
                    } else {
                        spaces
                    };
                    let request = message_request(
                        quiet,
                        bdf,
                        kind,
                        args->0.count,
                        hint_of(args->0, abi),
                    );
                    &&& after.1 == quiet
                    &&& outcome.retired == function.active
                    &&& match request {
                        Ok((capability, request)) => after.0 == PciFunction {
                            configuring: true,
                            active: None,
                            ..function
                        } && outcome.step == PciExecuteStep::Allocate(capability, request),
                        Err(error) => after.0 == PciFunction {
                            configuring: false,
                            active: None,
                            ..function
                        } && outcome.step == failed(PciInvokeError::of_irq(error)),
                    }
                },
            }
        }
    }

    /// What a request to switch interrupts off does.
    pub open spec fn disable_effect(
        runtime: bool,
        before: (PciFunction, Spaces),
        after: (PciFunction, Spaces),
        outcome: PciExecuteOutcome,
    ) -> bool {
        let (function, spaces) = before;
        if function.configuring {
            after == before && outcome == PciExecuteOutcome {
                step: failed(PciInvokeError::Busy),
                retired: None,
            }
        } else if !runtime {
            after == before && outcome == PciExecuteOutcome {
                step: failed(PciInvokeError::RuntimeUnavailable),
                retired: None,
            }
        } else if !answers(spaces, function.info.bdf) {
            after == before && outcome == PciExecuteOutcome {
                step: failed(PciInvokeError::InvalidParameter),
                retired: None,
            }
        } else {
            &&& after == (
                PciFunction { active: None, ..function },
                disabled(spaces, function.info.bdf),
            )
            &&& outcome == PciExecuteOutcome {
                step: PciExecuteStep::Finished(Ok(PciSyscallCodec::three(0, 0, 0))),
                retired: function.active,
            }
        }
    }

    fn start_enable<A: PciConfigAccess>(
        function: &mut PciFunction,
        abi: &PciAbi,
        config: &mut A,
        kind: MessageIrqKind,
        args: Option<PciInterruptBindArgs>,
        runtime: bool,
    ) -> (outcome: PciExecuteOutcome)
        requires
            old(config).wf(),
        ensures
            final(config).wf(),
            Self::enable_effect(
                kind,
                *abi,
                args,
                runtime,
                (*old(function), old(config).spaces()),
                (*final(function), final(config).spaces()),
                outcome,
            ),
    {
        if let Err(error) = function.begin_reconfigure() {
            return PciExecuteOutcome {
                step: PciExecuteStep::Finished(Ok(PciReply::Failed(error))),
                retired: None,
            };
        }
        let args = match args {
            Some(args) => args,
            None => {
                function.cancel_reconfigure();
                return PciExecuteOutcome {
                    step: PciExecuteStep::Finished(Ok(PciReply::Failed(PciInvokeError::Fault))),
                    retired: None,
                };
            },
        };
        let refusal: Option<PciInvokeError> = if args.count == 0 {
            Some(PciInvokeError::InvalidParameter)
        } else if args.slots_len < args.count {
            Some(PciInvokeError::BufferTooSmall)
        } else if !runtime {
            Some(PciInvokeError::RuntimeUnavailable)
        } else {
            None
        };
        if let Some(error) = refusal {
            function.cancel_reconfigure();
            return PciExecuteOutcome {
                step: PciExecuteStep::Finished(Ok(PciReply::Failed(error))),
                retired: None,
            };
        }
        let bdf = function.info.bdf;
        let cpu_hint: Option<usize> = if args.cpu_hint != abi.no_cpu_hint {
            Some(args.cpu_hint)
        } else {
            None
        };
        let retired = function.take_active_allocation();
        if retired.is_some() {
            let _ = PciInterruptBinder::disable_interrupts(config, bdf);
        }
        let request = match kind {
            MessageIrqKind::Msi => match PciInterruptBinder::request_msi(
                &*config,
                bdf,
                args.count,
                cpu_hint,
            ) {
                Ok((msi, request)) => Ok((PciMessageCapability::Msi(msi), request)),
                Err(error) => Err(error),
            },
            MessageIrqKind::Msix => match PciInterruptBinder::request_msix(
                &*config,
                bdf,
                args.count,
                cpu_hint,
            ) {
                Ok((msix, request)) => Ok((PciMessageCapability::Msix(msix), request)),
                Err(error) => Err(error),
            },
        };
        match request {
            Ok((capability, request)) => PciExecuteOutcome {
                step: PciExecuteStep::Allocate(capability, request),
                retired,
            },
            Err(error) => {
                function.cancel_reconfigure();
                PciExecuteOutcome {
                    step: PciExecuteStep::Finished(
                        Ok(PciReply::Failed(PciInvokeError::from_irq(error))),
                    ),
                    retired,
                }
            },
        }
    }

    fn finish_disable<A: PciConfigAccess>(
        function: &mut PciFunction,
        config: &mut A,
        runtime: bool,
    ) -> (outcome: PciExecuteOutcome)
        requires
            old(config).wf(),
        ensures
            final(config).wf(),
            Self::disable_effect(
                runtime,
                (*old(function), old(config).spaces()),
                (*final(function), final(config).spaces()),
                outcome,
            ),
    {
        if let Err(error) = function.begin_reconfigure() {
            return PciExecuteOutcome {
                step: PciExecuteStep::Finished(Ok(PciReply::Failed(error))),
                retired: None,
            };
        }
        if !runtime {
            function.cancel_reconfigure();
            return PciExecuteOutcome {
                step: PciExecuteStep::Finished(
                    Ok(PciReply::Failed(PciInvokeError::RuntimeUnavailable)),
                ),
                retired: None,
            };
        }
        let previous = function.take_active_allocation();
        match PciInterruptBinder::disable_interrupts(config, function.info.bdf) {
            Err(error) => {
                function.finish_reconfigure(previous);
                PciExecuteOutcome {
                    step: PciExecuteStep::Finished(
                        Ok(PciReply::Failed(PciInvokeError::from_irq(error))),
                    ),
                    retired: None,
                }
            },
            Ok(()) => {
                function.finish_reconfigure(None);
                PciExecuteOutcome {
                    step: PciExecuteStep::Finished(Ok(PciSyscallCodec::disabled())),
                    retired: previous,
                }
            },
        }
    }

    /// Begins a change of interrupt delivery; `None` is a number that names no
    /// method, and `args` is `None` where the arguments cannot be read.
    pub fn dispatch<A: PciConfigAccess>(
        &self,
        function: &mut PciFunction,
        abi: &PciAbi,
        config: &mut A,
        method: Option<PciFunctionMethod>,
        args: Option<PciInterruptBindArgs>,
        runtime: bool,
    ) -> (outcome: PciExecuteOutcome)
        requires
            old(config).wf(),
        ensures
            final(config).wf(),
            ({
                let before = (*old(function), old(config).spaces());
                let after = (*final(function), final(config).spaces());
                match method {
                    None => after == before && outcome == (PciExecuteOutcome {
                        step: failed(PciInvokeError::InvalidParameter),
                        retired: None,
                    }),
                    Some(method) => if PciFunctionReadGuard::is_query(method) || !covers(
                        self.interface_caps,
                        abi.function_interrupt,
                    ) {
                        after == before && outcome == (PciExecuteOutcome {
                            step: PciExecuteStep::Finished(
                                Err(ObjectError::InsufficientCapabilities),
                            ),
                            retired: None,
                        })
                    } else if method == PciFunctionMethod::EnableMsi {
                        Self::enable_effect(
                            MessageIrqKind::Msi,
                            *abi,
                            args,
                            runtime,
                            before,
                            after,
                            outcome,
                        )
                    } else if method == PciFunctionMethod::EnableMsix {
                        Self::enable_effect(
                            MessageIrqKind::Msix,
                            *abi,
                            args,
                            runtime,
                            before,
                            after,
                            outcome,
                        )
                    } else {
                        Self::disable_effect(runtime, before, after, outcome)
                    },
                }
            }),
    {
        let method = match method {
            Some(method) => method,
            None => {
                return PciExecuteOutcome {
                    step: PciExecuteStep::Finished(
                        Ok(PciReply::Failed(PciInvokeError::InvalidParameter)),
                    ),
                    retired: None,
                };
            },
        };
        let refused = PciExecuteOutcome {
            step: PciExecuteStep::Finished(Err(ObjectError::InsufficientCapabilities)),
            retired: None,
        };
        match method {
            PciFunctionMethod::EnableMsi => {
                if !caps_cover(self.interface_caps, abi.function_interrupt) {
                    return refused;
                }
                Self::start_enable(function, abi, config, MessageIrqKind::Msi, args, runtime)
            },
            PciFunctionMethod::EnableMsix => {
                if !caps_cover(self.interface_caps, abi.function_interrupt) {
                    return refused;
                }
                Self::start_enable(function, abi, config, MessageIrqKind::Msix, args, runtime)
            },
            PciFunctionMethod::DisableInterrupts => {
                if !caps_cover(self.interface_caps, abi.function_interrupt) {
                    return refused;
                }
                Self::finish_disable(function, config, runtime)
            },
            _ => refused,
        }
    }

    /// Puts handles to new sessions, with the rights of a session, into the
    /// caller's table. `owners` are the owner handles of their objects. Where one
    /// could not be made, those made before it are dropped again.
    pub fn install_sessions(
        table: &mut HandleTable,
        irq_abi: &IrqAbi,
        owners: &Vec<Result<Handle, ObjectError>>,
    ) -> (result: Result<Vec<u32>, ObjectError>)
        requires
            old(table).wf(),
            old(table)@.dom().len() + owners@.len() <= 0x1_0000_0000,
        ensures
            final(table).wf(),
            match result {
                Ok(slots) => {
                    let sessions = sessions_made(*irq_abi, owners@);
                    let handles = sessions.map_values(|s: Result<Handle, ObjectError>| s->Ok_0);
                    &&& forall|i: int| 0 <= i < sessions.len() ==> #[trigger] sessions[i] is Ok
                    &&& slots@.len() == sessions.len()
                    &&& slots_in_turn(old(table)@, handles, slots@)
                    &&& final(table)@ == table_after(old(table)@, handles, slots@)
                },
                Err(error) => {
                    let sessions = sessions_made(*irq_abi, owners@);
                    &&& final(table)@ == old(table)@
                    &&& exists|i: int|
                        0 <= i < sessions.len() && #[trigger] sessions[i] == Err::<
                            Handle,
                            ObjectError,
                        >(error) && forall|j: int| 0 <= j < i ==> #[trigger] sessions[j] is Ok
                },
            },
    {
        let sessions = make_sessions(irq_abi, owners);
        let ghost handles = sessions@.map_values(|s: Result<Handle, ObjectError>| s->Ok_0);
        let mut slots: Vec<u32> = Vec::new();
        let mut i: usize = 0;
        while i < sessions.len()
            invariant
                i <= sessions@.len(),
                sessions@ == sessions_made(*irq_abi, owners@),
                handles == sessions@.map_values(|s: Result<Handle, ObjectError>| s->Ok_0),
                table.wf(),
                slots@.len() == i,
                old(table)@.dom().len() + sessions@.len() <= 0x1_0000_0000,
                table@.dom().len() == old(table)@.dom().len() + i,
                forall|j: int| 0 <= j < i ==> #[trigger] sessions@[j] is Ok,
                slots_in_turn(old(table)@, handles, slots@),
                table@ == table_after(old(table)@, handles, slots@),
            decreases sessions@.len() - i,
        {
            match sessions[i] {
                Ok(handle) => {
                    proof {
                        table.lemma_finite();
                        lemma_room(table@);
                    }
                    let ghost before = slots@;
                    let slot: u32 = table.install_handle_auto(handle);
                    slots.push(slot);
                    proof {
                        assert(slots@.drop_last() =~= before);
                        table.lemma_finite();
                    }
                },
                Err(error) => {
                    table.discard_handles(&slots);
                    proof {
                        law_install_then_discard(old(table)@, handles, slots@);
                    }
                    return Err(error);
                },
            }
            i = i + 1;
        }
        Ok(slots)
    }

    /// What the last step of a request for message interrupts does, once the
    /// function has been programmed with a block.
    pub open spec fn publish_effect(
        abi: PciAbi,
        irq_abi: IrqAbi,
        block: IrqMessageBlock,
        owners: Seq<Result<Handle, ObjectError>>,
        writable: bool,
        before: (PciFunction, Spaces, Map<u64, Handle>),
        after: (PciFunction, Spaces, Map<u64, Handle>),
        slots: Seq<u32>,
        reply: PciReply,
    ) -> bool {
        let (function, spaces, table) = before;
        let sessions = sessions_made(irq_abi, owners);
        let idle = PciFunction { configuring: false, active: None, ..function };
        let all_made = forall|i: int| 0 <= i < sessions.len() ==> #[trigger] sessions[i] is Ok;
        if !all_made {
            &&& after == (idle, disabled(spaces, function.info.bdf), table)
            &&& slots.len() == 0
            &&& reply matches PciReply::Object(error)
            &&& exists|i: int|
                0 <= i < sessions.len() && #[trigger] sessions[i] == Err::<Handle, ObjectError>(
                    error,
                ) && forall|j: int| 0 <= j < i ==> #[trigger] sessions[j] is Ok
        } else if !writable {
            &&& after == (idle, disabled(spaces, function.info.bdf), table)
            &&& slots.len() == 0
            &&& reply == PciReply::Failed(PciInvokeError::Fault)
        } else {
            let handles = sessions.map_values(|s: Result<Handle, ObjectError>| s->Ok_0);
            let bound = PciFunction { configuring: false, active: Some(block), ..function };
            &&& slots.len() == sessions.len()
            &&& slots_in_turn(table, handles, slots)
            &&& after == (bound, spaces, table_after(table, handles, slots))
            &&& reply == PciSyscallCodec::three(slots.len() as usize, bound.mode(abi), 0)
        }
    }

    /// Ends a request for message interrupts: hands the sessions to the caller
    /// and makes the block the active one, or undoes everything where a session
    /// could not be made or the slots cannot be written to the caller.
    pub fn publish<A: PciConfigAccess>(
        function: &mut PciFunction,
        abi: &PciAbi,
        irq_abi: &IrqAbi,
        config: &mut A,
        block: IrqMessageBlock,
        owners: &Vec<Result<Handle, ObjectError>>,
        table: &mut HandleTable,
        writable: bool,
    ) -> (result: (Vec<u32>, PciReply))
        requires
            old(config).wf(),
            old(table).wf(),
            old(table)@.dom().len() + owners@.len() <= 0x1_0000_0000,
        ensures
            final(config).wf(),
            final(table).wf(),
            Self::publish_effect(
                *abi,
                *irq_abi,
                block,
                owners@,
                writable,
                (*old(function), old(config).spaces(), old(table)@),
                (*final(function), final(config).spaces(), final(table)@),
                result.0@,
                result.1,
            ),
    {
        let slots = match Self::install_sessions(table, irq_abi, owners) {
            Ok(slots) => slots,
            Err(error) => {
                let _ = PciInterruptBinder::disable_interrupts(config, function.info.bdf);
                function.finish_reconfigure(None);
                return (Vec::new(), PciReply::Object(error));
            },
        };
        if !writable {
            table.discard_handles(&slots);
            proof {
                law_install_then_discard(
                    old(table)@,
                    sessions_made(*irq_abi, owners@).map_values(
                        |s: Result<Handle, ObjectError>| s->Ok_0,
                    ),
                    slots@,
                );
            }
            let _ = PciInterruptBinder::disable_interrupts(config, function.info.bdf);
            function.finish_reconfigure(None);
            return (Vec::new(), PciReply::Failed(PciInvokeError::Fault));
        }
        function.finish_reconfigure(Some(block));
        let mode: usize = function.current_interrupt_mode(abi);
        let count: usize = slots.len();
        (slots, PciSyscallCodec::enabled(count, mode))
    }

    /// Ends a request for message interrupts that the controller refused, or
    /// whose messages the function could not take.
    pub fn refuse(function: &mut PciFunction, error: IrqError) -> (reply: PciReply)
        ensures
            *final(function) == (PciFunction { configuring: false, ..*old(function) }),
            reply == PciReply::Failed(PciInvokeError::of_irq(error)),
    {
        function.cancel_reconfigure();
        PciReply::Failed(PciInvokeError::from_irq(error))
    }
}

/// A function that is being changed refuses every other change, and nothing of
/// it moves.
pub proof fn law_change_excludes_change(
    kind: MessageIrqKind,
    abi: PciAbi,
    args: Option<PciInterruptBindArgs>,
    runtime: bool,
    before: (PciFunction, Spaces),
    after: (PciFunction, Spaces),
    outcome: PciExecuteOutcome,
)
    requires
        before.0.configuring,
        PciFunctionExecuteGuard::enable_effect(kind, abi, args, runtime, before, after, outcome)
            || PciFunctionExecuteGuard::disable_effect(runtime, before, after, outcome),
    ensures
        after == before,
        outcome.step == failed(PciInvokeError::Busy),
{
}

/// A request that has been answered leaves no change under way that was not
/// there before.
pub proof fn law_answered_request_is_over(
    kind: MessageIrqKind,
    abi: PciAbi,
    args: Option<PciInterruptBindArgs>,
    runtime: bool,
    before: (PciFunction, Spaces),
    after: (PciFunction, Spaces),
    outcome: PciExecuteOutcome,
)
    requires
        PciFunctionExecuteGuard::enable_effect(kind, abi, args, runtime, before, after, outcome)
            || PciFunctionExecuteGuard::disable_effect(runtime, before, after, outcome),
        outcome.step is Finished,
    ensures
        after.0.configuring == before.0.configuring,
{
}

/// A request for interrupts that fails once the function is programmed leaves
/// the caller's table as it was and the function without interrupts.
pub proof fn law_failed_publish_is_undone(
    abi: PciAbi,
    irq_abi: IrqAbi,
    block: IrqMessageBlock,
    owners: Seq<Result<Handle, ObjectError>>,
    writable: bool,
    before: (PciFunction, Spaces, Map<u64, Handle>),
    after: (PciFunction, Spaces, Map<u64, Handle>),
    slots: Seq<u32>,
    reply: PciReply,
)
    requires
        PciFunctionExecuteGuard::publish_effect(
            abi,
            irq_abi,
            block,
            owners,
            writable,
            before,
            after,
            slots,
            reply,
        ),
        !(reply is Done),
    ensures
        after.2 == before.2,
        after.0.active is None,
        !after.0.configuring,
        after.1 == disabled(before.1, before.0.info.bdf),
{
}

} // verus!

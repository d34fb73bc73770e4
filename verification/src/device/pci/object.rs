//! PCI host and function objects.

use super::bars::PciBarSummary;
use super::cap::{PciCapabilityBits, PciCapabilitySummary, PciInterruptCapabilities, PciInterruptMode, mode_of};
use super::config::{PciBdf, PciConfigAccess, Spaces, space_of};
use super::ecam::PciEcamConfig;
use super::scan::{answers, functions_of_regions, law_scanned_functions_answer};
use crate::device::mmio::{MmioAccess, half_at};
use crate::interrupt::IrqError;
use crate::ipc::cap::{caps_cover, covers};
use crate::ipc::frame::ReplyValues;
use crate::object::{Capability, Handle, ObjectError};
use vstd::prelude::*;

verus! {

/// Errors of PCI invocations.
#[derive(Debug, Clone, Copy, PartialEq, Eq, Structural)]
pub enum PciInvokeError {
    InvalidParameter,
    NotSupported,
    OutOfResources,
    Fault,
    BufferTooSmall,
    RuntimeUnavailable,
    Busy,
    ControllerFailure,
}

impl PciInvokeError {
    pub open spec fn of_irq(value: IrqError) -> PciInvokeError {
        match value {
            IrqError::InvalidParameter => PciInvokeError::InvalidParameter,
            IrqError::NotSupported => PciInvokeError::NotSupported,
            IrqError::OutOfResources => PciInvokeError::OutOfResources,
            _ => PciInvokeError::ControllerFailure,
        }
    }

    /// The error that stands for a failure of the interrupt controller.
    pub fn from_irq(value: IrqError) -> (error: Self)
        ensures
            error == Self::of_irq(value),
    {
        match value {
            IrqError::InvalidParameter => PciInvokeError::InvalidParameter,
            IrqError::NotSupported => PciInvokeError::NotSupported,
            IrqError::OutOfResources => PciInvokeError::OutOfResources,
            IrqError::InvalidIrq(_) => PciInvokeError::ControllerFailure,
            IrqError::WouldBlock => PciInvokeError::ControllerFailure,
            IrqError::Closed => PciInvokeError::ControllerFailure,
            IrqError::DeadlineUnsupported => PciInvokeError::ControllerFailure,
        }
    }
}

/// Reply frame of a PCI invocation.
#[derive(Debug, Clone, Copy, PartialEq, Eq, Structural)]
pub enum PciReply {
    Done(ReplyValues),
    Failed(PciInvokeError),
    Object(ObjectError),
}

/// Numbers of the system-call interface that PCI invocations use.
#[derive(Debug, Clone, Copy, PartialEq, Eq, Structural)]
pub struct PciAbi {
    /// Interface capability to query the host.
    pub host_query: u32,
    /// Interface capability to query a function.
    pub function_query: u32,
    /// Interface capability to change the interrupts of a function.
    pub function_interrupt: u32,
    /// Numbers of the modes.
    pub mode_intx: usize,
    pub mode_msi: usize,
    pub mode_msix: usize,
    /// Bits of the modes in a set of modes.
    pub bit_intx: usize,
    pub bit_msi: usize,
    pub bit_msix: usize,
    pub capability_bits: PciCapabilityBits,
    /// The processor hint that stands for none.
    pub no_cpu_hint: usize,
}

/// Methods of PCI host objects.
#[derive(Debug, Clone, Copy, PartialEq, Eq, Structural)]
pub enum PciHostMethod {
    QuerySummary,
}

/// Methods of PCI function objects.
#[derive(Debug, Clone, Copy, PartialEq, Eq, Structural)]
pub enum PciFunctionMethod {
    QueryInfo,
    QueryInterruptModes,
    QueryBars,
    QueryCapabilities,
    EnableMsi,
    EnableMsix,
    DisableInterrupts,
}

/// Arguments of a request for interrupts.
#[derive(Debug, Clone, Copy, PartialEq, Eq, Structural)]
pub struct PciInterruptBindArgs {
    pub count: usize,
    pub cpu_hint: usize,
    pub slots_len: usize,
    pub slots_ptr: usize,
}

/// Stable summary for one discovered PCI function.
#[derive(Debug, Clone, Copy, PartialEq, Eq, Structural)]
pub struct PciFunctionInfo {
    pub bdf: PciBdf,
    pub vendor_id: u16,
    pub device_id: u16,
    pub revision_id: u8,
    pub prog_if: u8,
    pub subclass: u8,
    pub class_code: u8,
    pub header_type: u8,
    pub interrupt_mode: PciInterruptMode,
}

impl PciFunctionInfo {
    /// What the configuration space of a function says of it.
    pub open spec fn of(spaces: Spaces, bdf: PciBdf) -> PciFunctionInfo {
        let space = space_of(spaces, bdf);
        PciFunctionInfo {
            bdf,
            vendor_id: half_at(space, 0x00),
            device_id: half_at(space, 0x02),
            revision_id: space[0x08],
            prog_if: space[0x09],
            subclass: space[0x0a],
            class_code: space[0x0b],
            header_type: space[0x0e],
            interrupt_mode: mode_of(space),
        }
    }

    /// Reads the summary of a function that is there.
    pub fn from_config<A: PciConfigAccess>(config: &A, bdf: PciBdf) -> (info: Option<Self>)
        requires
            config.wf(),
        ensures
            info == (if answers(config.spaces(), bdf) {
                Some(Self::of(config.spaces(), bdf))
            } else {
                None
            }),
    {
        let vendor_id: u16 = config.read_u16(bdf, 0x00);
        if vendor_id == u16::MAX {
            return None;
        }
        let device_id: u16 = config.read_u16(bdf, 0x02);
        let revision_id: u8 = config.read_u8(bdf, 0x08);
        let prog_if: u8 = config.read_u8(bdf, 0x09);
        let subclass: u8 = config.read_u8(bdf, 0x0a);
        let class_code: u8 = config.read_u8(bdf, 0x0b);
        let header_type: u8 = config.read_u8(bdf, 0x0e);
        let interrupt_mode = PciInterruptCapabilities::new(config, bdf).interrupt_mode();
        Some(
            PciFunctionInfo {
                bdf,
                vendor_id,
                device_id,
                revision_id,
                prog_if,
                subclass,
                class_code,
                header_type,
                interrupt_mode,
            },
        )
    }

    /// Return one stable namespace key for this function.
    pub fn object_name(&self) -> (name: String)
        ensures
            name@ == self.bdf.name(),
    {
        self.bdf.object_name()
    }
}

/// Packs replies of PCI invocations.
pub struct PciSyscallCodec;

impl PciSyscallCodec {
    pub open spec fn info_words(info: PciFunctionInfo) -> ReplyValues {
        ReplyValues {
            v0: info.bdf.segment as usize,
            v1: (info.bdf.bus * 0x1_0000 + info.bdf.device * 0x100 + info.bdf.function) as usize,
            v2: (info.vendor_id + info.device_id * 0x1_0000) as usize,
            v3: (info.revision_id + info.prog_if * 0x100 + info.subclass * 0x1_0000
                + info.class_code * 0x100_0000) as usize,
            v4: info.header_type as usize,
        }
    }

    /// Words that describe a function.
    pub fn function_info(info: PciFunctionInfo) -> (reply: PciReply)
        ensures
            reply == PciReply::Done(Self::info_words(info)),
    {
        PciReply::Done(
            ReplyValues {
                v0: info.bdf.segment as usize,
                v1: info.bdf.bus as usize * 0x1_0000 + info.bdf.device as usize * 0x100
                    + info.bdf.function as usize,
                v2: info.vendor_id as usize + info.device_id as usize * 0x1_0000,
                v3: info.revision_id as usize + info.prog_if as usize * 0x100
                    + info.subclass as usize * 0x1_0000 + info.class_code as usize * 0x100_0000,
                v4: info.header_type as usize,
            },
        )
    }

    /// Words that describe the BARs of a function.
    pub fn bar_summary(summary: PciBarSummary) -> (reply: PciReply)
        ensures
            reply == PciReply::Done(
                ReplyValues {
                    v0: summary.bar_count,
                    v1: summary.present_mask,
                    v2: summary.io_mask,
                    v3: summary.mmio64_mask,
                    v4: summary.prefetchable_mask,
                },
            ),
    {
        PciReply::Done(
            ReplyValues {
                v0: summary.bar_count,
                v1: summary.present_mask,
                v2: summary.io_mask,
                v3: summary.mmio64_mask,
                v4: summary.prefetchable_mask,
            },
        )
    }

    pub open spec fn three(v0: usize, v1: usize, v2: usize) -> PciReply {
        PciReply::Done(ReplyValues { v0, v1, v2, v3: 0, v4: 0 })
    }

    /// Words that describe the capabilities of a function.
    pub fn capability_summary(summary: PciCapabilitySummary) -> (reply: PciReply)
        ensures
            reply == Self::three(
                summary.capability_bits,
                summary.max_msi_vectors,
                summary.max_msix_vectors,
            ),
    {
        PciReply::Done(
            ReplyValues {
                v0: summary.capability_bits,
                v1: summary.max_msi_vectors,
                v2: summary.max_msix_vectors,
                v3: 0,
                v4: 0,
            },
        )
    }

    /// Words that describe the host.
    pub fn host_summary(function_count: usize, runtime_available: bool) -> (reply: PciReply)
        ensures
            reply == Self::three(
                function_count,
                if runtime_available {
                    1
                } else {
                    0
                },
                0,
            ),
    {
        PciReply::Done(
            ReplyValues {
                v0: function_count,
                v1: if runtime_available {
                    1
                } else {
                    0
                },
                v2: 0,
                v3: 0,
                v4: 0,
            },
        )
    }

    /// Words that report how many interrupts are bound, and in which mode.
    pub fn enabled(count: usize, mode: usize) -> (reply: PciReply)
        ensures
            reply == Self::three(count, mode, 0),
    {
        PciReply::Done(ReplyValues { v0: count, v1: mode, v2: 0, v3: 0, v4: 0 })
    }

    /// Words that report that no interrupt is bound.
    pub fn disabled() -> (reply: PciReply)
        ensures
            reply == Self::three(0, 0, 0),
    {
        PciReply::Done(ReplyValues { v0: 0, v1: 0, v2: 0, v3: 0, v4: 0 })
    }
}

proof fn lemma_four_bytes(a: (u8, u8, u8, u8), b: (u8, u8, u8, u8))
    requires
        a.0 + a.1 * 0x100 + a.2 * 0x1_0000 + a.3 * 0x100_0000 == b.0 + b.1 * 0x100 + b.2 * 0x1_0000
            + b.3 * 0x100_0000,
    ensures
        a == b,
{
}

/// Two functions with the same words are the same function with the same
/// identification.
#[verifier::spinoff_prover]
pub proof fn law_info_words_tell_functions_apart(a: PciFunctionInfo, b: PciFunctionInfo)
    requires
        PciSyscallCodec::info_words(a) == PciSyscallCodec::info_words(b),
        a.interrupt_mode == b.interrupt_mode,
    ensures
        a == b,
{
    let x = PciSyscallCodec::info_words(a);
    let y = PciSyscallCodec::info_words(b);
    assert(x.v1 == a.bdf.bus * 0x1_0000 + a.bdf.device * 0x100 + a.bdf.function);
    assert(y.v1 == b.bdf.bus * 0x1_0000 + b.bdf.device * 0x100 + b.bdf.function);
    assert(x.v2 == a.vendor_id + a.device_id * 0x1_0000);
    assert(y.v2 == b.vendor_id + b.device_id * 0x1_0000);
    assert(x.v3 == a.revision_id + a.prog_if * 0x100 + a.subclass * 0x1_0000 + a.class_code
        * 0x100_0000);
    assert(y.v3 == b.revision_id + b.prog_if * 0x100 + b.subclass * 0x1_0000 + b.class_code
        * 0x100_0000);
    lemma_four_bytes(
        (a.bdf.function, a.bdf.device, a.bdf.bus, 0),
        (b.bdf.function, b.bdf.device, b.bdf.bus, 0),
    );
    lemma_four_bytes(
        (a.revision_id, a.prog_if, a.subclass, a.class_code),
        (b.revision_id, b.prog_if, b.subclass, b.class_code),
    );
}

/// `/Kernel/Device/PCI` host object.
pub struct PciHostBridge {
    functions: Vec<PciFunctionInfo>,
}

impl View for PciHostBridge {
    type V = Seq<PciFunctionInfo>;

    closed spec fn view(&self) -> Seq<PciFunctionInfo> {
        self.functions@
    }
}

impl PciHostBridge {
    pub fn new(functions: Vec<PciFunctionInfo>) -> (host: Self)
        ensures
            host@ == functions@,
    {
        PciHostBridge { functions }
    }

    /// Every function that the configuration access finds, in order.
    pub fn enumerate_functions<M: MmioAccess>(config: &PciEcamConfig<M>) -> (functions: Vec<
        PciFunctionInfo,
    >)
        requires
            config.wf(),
        ensures
            functions@ == functions_of_regions(
                config.spaces(),
                config.regions(),
                config.regions().len() as int,
            ).map_values(|bdf: PciBdf| PciFunctionInfo::of(config.spaces(), bdf)),
    {
        let found = config.present_functions();
        let mut functions: Vec<PciFunctionInfo> = Vec::new();
        let mut i: usize = 0;
        while i < found.len()
            invariant
                config.wf(),
                i <= found@.len(),
                functions@.len() == i,
                found@ == functions_of_regions(
                    config.spaces(),
                    config.regions(),
                    config.regions().len() as int,
                ),
                forall|j: int|
                    0 <= j < i ==> #[trigger] functions@[j] == PciFunctionInfo::of(
                        config.spaces(),
                        found@[j],
                    ),
            decreases found@.len() - i,
        {
            proof {
                assert(found@.contains(found@[i as int]));
                law_scanned_functions_answer(
                    config.spaces(),
                    config.regions(),
                    config.regions().len() as int,
                    found@[i as int],
                );
            }
            if let Some(info) = PciFunctionInfo::from_config(config, found[i]) {
                functions.push(info);
            }
            i = i + 1;
        }
        assert(functions@ =~= found@.map_values(
            |bdf: PciBdf| PciFunctionInfo::of(config.spaces(), bdf),
        ));
        functions
    }

    /// Return the discovered PCI function count.
    pub fn function_count(&self) -> (count: usize)
        ensures
            count == self@.len(),
    {
        self.functions.len()
    }

    /// Return one immutable snapshot over the discovered PCI functions.
    pub fn functions(&self) -> (functions: &Vec<PciFunctionInfo>)
        ensures
            functions@ == self@,
    {
        &self.functions
    }
}

/// Guard used for access modes that one PCI object does not expose.
pub struct PciUnsupportedGuard;

impl PciUnsupportedGuard {
    /// Refuses every method.
    pub fn dispatch(&self) -> (result: Result<PciReply, ObjectError>)
        ensures
            result == Err::<PciReply, ObjectError>(ObjectError::InsufficientCapabilities),
    {
        Err(ObjectError::InsufficientCapabilities)
    }
}

/// Read-side guard for the published PCI host object.
pub struct PciHostReadGuard {
    pub interface_caps: u32,
}

impl PciHostReadGuard {
    /// Answers a method of the host; `None` is a number that names no method.
    pub fn dispatch(
        &self,
        host: &PciHostBridge,
        abi: &PciAbi,
        method: Option<PciHostMethod>,
        runtime_available: bool,
    ) -> (result: Result<PciReply, ObjectError>)
        ensures
            result == (match method {
                None => Ok::<PciReply, ObjectError>(
                    PciReply::Failed(PciInvokeError::InvalidParameter),
                ),
                Some(PciHostMethod::QuerySummary) => if covers(
                    self.interface_caps,
                    abi.host_query,
                ) {
                    Ok::<PciReply, ObjectError>(
                        PciSyscallCodec::three(
                            host@.len() as usize,
                            if runtime_available {
                                1
                            } else {
                                0
                            },
                            0,
                        ),
                    )
                } else {
                    Err::<PciReply, ObjectError>(ObjectError::InsufficientCapabilities)
                },
            }),
    {
        match method {
            None => Ok(PciReply::Failed(PciInvokeError::InvalidParameter)),
            Some(PciHostMethod::QuerySummary) => {
                if !caps_cover(self.interface_caps, abi.host_query) {
                    return Err(ObjectError::InsufficientCapabilities);
                }
                Ok(PciSyscallCodec::host_summary(host.function_count(), runtime_available))
            },
        }
    }
}

/// One function as it is published under `/Resource/PCI`.
pub struct PciResource {
    pub name: String,
    pub info: PciFunctionInfo,
    /// Rights that public lookups do not get.
    pub withheld: Capability,
    /// Whether the object outlives its handles.
    pub sticky: bool,
    pub interface_caps: u32,
}

/// Published PCI host object and its discovered function resources.
pub struct PublishedPciHostBridge<'a, M> {
    config: &'a PciEcamConfig<M>,
}

impl<'a, M: MmioAccess> PublishedPciHostBridge<'a, M> {
    pub closed spec fn config(&self) -> &PciEcamConfig<M> {
        self.config
    }

    /// Create one publisher over the installed ECAM configuration access.
    pub fn new(config: &'a PciEcamConfig<M>) -> (publisher: Self)
        ensures
            publisher.config() == config,
    {
        PublishedPciHostBridge { config }
    }

    /// What to publish under `/Resource/PCI`: every discovered function by its
    /// name, with ownership and agent authority kept back.
    pub fn publish(&self, abi: &PciAbi) -> (resources: Vec<PciResource>)
        requires
            self.config().wf(),
        ensures
            ({
                let spaces = self.config().spaces();
                let found = functions_of_regions(
                    spaces,
                    self.config().regions(),
                    self.config().regions().len() as int,
                );
                &&& resources@.len() == found.len()
                &&& forall|i: int|
                    0 <= i < found.len() ==> {
                        let resource = #[trigger] resources@[i];
                        &&& resource.name@ == found[i].name()
                        &&& resource.info == PciFunctionInfo::of(spaces, found[i])
                        &&& resource.withheld == Capability {
                            read: false,
                            write: false,
                            execute: false,
                            agent: true,
                            admin: true,
                            send: false,
                        }
                        &&& resource.sticky
                        &&& resource.interface_caps == abi.function_query | abi.function_interrupt
                    }
            }),
    {
        let functions = PciHostBridge::enumerate_functions(self.config);
        let ghost found = functions_of_regions(
            self.config.spaces(),
            self.config.regions(),
            self.config.regions().len() as int,
        );
        let mut resources: Vec<PciResource> = Vec::new();
        let mut i: usize = 0;
        while i < functions.len()
            invariant
                i <= functions@.len(),
                resources@.len() == i,
                functions@ == found.map_values(
                    |bdf: PciBdf| PciFunctionInfo::of(self.config.spaces(), bdf),
                ),
                forall|j: int|
                    0 <= j < i ==> {
                        let resource = #[trigger] resources@[j];
                        &&& resource.name@ == found[j].name()
                        &&& resource.info == PciFunctionInfo::of(self.config.spaces(), found[j])
                        &&& resource.withheld == Capability {
                            read: false,
                            write: false,
                            execute: false,
                            agent: true,
                            admin: true,
                            send: false,
                        }
                        &&& resource.sticky
                        &&& resource.interface_caps == abi.function_query | abi.function_interrupt
                    },
            decreases functions@.len() - i,
        {
            let info = functions[i];
            let withheld = Capability { agent: true, admin: true, ..Capability::none() };
            resources.push(
                PciResource {
                    name: info.object_name(),
                    info,
                    withheld,
                    sticky: true,
                    interface_caps: abi.function_query | abi.function_interrupt,
                },
            );
            i = i + 1;
        }
        resources
    }
}

/// Step of publishing the functions and the host.
#[derive(Debug, Clone, Copy, PartialEq)]
pub enum PciPublishStep {
    /// Make the namespace of the functions.
    CreateNamespace,
    /// Add the function of this index.
    AddFunction(usize),
    RegisterHost,
    /// Let everybody query the host.
    SetHostCaps(Handle, u32),
    Done(Result<Handle, ObjectError>),
}

/// How a step of publishing ended.
#[derive(Debug, Clone, Copy, PartialEq)]
pub enum PciPublishEvent {
    Namespace(Result<(), ObjectError>),
    Added(Result<(), ObjectError>),
    Registered(Result<Handle, ObjectError>),
    HostCaps(Result<(), ObjectError>),
}

impl PciPublishStep {
    /// The step for a function; after the last one comes the host.
    pub open spec fn turn(at: int, functions: usize) -> PciPublishStep {
        if at < functions {
            PciPublishStep::AddFunction(at as usize)
        } else {
            PciPublishStep::RegisterHost
        }
    }

    /// What a step leads to: the first failure ends the publication.
    pub open spec fn after(self, abi: PciAbi, functions: usize, event: PciPublishEvent) -> Self {
        match (self, event) {
            (PciPublishStep::CreateNamespace, PciPublishEvent::Namespace(made)) => match made {
                Ok(_) => Self::turn(0, functions),
                Err(error) => PciPublishStep::Done(Err(error)),
            },
            (PciPublishStep::AddFunction(at), PciPublishEvent::Added(made)) => match made {
                Ok(_) => Self::turn(at + 1, functions),
                Err(error) => PciPublishStep::Done(Err(error)),
            },
            (PciPublishStep::RegisterHost, PciPublishEvent::Registered(made)) => match made {
                Ok(host) => PciPublishStep::SetHostCaps(host, abi.host_query),
                Err(error) => PciPublishStep::Done(Err(error)),
            },
            (PciPublishStep::SetHostCaps(host, _), PciPublishEvent::HostCaps(set)) => match set {
                Ok(_) => PciPublishStep::Done(Ok(host)),
                Err(error) => PciPublishStep::Done(Err(error)),
            },
            _ => self,
        }
    }

    /// Goes on after a step was taken; `functions` is how many there are.
    pub fn advance(self, abi: &PciAbi, functions: usize, event: PciPublishEvent) -> (step: Self)
        ensures
            step == self.after(*abi, functions, event),
    {
        match (self, event) {
            (PciPublishStep::CreateNamespace, PciPublishEvent::Namespace(made)) => match made {
                Ok(()) => if functions > 0 {
                    PciPublishStep::AddFunction(0)
                } else {
                    PciPublishStep::RegisterHost
                },
                Err(error) => PciPublishStep::Done(Err(error)),
            },
            (PciPublishStep::AddFunction(at), PciPublishEvent::Added(made)) => match made {
                Ok(()) => if at < functions && at + 1 < functions {
                    PciPublishStep::AddFunction(at + 1)
                } else {
                    PciPublishStep::RegisterHost
                },
                Err(error) => PciPublishStep::Done(Err(error)),
            },
            (PciPublishStep::RegisterHost, PciPublishEvent::Registered(made)) => match made {
                Ok(host) => PciPublishStep::SetHostCaps(host, abi.host_query),
                Err(error) => PciPublishStep::Done(Err(error)),
            },
            (PciPublishStep::SetHostCaps(host, _), PciPublishEvent::HostCaps(set)) => match set {
                Ok(()) => PciPublishStep::Done(Ok(host)),
                Err(error) => PciPublishStep::Done(Err(error)),
            },
            _ => self,
        }
    }
}

} // verus!

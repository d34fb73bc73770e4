//! The order in which the kernel comes up.

use crate::device::DeviceProbeError;
use crate::memory::heap::{AllocPhase, MemoryView};
use crate::object::{Handle, ObjectError};
use vstd::prelude::*;

verus! {

/// Steps of kernel initialization.
#[derive(Debug, Clone, Copy, PartialEq, Eq, Structural)]
pub enum InitStep {
    MachineEarlyInit,
    InstallLogger,
    RegisterEarlyWriter,
    InstallBootInfo,
    LoadSymbols,
    InitBootHeap,
    BootstrapRuntime,
    InitSyscalls,
    InitFrameAllocator,
    LeaveBootHeap,
    MachineBspInit,
    EnterPerCpuHeap,
    MachineDeviceInit,
    InitInterCpu,
    MachineSmpInit,
    InstallScheduler,
    MachineFinalizeInit,
    SpawnBootstrapTask,
    Running,
    /// The kernel cannot go on.
    Halted,
}

impl InitStep {
    /// Place in the order.
    pub open spec fn rank(self) -> int {
        match self {
            InitStep::MachineEarlyInit => 0,
            InitStep::InstallLogger => 1,
            InitStep::RegisterEarlyWriter => 2,
            InitStep::InstallBootInfo => 3,
            InitStep::LoadSymbols => 4,
            InitStep::InitBootHeap => 5,
            InitStep::BootstrapRuntime => 6,
            InitStep::InitSyscalls => 7,
            InitStep::InitFrameAllocator => 8,
            InitStep::LeaveBootHeap => 9,
            InitStep::MachineBspInit => 10,
            InitStep::EnterPerCpuHeap => 11,
            InitStep::MachineDeviceInit => 12,
            InitStep::InitInterCpu => 13,
            InitStep::MachineSmpInit => 14,
            InitStep::InstallScheduler => 15,
            InitStep::MachineFinalizeInit => 16,
            InitStep::SpawnBootstrapTask => 17,
            InitStep::Running => 18,
            InitStep::Halted => 19,
        }
    }

    /// Whether the kernel cannot do without the step.
    pub open spec fn is_vital(self) -> bool {
        self == InitStep::InstallLogger || self == InitStep::InitBootHeap || self
            == InitStep::BootstrapRuntime || self == InitStep::InitSyscalls || self
            == InitStep::InitFrameAllocator || self == InitStep::InitInterCpu
    }

    pub open spec fn after(self, done: bool) -> InitStep {
        if !done && self.is_vital() {
            InitStep::Halted
        } else {
            match self {
                InitStep::MachineEarlyInit => InitStep::InstallLogger,
                InitStep::InstallLogger => InitStep::RegisterEarlyWriter,
                InitStep::RegisterEarlyWriter => InitStep::InstallBootInfo,
                InitStep::InstallBootInfo => InitStep::LoadSymbols,
                InitStep::LoadSymbols => InitStep::InitBootHeap,
                InitStep::InitBootHeap => InitStep::BootstrapRuntime,
                InitStep::BootstrapRuntime => InitStep::InitSyscalls,
                InitStep::InitSyscalls => InitStep::InitFrameAllocator,
                InitStep::InitFrameAllocator => InitStep::LeaveBootHeap,
                InitStep::LeaveBootHeap => InitStep::MachineBspInit,
                InitStep::MachineBspInit => InitStep::EnterPerCpuHeap,
                InitStep::EnterPerCpuHeap => InitStep::MachineDeviceInit,
                InitStep::MachineDeviceInit => InitStep::InitInterCpu,
                InitStep::InitInterCpu => InitStep::MachineSmpInit,
                InitStep::MachineSmpInit => InitStep::InstallScheduler,
                InitStep::InstallScheduler => InitStep::MachineFinalizeInit,
                InitStep::MachineFinalizeInit => InitStep::SpawnBootstrapTask,
                InitStep::SpawnBootstrapTask => InitStep::Running,
                InitStep::Running => InitStep::Running,
                InitStep::Halted => InitStep::Halted,
            }
        }
    }

    /// The step that follows. A vital step that was not done halts the kernel.
    pub fn next(self, done: bool) -> (next: InitStep)
        ensures
            next == self.after(done),
    {
        match self {
            InitStep::MachineEarlyInit => InitStep::InstallLogger,
            InitStep::InstallLogger => if done {
                InitStep::RegisterEarlyWriter
            } else {
                InitStep::Halted
            },
            InitStep::RegisterEarlyWriter => InitStep::InstallBootInfo,
            InitStep::InstallBootInfo => InitStep::LoadSymbols,
            InitStep::LoadSymbols => InitStep::InitBootHeap,
            InitStep::InitBootHeap => if done {
                InitStep::BootstrapRuntime
            } else {
                InitStep::Halted
            },
            InitStep::BootstrapRuntime => if done {
                InitStep::InitSyscalls
            } else {
                InitStep::Halted
            },
            InitStep::InitSyscalls => if done {
                InitStep::InitFrameAllocator
            } else {
                InitStep::Halted
            },
            InitStep::InitFrameAllocator => if done {
                InitStep::LeaveBootHeap
            } else {
                InitStep::Halted
            },
            InitStep::LeaveBootHeap => InitStep::MachineBspInit,
            InitStep::MachineBspInit => InitStep::EnterPerCpuHeap,
            InitStep::EnterPerCpuHeap => InitStep::MachineDeviceInit,
            InitStep::MachineDeviceInit => InitStep::InitInterCpu,
            InitStep::InitInterCpu => if done {
                InitStep::MachineSmpInit
            } else {
                InitStep::Halted
            },
            InitStep::MachineSmpInit => InitStep::InstallScheduler,
            InitStep::InstallScheduler => InitStep::MachineFinalizeInit,
            InitStep::MachineFinalizeInit => InitStep::SpawnBootstrapTask,
            InitStep::SpawnBootstrapTask => InitStep::Running,
            InitStep::Running => InitStep::Running,
            InitStep::Halted => InitStep::Halted,
        }
    }
}

/// Initialization goes forward one step at a time until the kernel runs.
pub proof fn law_initialization_goes_forward(step: InitStep)
    requires
        step != InitStep::Running,
        step != InitStep::Halted,
    ensures
        step.after(true).rank() == step.rank() + 1,
{
}

/// What memory management looks like before a step.
pub open spec fn memory_before(step: InitStep, memory: MemoryView) -> bool {
    &&& memory.phase == if step.rank() <= InitStep::InitBootHeap.rank() {
        AllocPhase::Uninit
    } else if step.rank() <= InitStep::LeaveBootHeap.rank() {
        AllocPhase::BootHeap
    } else if step.rank() <= InitStep::EnterPerCpuHeap.rank() {
        AllocPhase::BootstrapSlub
    } else {
        AllocPhase::PerCpuSlub
    }
    &&& memory.frames_ready == (step.rank() > InitStep::InitFrameAllocator.rank())
}

/// What a step does to memory management.
pub open spec fn memory_after(step: InitStep, before: MemoryView, after: MemoryView) -> bool {
    match step {
        InitStep::InitBootHeap => after.phase == AllocPhase::BootHeap && after.frames_ready
            == before.frames_ready,
        InitStep::InitFrameAllocator => after.phase == before.phase && after.frames_ready,
        InitStep::LeaveBootHeap => after.frames_ready == before.frames_ready && after.phase == (
        if before.phase == AllocPhase::BootHeap {
            AllocPhase::BootstrapSlub
        } else {
            AllocPhase::PerCpuSlub
        }),
        InitStep::EnterPerCpuHeap => after.frames_ready == before.frames_ready && after.phase == (
        if before.phase == AllocPhase::BootHeap {
            AllocPhase::BootstrapSlub
        } else {
            AllocPhase::PerCpuSlub
        }),
        _ => after.phase == before.phase && after.frames_ready == before.frames_ready,
    }
}

/// In the order of initialization memory management is always ready for the next
/// step: the boot heap is left only once there is a frame allocator.
pub proof fn law_memory_is_ready_for_each_step(
    step: InitStep,
    before: MemoryView,
    after: MemoryView,
)
    requires
        step != InitStep::Running,
        step != InitStep::Halted,
        memory_before(step, before),
        memory_after(step, before, after),
    ensures
        memory_before(step.after(true), after),
        step == InitStep::LeaveBootHeap || step == InitStep::EnterPerCpuHeap ==> before.phase
            != AllocPhase::Uninit && (before.phase == AllocPhase::BootHeap ==> before.frames_ready),
{
}

/// Step of what follows the probing of the devices.
#[derive(Debug, Clone, Copy, PartialEq, Eq, Structural)]
pub enum AfterProbe {
    /// Look the framebuffer up.
    LookUpFramebuffer,
    /// The framebuffer becomes an output of the logger.
    AttachFramebuffer(Handle),
    NoFramebuffer(ObjectError),
    ProbeFailed(DeviceProbeError),
}

/// Decides what follows the probing of the devices. The framebuffer is looked up
/// only after all the probes have ended well.
pub fn after_device_probe(probed: Result<(), DeviceProbeError>) -> (action: AfterProbe)
    ensures
        action == (match probed {
            Err(error) => AfterProbe::ProbeFailed(error),
            Ok(_) => AfterProbe::LookUpFramebuffer,
        }),
{
    match probed {
        Err(error) => AfterProbe::ProbeFailed(error),
        Ok(()) => AfterProbe::LookUpFramebuffer,
    }
}

/// Decides what follows looking the framebuffer up.
pub fn after_framebuffer_lookup(found: Result<Handle, ObjectError>) -> (action: AfterProbe)
    ensures
        action == (match found {
            Ok(handle) => AfterProbe::AttachFramebuffer(handle),
            Err(error) => AfterProbe::NoFramebuffer(error),
        }),
{
    match found {
        Ok(handle) => AfterProbe::AttachFramebuffer(handle),
        Err(error) => AfterProbe::NoFramebuffer(error),
    }
}

/// The kernel comes up in one order, from the machine to the first task.
pub proof fn law_kernel_comes_up_in_order()
    ensures
        (InitStep::MachineEarlyInit).after(true) is InstallLogger,
        (InitStep::InstallLogger).after(true) is RegisterEarlyWriter,
        (InitStep::RegisterEarlyWriter).after(true) is InstallBootInfo,
        (InitStep::InstallBootInfo).after(true) is LoadSymbols,
        (InitStep::LoadSymbols).after(true) is InitBootHeap,
        (InitStep::InitBootHeap).after(true) is BootstrapRuntime,
        (InitStep::BootstrapRuntime).after(true) is InitSyscalls,
        (InitStep::InitSyscalls).after(true) is InitFrameAllocator,
        (InitStep::InitFrameAllocator).after(true) is LeaveBootHeap,
        (InitStep::LeaveBootHeap).after(true) is MachineBspInit,
        (InitStep::MachineBspInit).after(true) is EnterPerCpuHeap,
        (InitStep::EnterPerCpuHeap).after(true) is MachineDeviceInit,
        (InitStep::MachineDeviceInit).after(true) is InitInterCpu,
        (InitStep::InitInterCpu).after(true) is MachineSmpInit,
        (InitStep::MachineSmpInit).after(true) is InstallScheduler,
        (InitStep::InstallScheduler).after(true) is MachineFinalizeInit,
        (InitStep::MachineFinalizeInit).after(true) is SpawnBootstrapTask,
        (InitStep::SpawnBootstrapTask).after(true) is Running,
{
}

/// The kernel halts only where it has no logger, heap, runtime, system calls,
/// frames or messages between processors. Without any other step it goes on.
pub proof fn law_only_vital_steps_halt(step: InitStep)
    ensures
        step.after(false) is Halted <==> step is Halted || step is InstallLogger || step
            is InitBootHeap || step is BootstrapRuntime || step is InitSyscalls || step
            is InitFrameAllocator || step is InitInterCpu,
        !(step.after(false) is Halted) ==> step.after(false) == step.after(true),
        step.after(true) is Halted <==> step is Halted,
        (InitStep::Running).after(true) is Running,
        (InitStep::Running).after(false) is Running,
{
}

} // verus!

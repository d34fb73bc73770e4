//! The standard namespaces and the order in which the runtime comes up.

use crate::object::ObjectError;
use vstd::prelude::*;

verus! {

/// Namespaces that the kernel creates.
#[derive(Debug, Clone, Copy, PartialEq, Eq, Structural)]
pub enum StandardNamespace {
    Root,
    User,
    Kernel,
    Bootloader,
    Device,
    ClockSource,
    Runtime,
    Scheduler,
    Processes,
    Syscall,
    Resource,
    Irq,
}

impl StandardNamespace {
    /// Place in the order of creation; the root is there already.
    pub open spec fn rank(self) -> int {
        match self {
            StandardNamespace::Root => 0,
            StandardNamespace::User => 1,
            StandardNamespace::Kernel => 2,
            StandardNamespace::Bootloader => 3,
            StandardNamespace::Device => 4,
            StandardNamespace::ClockSource => 5,
            StandardNamespace::Runtime => 6,
            StandardNamespace::Scheduler => 7,
            StandardNamespace::Processes => 8,
            StandardNamespace::Syscall => 9,
            StandardNamespace::Resource => 10,
            StandardNamespace::Irq => 11,
        }
    }

    pub open spec fn above(self) -> StandardNamespace {
        match self {
            StandardNamespace::Root => StandardNamespace::Root,
            StandardNamespace::User => StandardNamespace::Root,
            StandardNamespace::Kernel => StandardNamespace::Root,
            StandardNamespace::Resource => StandardNamespace::Root,
            StandardNamespace::Processes => StandardNamespace::Scheduler,
            StandardNamespace::Irq => StandardNamespace::Resource,
            _ => StandardNamespace::Kernel,
        }
    }

    /// The namespace that this one is created in.
    pub fn parent(self) -> (parent: StandardNamespace)
        ensures
            parent == self.above(),
    {
        match self {
            StandardNamespace::Root => StandardNamespace::Root,
            StandardNamespace::User => StandardNamespace::Root,
            StandardNamespace::Kernel => StandardNamespace::Root,
            StandardNamespace::Resource => StandardNamespace::Root,
            StandardNamespace::Processes => StandardNamespace::Scheduler,
            StandardNamespace::Irq => StandardNamespace::Resource,
            _ => StandardNamespace::Kernel,
        }
    }

    pub open spec fn label(self) -> Seq<char> {
        match self {
            StandardNamespace::Root => ""@,
            StandardNamespace::User => "User"@,
            StandardNamespace::Kernel => "Kernel"@,
            StandardNamespace::Bootloader => "Bootloader"@,
            StandardNamespace::Device => "Device"@,
            StandardNamespace::ClockSource => "ClockSource"@,
            StandardNamespace::Runtime => "Runtime"@,
            StandardNamespace::Scheduler => "Scheduler"@,
            StandardNamespace::Processes => "Processes"@,
            StandardNamespace::Syscall => "Syscall"@,
            StandardNamespace::Resource => "Resource"@,
            StandardNamespace::Irq => "IRQ"@,
        }
    }

    /// The name under which this one is created.
    pub fn name(self) -> (name: &'static str)
        ensures
            name@ == self.label(),
    {
        match self {
            StandardNamespace::Root => "",
            StandardNamespace::User => "User",
            StandardNamespace::Kernel => "Kernel",
            StandardNamespace::Bootloader => "Bootloader",
            StandardNamespace::Device => "Device",
            StandardNamespace::ClockSource => "ClockSource",
            StandardNamespace::Runtime => "Runtime",
            StandardNamespace::Scheduler => "Scheduler",
            StandardNamespace::Processes => "Processes",
            StandardNamespace::Syscall => "Syscall",
            StandardNamespace::Resource => "Resource",
            StandardNamespace::Irq => "IRQ",
        }
    }

    pub open spec fn following(self) -> Option<StandardNamespace> {
        match self {
            StandardNamespace::Root => Some(StandardNamespace::User),
            StandardNamespace::User => Some(StandardNamespace::Kernel),
            StandardNamespace::Kernel => Some(StandardNamespace::Bootloader),
            StandardNamespace::Bootloader => Some(StandardNamespace::Device),
            StandardNamespace::Device => Some(StandardNamespace::ClockSource),
            StandardNamespace::ClockSource => Some(StandardNamespace::Runtime),
            StandardNamespace::Runtime => Some(StandardNamespace::Scheduler),
            StandardNamespace::Scheduler => Some(StandardNamespace::Processes),
            StandardNamespace::Processes => Some(StandardNamespace::Syscall),
            StandardNamespace::Syscall => Some(StandardNamespace::Resource),
            StandardNamespace::Resource => Some(StandardNamespace::Irq),
            StandardNamespace::Irq => None,
        }
    }

    /// Whether the handle of the namespace is given up once all are created:
    /// nobody shall use it as a parent again.
    pub fn is_construction_only(self) -> (given_up: bool)
        ensures
            given_up == (self == StandardNamespace::Root || self == StandardNamespace::Kernel
                || self == StandardNamespace::Runtime || self == StandardNamespace::Scheduler),
    {
        matches!(
            self,
            StandardNamespace::Root | StandardNamespace::Kernel | StandardNamespace::Runtime
            | StandardNamespace::Scheduler
        )
    }
}

/// Object responsible for constructing standard top-level namespaces, one after
/// the other.
#[derive(Debug, Clone, Copy, PartialEq, Eq, Structural)]
pub struct NamespaceBootstrap {
    last: StandardNamespace,
}

impl NamespaceBootstrap {
    /// The namespace that was created last.
    pub closed spec fn created_last(&self) -> StandardNamespace {
        self.last
    }

    pub fn new() -> (bootstrap: Self)
        ensures
            bootstrap.created_last() == StandardNamespace::Root,
    {
        NamespaceBootstrap { last: StandardNamespace::Root }
    }

    /// The namespace to create next; `None` once all are there.
    pub fn next(&self) -> (next: Option<StandardNamespace>)
        ensures
            next == self.created_last().following(),
    {
        match self.last {
            StandardNamespace::Root => Some(StandardNamespace::User),
            StandardNamespace::User => Some(StandardNamespace::Kernel),
            StandardNamespace::Kernel => Some(StandardNamespace::Bootloader),
            StandardNamespace::Bootloader => Some(StandardNamespace::Device),
            StandardNamespace::Device => Some(StandardNamespace::ClockSource),
            StandardNamespace::ClockSource => Some(StandardNamespace::Runtime),
            StandardNamespace::Runtime => Some(StandardNamespace::Scheduler),
            StandardNamespace::Scheduler => Some(StandardNamespace::Processes),
            StandardNamespace::Processes => Some(StandardNamespace::Syscall),
            StandardNamespace::Syscall => Some(StandardNamespace::Resource),
            StandardNamespace::Resource => Some(StandardNamespace::Irq),
            StandardNamespace::Irq => None,
        }
    }

    /// Takes note of how the creation of the next namespace ended. A failure
    /// ends the construction.
    pub fn on_created(&mut self, result: Result<(), ObjectError>) -> (outcome: Result<
        (),
        ObjectError,
    >)
        requires
            old(self).created_last().following() is Some,
        ensures
            outcome == result,
            final(self).created_last() == (if result is Ok {
                old(self).created_last().following()->0
            } else {
                old(self).created_last()
            }),
    {
        if result.is_ok() {
            if let Some(next) = self.next() {
                self.last = next;
            }
        }
        result
    }
}

/// Every namespace is created after the one that it is created in, and the order
/// passes all of them.
pub proof fn law_parents_come_first(namespace: StandardNamespace)
    requires
        namespace != StandardNamespace::Root,
    ensures
        namespace.above().rank() < namespace.rank(),
        exists|before: StandardNamespace|
            #![trigger before.following()]
            before.following() == Some(namespace) && before.rank() + 1 == namespace.rank(),
{
    let before = match namespace {
        StandardNamespace::Root => StandardNamespace::Root,
        StandardNamespace::User => StandardNamespace::Root,
        StandardNamespace::Kernel => StandardNamespace::User,
        StandardNamespace::Bootloader => StandardNamespace::Kernel,
        StandardNamespace::Device => StandardNamespace::Bootloader,
        StandardNamespace::ClockSource => StandardNamespace::Device,
        StandardNamespace::Runtime => StandardNamespace::ClockSource,
        StandardNamespace::Scheduler => StandardNamespace::Runtime,
        StandardNamespace::Processes => StandardNamespace::Scheduler,
        StandardNamespace::Syscall => StandardNamespace::Processes,
        StandardNamespace::Resource => StandardNamespace::Syscall,
        StandardNamespace::Irq => StandardNamespace::Resource,
    };
    assert(before.following() == Some(namespace));
}

/// Steps of the runtime bootstrap.
#[derive(Debug, Clone, Copy, PartialEq, Eq, Structural)]
pub enum BootstrapStep {
    PublishBootInfo,
    StartCollector,
    InitRoot,
    CreateNamespaces,
    PublishResources,
    RunHook,
    InstallServices,
    PromoteCollector,
    Done,
}

/// Single-use runtime bootstrap entry for early kernel bringup.
///
/// This object owns the bootstrap sequence for runtime-wide state:
/// boot-info publication, early GC setup, root registry initialization,
/// namespace creation, and final runtime service installation.
#[derive(Debug, Clone, Copy, PartialEq, Eq, Structural)]
pub struct RuntimeBootstrap {
    step: BootstrapStep,
}

impl RuntimeBootstrap {
    pub closed spec fn at(&self) -> BootstrapStep {
        self.step
    }

    pub open spec fn after(step: BootstrapStep) -> BootstrapStep {
        match step {
            BootstrapStep::PublishBootInfo => BootstrapStep::StartCollector,
            BootstrapStep::StartCollector => BootstrapStep::InitRoot,
            BootstrapStep::InitRoot => BootstrapStep::CreateNamespaces,
            BootstrapStep::CreateNamespaces => BootstrapStep::PublishResources,
            BootstrapStep::PublishResources => BootstrapStep::RunHook,
            BootstrapStep::RunHook => BootstrapStep::InstallServices,
            BootstrapStep::InstallServices => BootstrapStep::PromoteCollector,
            BootstrapStep::PromoteCollector => BootstrapStep::Done,
            BootstrapStep::Done => BootstrapStep::Done,
        }
    }

    pub fn new() -> (bootstrap: Self)
        ensures
            bootstrap.at() == BootstrapStep::PublishBootInfo,
    {
        RuntimeBootstrap { step: BootstrapStep::PublishBootInfo }
    }

    /// The step to take.
    pub fn step(&self) -> (step: BootstrapStep)
        ensures
            step == self.at(),
    {
        self.step
    }

    /// Goes on after a step. A step of the object system that failed ends the
    /// bootstrap.
    pub fn advance(&mut self, result: Result<(), ObjectError>) -> (outcome: Result<(), ObjectError>)
        ensures
            outcome == result,
            final(self).at() == (if result is Ok {
                Self::after(old(self).at())
            } else {
                old(self).at()
            }),
    {
        if result.is_ok() {
            self.step = match self.step {
                BootstrapStep::PublishBootInfo => BootstrapStep::StartCollector,
                BootstrapStep::StartCollector => BootstrapStep::InitRoot,
                BootstrapStep::InitRoot => BootstrapStep::CreateNamespaces,
                BootstrapStep::CreateNamespaces => BootstrapStep::PublishResources,
                BootstrapStep::PublishResources => BootstrapStep::RunHook,
                BootstrapStep::RunHook => BootstrapStep::InstallServices,
                BootstrapStep::InstallServices => BootstrapStep::PromoteCollector,
                BootstrapStep::PromoteCollector => BootstrapStep::Done,
                BootstrapStep::Done => BootstrapStep::Done,
            };
        }
        result
    }
}

} // verus!

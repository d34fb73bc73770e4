//! What the services of the running kernel guarantee: the tree of namespaces, the
//! order in which the runtime comes up, polling, and jobs for other processors.

use super::bootstrap::{BootstrapStep, RuntimeBootstrap, StandardNamespace};
use super::extensions::{many_polled, Or, PollState, Pollable, Timeout};
use super::intercpu::{InterCpuError, InterCpuRuntime, NotifyRoute};
use vstd::prelude::*;

verus! {

/// User code, the kernel and the resources have a namespace each below the root.
/// Processes are listed below the scheduler and interrupts below the resources, and
/// everything else is below the kernel.
pub proof fn law_namespaces_form_a_tree(namespace: StandardNamespace)
    ensures
        namespace.above() is Root <==> namespace is Root || namespace is User || namespace
            is Kernel || namespace is Resource,
        namespace.above() is Scheduler <==> namespace is Processes,
        namespace.above() is Resource <==> namespace is Irq,
        namespace.above() is Kernel <==> namespace is Bootloader || namespace is Device
            || namespace is ClockSource || namespace is Runtime || namespace is Scheduler
            || namespace is Syscall,
        namespace.above().above().above() is Root,
{
}

/// Namespaces are found under names of their own.
pub proof fn law_namespaces_have_names()
    ensures
        (StandardNamespace::User).label() == "User"@,
        (StandardNamespace::Kernel).label() == "Kernel"@,
        (StandardNamespace::Bootloader).label() == "Bootloader"@,
        (StandardNamespace::Device).label() == "Device"@,
        (StandardNamespace::ClockSource).label() == "ClockSource"@,
        (StandardNamespace::Runtime).label() == "Runtime"@,
        (StandardNamespace::Scheduler).label() == "Scheduler"@,
        (StandardNamespace::Processes).label() == "Processes"@,
        (StandardNamespace::Syscall).label() == "Syscall"@,
        (StandardNamespace::Resource).label() == "Resource"@,
        (StandardNamespace::Irq).label() == "IRQ"@,
{
}

/// No two namespaces with the same parent have one name.
pub proof fn law_siblings_have_different_names(a: StandardNamespace, b: StandardNamespace)
    requires
        a != b,
        a.above() == b.above(),
        !(a is Root),
        !(b is Root),
    ensures
        a.label() != b.label(),
{
    reveal_strlit("User");
    reveal_strlit("Kernel");
    reveal_strlit("Resource");
    reveal_strlit("Bootloader");
    reveal_strlit("Device");
    reveal_strlit("ClockSource");
    reveal_strlit("Runtime");
    reveal_strlit("Scheduler");
    reveal_strlit("Syscall");
    reveal_strlit("Processes");
    reveal_strlit("IRQ");
    assert(a.label()[0] != b.label()[0] || a.label().len() != b.label().len() || a.label()[1]
        != b.label()[1]);
}

/// The runtime comes up in one order: boot information, collector, root, name
/// spaces, resources, the hook, the services and the promoted collector. Then it
/// stays up.
pub proof fn law_runtime_comes_up_in_order()
    ensures
        RuntimeBootstrap::after(BootstrapStep::PublishBootInfo) is StartCollector,
        RuntimeBootstrap::after(BootstrapStep::StartCollector) is InitRoot,
        RuntimeBootstrap::after(BootstrapStep::InitRoot) is CreateNamespaces,
        RuntimeBootstrap::after(BootstrapStep::CreateNamespaces) is PublishResources,
        RuntimeBootstrap::after(BootstrapStep::PublishResources) is RunHook,
        RuntimeBootstrap::after(BootstrapStep::RunHook) is InstallServices,
        RuntimeBootstrap::after(BootstrapStep::InstallServices) is PromoteCollector,
        RuntimeBootstrap::after(BootstrapStep::PromoteCollector) is Done,
        RuntimeBootstrap::after(BootstrapStep::Done) is Done,
{
}

/// Of two things the first one is asked first. The second is left alone where the
/// first is ready, and both are asked before they count as not ready.
pub proof fn law_first_of_two_is_asked_first<R, A: Pollable<Output = R>, B: Pollable<Output = R>>(
    before: Or<A, B>,
    after: Or<A, B>,
    outcome: PollState<R>,
)
    requires
        Or::<A, B>::polled(before, after, outcome),
    ensures
        outcome is Pending ==> A::polled(before.a, after.a, PollState::Pending) && B::polled(
            before.b,
            after.b,
            PollState::Pending,
        ),
        outcome is Ready ==> {
            ||| A::polled(before.a, after.a, outcome) && after.b == before.b
            ||| A::polled(before.a, after.a, PollState::Pending) && B::polled(
                before.b,
                after.b,
                outcome,
            )
        },
{
}

/// Of many things the first that is ready answers. None behind it is asked, and
/// they count as not ready once all were asked and none was.
pub proof fn law_first_ready_answers<F: Pollable>(
    before: Seq<F>,
    after: Seq<F>,
    outcome: PollState<F::Output>,
) -> (at: int)
    requires
        many_polled(before, after, outcome),
    ensures
        after.len() == before.len(),
        0 <= at <= before.len(),
        at == before.len() <==> outcome is Pending,
        forall|i: int|
            #![trigger after[i]]
            0 <= i < at ==> F::polled(before[i], after[i], PollState::Pending),
        at < before.len() ==> F::polled(before[at], after[at], outcome),
        forall|i: int| #![trigger after[i]] at < i < before.len() ==> after[i] == before[i],
{
    match outcome {
        PollState::Pending => before.len() as int,
        PollState::Ready(_) => {
            let at = choose|at: int|
                #![trigger after[at]]
                0 <= at < before.len() && super::extensions::all_pending(before, after, at)
                    && F::polled(before[at], after[at], outcome) && super::extensions::untouched(
                    before,
                    after,
                    at + 1,
                );
            at
        },
    }
}

/// A limit ends a wait only where the thing that is waited for is not ready, and
/// its value counts even where the time is over.
pub proof fn law_value_comes_before_the_limit<F: Pollable, S: Pollable<Output = ()>>(
    before: Timeout<F, S>,
    after: Timeout<F, S>,
    outcome: PollState<Option<F::Output>>,
)
    requires
        Timeout::<F, S>::polled(before, after, outcome),
    ensures
        outcome matches PollState::Ready(Some(value)) ==> F::polled(
            before.future,
            after.future,
            PollState::Ready(value),
        ) && after.sleep == before.sleep,
        outcome matches PollState::Ready(None) ==> F::polled(
            before.future,
            after.future,
            PollState::Pending,
        ) && S::polled(before.sleep, after.sleep, PollState::Ready(())),
        outcome is Pending ==> F::polled(before.future, after.future, PollState::Pending)
            && S::polled(before.sleep, after.sleep, PollState::Pending),
{
}

/// A job for the own processor runs there. One for another goes to its mailbox,
/// and is refused where there is no such processor or no mailbox.
pub proof fn law_jobs_go_to_their_processor(
    runtime: InterCpuRuntime,
    current: usize,
    cpu_id: usize,
    mailbox: bool,
)
    ensures
        ({
            let route = runtime.route(current, cpu_id, mailbox);
            &&& cpu_id == current ==> route == Ok::<NotifyRoute, InterCpuError>(NotifyRoute::Here)
            &&& cpu_id != current && cpu_id >= runtime.cpus() ==> route == Err::<
                NotifyRoute,
                InterCpuError,
            >(InterCpuError::InvalidCpu(cpu_id))
            &&& cpu_id != current && cpu_id < runtime.cpus() && !mailbox ==> route == Err::<
                NotifyRoute,
                InterCpuError,
            >(InterCpuError::MissingMailbox(cpu_id))
            &&& cpu_id != current && cpu_id < runtime.cpus() && mailbox ==> route == Ok::<
                NotifyRoute,
                InterCpuError,
            >(NotifyRoute::Mailbox(cpu_id))
        }),
{
}

} // verus!

use akarin::device::DeviceProbeError;
use akarin::init::{after_device_probe, after_framebuffer_lookup, AfterProbe, InitStep};
use akarin::interrupt::IrqError;
use akarin::object::{Capability, Handle, ObjectError};
use akarin::runtime::bootstrap::{
    BootstrapStep, NamespaceBootstrap, RuntimeBootstrap, StandardNamespace,
};
use akarin::runtime::extensions::{Or, OrExt, OrMany, OrManyExt, PollState, Pollable, Timeout};
use akarin::runtime::futex::{
    addr_to_key, FutexError, FutexKey, FutexManager, FutexMapping, FutexWait, SharedParent,
};
use akarin::runtime::intercpu::{
    CallStep, InterCpuError, InterCpuRuntime, NotifyRoute, SendStep,
};
use akarin::runtime::once::{InterruptRuntime, OnceSlot, PciRuntime};
use akarin::sched::clock::Duration;

const PRIVATE: FutexMapping = FutexMapping { vmo_id: 3, vmo_offset: Some(0x40), shared: None };

fn shared(parent_offset: usize, offset: usize) -> Option<FutexMapping> {
    Some(FutexMapping {
        vmo_id: 9,
        vmo_offset: Some(offset),
        shared: Some(SharedParent { parent_id: 3, parent_offset }),
    })
}

#[test]
fn shared_views_name_the_same_word() {
    assert_eq!(addr_to_key(Some(PRIVATE)), Ok(FutexKey { vmo_id: 3, vmo_offset: 0x40 }));
    assert_eq!(addr_to_key(shared(0x30, 0x10)), addr_to_key(Some(PRIVATE)));
    assert_eq!(addr_to_key(shared(0x20, 0x20)), addr_to_key(shared(0x30, 0x10)));
    assert_eq!(addr_to_key(None), Err(FutexError::Fault));
    let nowhere = FutexMapping { vmo_offset: None, ..PRIVATE };
    assert_eq!(addr_to_key(Some(nowhere)), Err(FutexError::Fault));
    assert_eq!(addr_to_key(shared(usize::MAX, 1)), Err(FutexError::Fault));
}

#[test]
fn waits_are_refused_in_order() {
    let mut futex = FutexManager::new();
    let mut wait = |addr, mapping, observed, timeout| {
        futex.start_wait(addr, mapping, observed, 5, timeout, 1)
    };
    assert_eq!(wait(0x1001, None, None, 0), Err(FutexError::InvalidArgument));
    assert_eq!(wait(0x1000, None, None, 0), Err(FutexError::Fault));
    assert_eq!(wait(0x1000, Some(PRIVATE), None, 0), Err(FutexError::Fault));
    assert_eq!(wait(0x1000, Some(PRIVATE), Some(6), 0), Err(FutexError::WouldBlock));
    assert_eq!(wait(0x1000, Some(PRIVATE), Some(5), 0), Err(FutexError::TimedOut));
    let key = FutexKey { vmo_id: 3, vmo_offset: 0x40 };
    assert_eq!(
        wait(0x1000, Some(PRIVATE), Some(5), 9),
        Ok(FutexWait { key, limit: Some(Duration { nanos: 9 }) })
    );
    assert_eq!(
        wait(0x1000, Some(PRIVATE), Some(5), usize::MAX),
        Ok(FutexWait { key, limit: None })
    );
    assert_eq!(futex.wake(0x1000, Some(PRIVATE), 9), Ok(vec![1, 1]));
}

#[test]
fn waiters_are_woken_in_order() {
    let mut futex = FutexManager::new();
    let key = addr_to_key(Some(PRIVATE)).unwrap();
    for waiter in 1..=4 {
        futex.insert_waiter(key, waiter);
    }
    futex.insert_waiter(FutexKey { vmo_offset: 0x44, ..key }, 8);
    assert_eq!(futex.wake(0x2000, shared(0x30, 0x10), 2), Ok(vec![1, 2]));
    assert_eq!(futex.wake(0x2001, Some(PRIVATE), 2), Err(FutexError::InvalidArgument));
    assert_eq!(futex.wake(0x2000, None, 2), Err(FutexError::Fault));
    assert!(futex.remove_waiter(key, 3));
    assert!(!futex.remove_waiter(key, 3));
    assert_eq!(futex.take_woken_waiters(key, 5), vec![4]);
    assert_eq!(futex.take_woken_waiters(key, 5), Vec::<u64>::new());
}

#[test]
fn timeout_leaves_no_waiter() {
    let mut futex = FutexManager::new();
    let key = futex.start_wait(0x1000, Some(PRIVATE), Some(5), 5, 9, 1).unwrap().key;
    assert_eq!(futex.finish_wait(key, 1, false, false), Err(FutexError::TimedOut));
    assert_eq!(futex.take_woken_waiters(key, 5), Vec::<u64>::new());
    assert_eq!(futex.finish_wait(key, 1, true, false), Ok(()));
    assert_eq!(futex.finish_wait(key, 1, false, true), Ok(()));
}

#[test]
fn slots_are_filled_once() {
    let mut slot: OnceSlot<u64> = OnceSlot::new();
    assert!(!slot.is_installed());
    assert_eq!(slot.install(4), 4);
    assert_eq!(slot.install(5), 4);
    assert_eq!(slot.get(), 4);
    let mut interrupts = InterruptRuntime::new();
    assert_eq!(interrupts.install_controller(1), 1);
    assert_eq!(interrupts.install_reschedule_hook(2), 2);
    assert_eq!(interrupts.install_controller(3), 1);
    assert_eq!((interrupts.controller(), interrupts.reschedule_hook()), (1, 2));
    let mut pci = PciRuntime::new();
    assert!(!pci.is_installed());
    assert_eq!(pci.install(6, 7), 7);
    assert_eq!(pci.install(8, 9), 7);
    assert_eq!((pci.config(), pci.binder()), (6, 7));
}

#[test]
fn processors_are_reached_by_mailbox() {
    let mut slot = None;
    assert_eq!(InterCpuRuntime::get(&slot), Err(InterCpuError::NotInitialized));
    assert_eq!(InterCpuRuntime::initialize(&mut slot, 4, 3), Err(InterCpuError::InvalidCpu(3)));
    assert_eq!(InterCpuRuntime::initialize(&mut slot, 3, 3), Ok(()));
    assert_eq!(
        InterCpuRuntime::initialize(&mut slot, 2, 3),
        Err(InterCpuError::NotInitialized)
    );
    let runtime = InterCpuRuntime::get(&slot).unwrap();
    assert_eq!(runtime.cpu_count(), 3);
    assert_eq!(runtime.notify(1, 1, false), Ok(NotifyRoute::Here));
    assert_eq!(runtime.notify(1, 2, true), Ok(NotifyRoute::Mailbox(2)));
    assert_eq!(runtime.notify(1, 2, false), Err(InterCpuError::MissingMailbox(2)));
    assert_eq!(runtime.notify(1, 3, true), Err(InterCpuError::InvalidCpu(3)));
    assert_eq!(InterCpuRuntime::after_send(2, true), SendStep::Interrupt(2));
    assert_eq!(
        InterCpuRuntime::after_send(2, false),
        SendStep::Done(Err(InterCpuError::SendClosed))
    );
    assert_eq!(InterCpuRuntime::after_interrupt(Ok(())), Ok(()));
    assert_eq!(
        InterCpuRuntime::after_interrupt(Err(IrqError::Closed)),
        Err(InterCpuError::Interrupt(IrqError::Closed))
    );
}

#[test]
fn processor_errors_are_described() {
    let text = |error: InterCpuError| error.describe();
    assert_eq!(text(InterCpuError::NotInitialized), "inter-CPU runtime is not initialized");
    assert_eq!(text(InterCpuError::InvalidCpu(12)), "invalid CPU id 12");
    assert_eq!(text(InterCpuError::MissingMailbox(0)), "missing mailbox for CPU 0");
    assert_eq!(text(InterCpuError::SendClosed), "inter-CPU mailbox sender is closed");
    assert_eq!(text(InterCpuError::ReplyClosed), "inter-CPU reply channel is closed");
    assert_eq!(
        text(InterCpuError::Interrupt(IrqError::InvalidIrq(4))),
        "IPI delivery failed: InvalidIrq(4)"
    );
}

/// Ready with its number after as many polls as it says.
struct Countdown {
    left: usize,
    number: u32,
}

impl Pollable for Countdown {
    type Output = u32;

    fn polled(before: Self, after: Self, outcome: PollState<u32>) -> bool {
        match outcome {
            PollState::Ready(number) => before.left == 0 && number == after.number,
            PollState::Pending => before.left == after.left + 1,
        }
    }

    fn poll(&mut self) -> PollState<u32> {
        if self.left == 0 {
            return PollState::Ready(self.number);
        }
        self.left -= 1;
        PollState::Pending
    }
}

struct Limit(Countdown);

impl Pollable for Limit {
    type Output = ();

    fn polled(before: Self, after: Self, outcome: PollState<()>) -> bool {
        match outcome {
            PollState::Ready(()) => before.0.left == 0,
            PollState::Pending => before.0.left == after.0.left + 1,
        }
    }

    fn poll(&mut self) -> PollState<()> {
        match self.0.poll() {
            PollState::Ready(_) => PollState::Ready(()),
            PollState::Pending => PollState::Pending,
        }
    }
}

fn after(left: usize, number: u32) -> Countdown {
    Countdown { left, number }
}

#[test]
fn first_that_is_ready_wins() {
    let mut both: Or<Countdown, Countdown> = after(2, 1).or(after(1, 2));
    assert!(matches!(both.poll(), PollState::Pending));
    assert!(matches!(both.poll(), PollState::Ready(2)));
    assert!(matches!(both.poll(), PollState::Ready(1)));
    let mut many: OrMany<Countdown> = after(3, 1).or_many(vec![after(1, 2), after(1, 3)]);
    assert!(matches!(many.poll(), PollState::Pending));
    assert!(matches!(many.poll(), PollState::Ready(2)));
    let mut none: OrMany<Countdown> = OrMany::new();
    assert!(matches!(none.poll(), PollState::Pending));
    none.push(after(0, 4));
    assert!(matches!(none.poll(), PollState::Ready(4)));
}

#[test]
fn limits_end_a_wait() {
    let mut timely = Timeout { future: after(1, 7), sleep: Limit(after(1, 0)) };
    assert!(matches!(timely.poll(), PollState::Pending));
    assert!(matches!(timely.poll(), PollState::Ready(Some(7))));
    let mut late = Timeout { future: after(2, 7), sleep: Limit(after(1, 0)) };
    assert!(matches!(late.poll(), PollState::Pending));
    assert!(matches!(late.poll(), PollState::Ready(None)));
}

#[test]
fn namespaces_are_created_under_their_parents() {
    let mut bootstrap = NamespaceBootstrap::new();
    let mut created = vec![StandardNamespace::Root];
    let lost = Err(ObjectError::ObjectNotFound);
    assert_eq!(bootstrap.on_created(lost), lost);
    while let Some(next) = bootstrap.next() {
        assert!(created.contains(&next.parent()));
        created.push(next);
        assert_eq!(bootstrap.on_created(Ok(())), Ok(()));
    }
    assert_eq!(created.len(), 12);
    assert_eq!(StandardNamespace::Irq.name(), "IRQ");
    assert_eq!(StandardNamespace::Processes.parent(), StandardNamespace::Scheduler);
    assert!(StandardNamespace::Kernel.is_construction_only());
    assert!(!StandardNamespace::User.is_construction_only());
}

#[test]
fn bootstrap_stops_at_a_failed_step() {
    let mut bootstrap = RuntimeBootstrap::new();
    assert_eq!(bootstrap.step(), BootstrapStep::PublishBootInfo);
    let lost = Err(ObjectError::ObjectNotFound);
    assert_eq!(bootstrap.advance(lost), lost);
    assert_eq!(bootstrap.step(), BootstrapStep::PublishBootInfo);
    for _ in 0..8 {
        assert_eq!(bootstrap.advance(Ok(())), Ok(()));
    }
    assert_eq!(bootstrap.step(), BootstrapStep::Done);
}

#[test]
fn initialization_runs_or_halts() {
    let mut step = InitStep::MachineEarlyInit;
    let mut steps = 0;
    while step != InitStep::Running {
        step = step.next(true);
        steps += 1;
    }
    assert_eq!(steps, 18);
    assert_eq!(InitStep::InitBootHeap.next(false), InitStep::Halted);
    assert_eq!(InitStep::LoadSymbols.next(false), InitStep::InitBootHeap);
    assert_eq!(InitStep::Halted.next(true), InitStep::Halted);
}

#[test]
fn framebuffer_is_attached_after_the_probe() {
    let handle = Handle {
        object: 4,
        capabilities: Capability::none(),
        interface_caps: 0,
        clone_refusal: None,
        acquire_refusal: None,
        key_refusal: None,
        derive_refusal: None,
    };
    assert_eq!(after_device_probe(Ok(())), AfterProbe::LookUpFramebuffer);
    assert_eq!(after_framebuffer_lookup(Ok(handle)), AfterProbe::AttachFramebuffer(handle));
    let lost = ObjectError::ObjectNotFound;
    assert_eq!(after_framebuffer_lookup(Err(lost)), AfterProbe::NoFramebuffer(lost));
    let failed = DeviceProbeError::InitializationFailed;
    assert_eq!(after_device_probe(Err(failed)), AfterProbe::ProbeFailed(failed));
}

#[test]
fn calls_end_with_their_reply() {
    assert_eq!(InterCpuRuntime::after_call(Ok(())), CallStep::AwaitReply);
    assert_eq!(
        InterCpuRuntime::after_call(Err(InterCpuError::SendClosed)),
        CallStep::Done(Err(InterCpuError::SendClosed))
    );
    assert_eq!(InterCpuRuntime::after_reply(true), Ok(()));
    assert_eq!(InterCpuRuntime::after_reply(false), Err(InterCpuError::ReplyClosed));
}

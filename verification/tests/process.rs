use akarin::error::ObjectOrUnderlyingError;
use akarin::ipc::port::PortBindError;
use akarin::memory::range::VmRange;
use akarin::object::{Capability, Handle, ObjectError};
use akarin::sched::clock::Instant;
use akarin::sched::cpus::{SchedulerSet, WakeNotice};
use akarin::sched::preempt::PreemptState;
use akarin::sched::process::control::{
    ProcessAbi, ProcessAdminReply, ProcessControl, ProcessControlAdminGuard,
    ProcessControlReadGuard, ProcessControlUnsupportedGuard, ProcessControlWriteGuard,
    ProcessMethod, ProcessWriteReply, WriteArguments,
};
use akarin::sched::process::lifecycle::{
    create_anonymous_admin_handle, create_task_control_handle, InheritRequest, Process,
    ProcessHandleInstallError, ProcessLoadInfo, ProcessObjectPhase, ProcessVmSegment,
    ProcessVmarExtractError, ProcessWaitError, SpawnError, SpawnTaskError, WaitStep,
};
use akarin::sched::process::loader::{
    bootstrap_slide, build_bootstrap_stack, check_image_source, install_bootstrap_handles,
    load_info, map_bootstrap_segment, mapping_flags, page_align_up, segment_contents, AuxTags,
    BootstrapLoadError, BootstrapSources, BootstrapUserAbi, ExecutableDefect, ImageLayout,
    ImageLoad, LoadStage, ProcessLoadError, RebaseError, RebaseStep, SegmentFailure,
    SegmentProtections, SegmentStep,
};
use akarin::sched::process::manager::{ControlHandles, ProcessManager, ProcessVmError, VmError};
use akarin::sched::process::objects::{
    segment_rights, vmo_op_range, MemoryObject, PortObject, UnmapStep, VmAbi, VmoOpRangeOperation,
    VmoRangePlan,
};
use akarin::sched::process::stack::{
    allocate_stack_slot, stack_sizes, KernelStack, KernelStackSegment, StackStep, UnstackStep,
    UserStackAllocation,
};
use akarin::sched::process::tasks::{
    handle_fault, ProcessPhase, ProcessReapAction, ProcessTasks, TrapReason,
};
use akarin::sched::process::vm::{
    after_install, base_page_count, ensure_mapping_page_backed, install_mapping_page_in_page_table,
    page_base, page_failure, resolve_user_fault, translate_paging_error, BackingPlan, ChangeStep,
    CopyStep, EntryPlan, FaultPlan, FrameStep, PageState, PageWalk, PagerStep, PagingError,
    ProcessPageFaultKind, ProcessUserFaultResolution, RegionPurpose, VSpaceError,
    VmFaultResolution, VmPointerRegion, VmarEntry, VmoPagePurpose,
};
use akarin::sched::run::{UserAction, UserEvent, UserRun, UserStage};
use akarin::sched::scheduler::SchedulerError;
use akarin::sched::task::{ServiceDelivery, Task, TaskExit};
use akarin::sched::user::{
    after_page_fault, after_syscall, after_user, before_user, stack_probe,
    validate_initial_tls_base, validate_start, AddressProbe, ExitingCall, FaultAttempt,
    ProcessSpawnError, StartProbes, SyscallReturn, UserEntry, UserStart, UserStep, VmFlags,
    VmLayoutSegment,
};

fn handle(object: u64) -> Handle {
    let mut capabilities = Capability::none();
    capabilities.send = true;
    Handle { object, capabilities, interface_caps: 0, clone_refusal: None, acquire_refusal: None, key_refusal: None, derive_refusal: None }
}

/// The handle of an object that hands out no others.
fn closed(handle: Handle) -> Handle {
    Handle { derive_refusal: Some(ObjectError::InsufficientCapabilities), ..handle }
}

fn rights(read: bool, write: bool, execute: bool, send: bool) -> Capability {
    Capability { read, write, execute, agent: false, admin: false, send }
}

const VM: VmAbi = VmAbi { vmo_caps: 0x100, vmar_caps: 0x200 };

fn publish(manager: &mut ProcessManager, pid: u64) -> Result<u64, ProcessVmError> {
    let process = ProcessManager::create_process(process(pid), Ok(7))?;
    manager.adopt_process(process, Ok(handle(1)), handle(2))
}

fn process(pid: u64) -> Process {
    Process::new(pid, String::from("demo"))
}

fn range(start: usize, end: usize) -> VmRange {
    VmRange::new(start, end).unwrap()
}

const IMAGE: ProcessLoadInfo =
    ProcessLoadInfo { entry_ip: 0x40_0100, image_base: 0x40_0000, image_end: 0x41_0000, slide: 0 };

fn flags(write: bool, execute: bool) -> Option<VmFlags> {
    Some(VmFlags { read: true, write, execute, user: true, map: false })
}

fn good_probes() -> StartProbes {
    StartProbes {
        entry: AddressProbe { segment: Some(VmLayoutSegment::UserImage), mapping: flags(false, true) },
        below_stack: AddressProbe { segment: Some(VmLayoutSegment::UserStack), mapping: flags(true, false) },
        tls: AddressProbe { segment: Some(VmLayoutSegment::UserHeap), mapping: None },
    }
}

const START: UserStart = UserStart { entry: 0x40_0000, stack_pointer: 0x7000, tls_base: 0 };

#[test]
fn task_joins_and_leaves() {
    let mut tasks = ProcessTasks::new();
    assert_eq!(tasks.register_task(4), Ok(()));
    assert_eq!(tasks.register_task(4), Err(ObjectError::InvalidArgument));
    assert!(tasks.owns_task_id(4));
    assert_eq!(tasks.task_count(), 1);
    assert!(matches!(tasks.reap_task(4, TaskExit::Completed), Ok(ProcessReapAction::Detached)));
    assert_eq!(tasks.phase, ProcessPhase::Running);
    assert!(matches!(tasks.reap_task(4, TaskExit::Completed), Err(ObjectError::ObjectNotFound)));
    assert_eq!(tasks.unregister_task(4), Err(ObjectError::ObjectNotFound));
    assert_eq!(tasks.task_count(), 0);
}

#[test]
fn first_exit_ends_the_process_and_its_code_stays() {
    let mut tasks = ProcessTasks::new();
    for id in 1..=3 {
        tasks.register_task(id).unwrap();
    }
    let Ok(ProcessReapAction::ProcessExited { code, mut cancel }) =
        tasks.reap_task(2, TaskExit::ProcessExited(7))
    else {
        panic!("the first exit ends the process");
    };
    cancel.sort();
    assert_eq!((code, cancel), (7, vec![1, 3]));
    assert_eq!(tasks.phase, ProcessPhase::Terminating);
    assert_eq!(tasks.register_task(9), Err(ObjectError::ObjectDestroyed));
    assert!(matches!(
        tasks.reap_task(1, TaskExit::ProcessExited(8)),
        Ok(ProcessReapAction::Detached)
    ));
    assert_eq!(tasks.exit_code, Some(7));
    assert_eq!(tasks.phase, ProcessPhase::Terminating);
    assert!(tasks.reap_task(3, TaskExit::Cancelled).is_ok());
    assert_eq!(tasks.phase, ProcessPhase::Exited);
}

#[test]
fn lone_exit_ends_at_once() {
    let mut tasks = ProcessTasks::new();
    tasks.register_task(1).unwrap();
    assert!(tasks.reap_task(1, TaskExit::ProcessExited(0)).is_ok());
    assert_eq!(tasks.phase, ProcessPhase::Exited);
}

#[test]
fn only_breakpoints_and_interrupts_are_survived() {
    assert!(handle_fault(&TrapReason::SoftwareBreakpoint).resumable());
    assert!(handle_fault(&TrapReason::HardwareBreakpoint).resumable());
    assert!(handle_fault(&TrapReason::Interrupt(3)).resumable());
    for reason in [
        TrapReason::Syscall,
        TrapReason::PageFault { addr: 1, write: true },
        TrapReason::UndefinedInstruction,
        TrapReason::UnalignedAccess,
        TrapReason::GeneralFault(1),
    ] {
        assert!(!handle_fault(&reason).resumable());
    }
}

#[test]
fn waits_end_with_the_code_or_the_time() {
    let mut process = process(1);
    assert!(matches!(process.wait_for_exit(0), WaitStep::Done(Err(ProcessWaitError::WouldBlock))));
    assert!(matches!(process.wait_for_exit(usize::MAX), WaitStep::Listen(None)));
    let WaitStep::Listen(Some(limit)) = process.wait_for_exit(500) else {
        panic!("a wait with time left listens");
    };
    assert_eq!(limit.nanos, 500);
    assert!(matches!(process.after_listen(500, false), WaitStep::Done(Err(ProcessWaitError::TimedOut))));
    assert!(matches!(process.after_listen(500, true), WaitStep::Listen(Some(_))));
    process.tasks.register_task(1).unwrap();
    assert!(process.tasks.reap_task(1, TaskExit::ProcessExited(5)).is_ok());
    assert!(matches!(process.wait_for_exit(0), WaitStep::Done(Ok(5))));
    assert!(matches!(process.after_listen(500, true), WaitStep::Done(Ok(5))));
    assert_eq!(process.object_phase(), ProcessObjectPhase::Terminating);
}

#[test]
fn creation_hands_out_segments_and_handles() {
    let mut process = process(1);
    let request = InheritRequest {
        capability: Some(rights(true, false, false, true)),
        interface_caps: 5,
        source: Ok(handle(4)),
        target_slot: None,
    };
    assert_eq!(
        process.derive_creating_segment_vmar_handle(ProcessVmSegment::UserHeap),
        Err(ProcessVmarExtractError::InvalidState)
    );
    assert_eq!(
        process.inherit_handle_from_caller(request),
        Err(ProcessHandleInstallError::InvalidState)
    );
    process.initialize_creation_state(handle(9));
    for (segment, layout) in [
        (ProcessVmSegment::UserImage, VmLayoutSegment::UserImage),
        (ProcessVmSegment::UserMapped, VmLayoutSegment::UserMapped),
        (ProcessVmSegment::UserHeap, VmLayoutSegment::UserHeap),
        (ProcessVmSegment::UserStack, VmLayoutSegment::UserStack),
        (ProcessVmSegment::UserMmio, VmLayoutSegment::UserMmio),
    ] {
        assert_eq!(process.derive_creating_segment_vmar_handle(segment), Ok(layout));
        assert!(layout.is_user());
    }
    assert_eq!(process.inherit_handle_from_caller(request), Ok(0));
    let exact = InheritRequest { target_slot: Some(6), ..request };
    assert_eq!(process.inherit_handle_from_caller(exact), Ok(6));
    let refused = Err(ProcessHandleInstallError::InvalidArgument);
    assert_eq!(process.inherit_handle_from_caller(exact), refused);
    let mut mute = handle(4);
    mute.capabilities.send = false;
    let lost = ObjectError::ObjectNotFound;
    for bad in [
        InheritRequest { capability: None, ..request },
        InheritRequest { source: Ok(mute), ..request },
        InheritRequest { source: Err(lost), ..request },
        InheritRequest { source: Ok(closed(handle(4))), ..request },
    ] {
        assert_eq!(process.inherit_handle_from_caller(bad), refused);
    }
    let passed = Handle {
        capabilities: rights(true, false, false, true),
        interface_caps: 5,
        ..handle(4)
    };
    assert_eq!(process.handles.get(6), Some(passed));
    assert_eq!(process.handles.get(1), None);
}

#[test]
fn failed_first_spawn_keeps_the_creation() {
    let mut process = process(1);
    assert_eq!(process.begin_initial_spawn(0), Err(ProcessSpawnError::InvalidState));
    process.initialize_creation_state(handle(9));
    process.stage_loaded_image(IMAGE);
    let (owner, entry) = process.begin_initial_spawn(0).unwrap();
    assert_eq!((owner, entry), (handle(9), 0x40_0100));
    assert_eq!(
        process.finish_initial_spawn(owner, Err(SpawnError::OutOfMemory)),
        Err(ProcessSpawnError::OutOfMemory)
    );
    let (owner, entry) = process.begin_initial_spawn(0x50).unwrap();
    assert_eq!(entry, 0x50);
    assert_eq!(process.finish_initial_spawn(owner, Ok(3)), Ok((3, handle(9))));
    assert_eq!(process.begin_initial_spawn(0), Err(ProcessSpawnError::InvalidState));
    let scheduler = SpawnError::Scheduler(SpawnTaskError::Scheduler(SchedulerError::InvalidCpu(1)));
    assert_eq!(scheduler.process_spawn_error(), ProcessSpawnError::Internal);
    let object = SpawnError::Object(ObjectError::InvalidArgument);
    assert_eq!(object.process_spawn_error(), ProcessSpawnError::InvalidState);
}

#[test]
fn aborted_creation_has_exited() {
    let mut process = process(1);
    assert_eq!(process.abort_creation(), Err(ObjectError::ObjectDestroyed));
    process.initialize_creation_state(handle(9));
    process.stage_loaded_image(IMAGE);
    assert_eq!(process.abort_creation(), Ok(handle(9)));
    assert_eq!(process.phase(), ProcessPhase::Exited);
    assert_eq!(process.loaded_image, None);
    assert_eq!(process.abort_creation(), Err(ObjectError::ObjectDestroyed));
}

#[test]
fn anonymous_objects_live_while_referenced() {
    let mut process = process(1);
    let mut owner_rights = Capability::none();
    owner_rights.admin = true;
    assert_eq!(
        process.create_anonymous_object(handle(3), owner_rights, 0),
        Err(ObjectError::InvalidArgument)
    );
    assert_eq!(
        process.create_anonymous_object(closed(handle(3)), Capability::none(), 0),
        Err(ObjectError::InsufficientCapabilities)
    );
    assert!(!process.anon_objects.contains(3));
    let public = process.create_anonymous_object(handle(3), rights(true, false, false, false), 9);
    let expected = Handle {
        capabilities: rights(true, false, false, false),
        interface_caps: 9,
        ..handle(3)
    };
    assert_eq!(public, Ok(expected));
    process.handles.install_handle(0, handle(3));
    process.handles.install_handle(1, handle(3));
    assert_eq!(process.destroy_anonymous_object(0), Ok(()));
    assert!(process.anon_objects.contains(3));
    assert_eq!(process.destroy_anonymous_object(1), Ok(()));
    assert!(!process.anon_objects.contains(3));
    assert_eq!(process.destroy_anonymous_object(1), Err(ObjectError::ObjectNotFound));
    let read = rights(true, false, false, false);
    assert_eq!(process.derive_handle(0, read, 9), Err(ObjectError::ObjectNotFound));
    process.handles.install_handle(0, handle(3));
    assert_eq!(process.derive_handle(0, read, 9), Ok(1));
    assert_eq!(process.handles.get(1), Some(expected));
    process.handles.install_handle(2, closed(handle(3)));
    let denied = Err(ObjectError::InsufficientCapabilities);
    assert_eq!(process.derive_handle(2, read, 9), denied);
}

#[test]
fn admin_handles_drop_what_was_not_asked_for() {
    let everything = Capability {
        admin: true,
        agent: true,
        ..rights(true, true, true, true)
    };
    let owner = Handle { capabilities: everything, interface_caps: 6, ..handle(3) };
    let mut asked = Capability::none();
    asked.admin = true;
    asked.read = true;
    let left = create_anonymous_admin_handle(owner, asked).unwrap();
    assert!(left.capabilities.admin && left.capabilities.read);
    assert!(!left.capabilities.write && !left.capabilities.execute && !left.capabilities.agent);
    assert_eq!((left.object, left.interface_caps), (3, 6));
    assert_eq!(create_task_control_handle(owner), Ok(left));
    asked.agent = true;
    let bad = Err(ObjectError::InvalidArgument);
    assert_eq!(create_anonymous_admin_handle(owner, asked), bad);
    assert_eq!(create_anonymous_admin_handle(owner, Capability::none()), bad);
}

#[test]
fn process_shows_what_was_installed() {
    let mut process = process(8);
    assert_eq!(process.pid(), 8);
    assert_eq!(process.task_process_handle(), Err(ObjectError::ObjectNotFound));
    assert_eq!(process.address_space_root(), Err(ObjectError::ObjectNotFound));
    assert_eq!(process.derive_root_vmar_handle(&VM), Err(ObjectError::ObjectNotFound));
    process.self_handle = Some(handle(2));
    process.address_space_root = Some(0x9000);
    process.root_vmar = Some(handle(1));
    assert_eq!(process.task_process_handle(), Ok(handle(2)));
    assert_eq!(process.address_space_root(), Ok(0x9000));
    let read = Handle {
        capabilities: rights(true, false, false, false),
        interface_caps: 0x200,
        ..handle(1)
    };
    assert_eq!(process.derive_root_vmar_handle(&VM), Ok(read));
    process.root_vmar = Some(closed(handle(1)));
    let denied = Err(ObjectError::InsufficientCapabilities);
    assert_eq!(process.derive_root_vmar_handle(&VM), denied);
}

#[test]
fn starts_are_checked_in_order() {
    assert_eq!(validate_start(START, good_probes()), Ok(()));
    let mut probes = good_probes();
    probes.entry.mapping = flags(true, false);
    probes.below_stack.segment = None;
    assert_eq!(validate_start(START, probes), Err(ProcessSpawnError::InvalidInstructionPointer));
    let mut probes = good_probes();
    probes.below_stack.segment = Some(VmLayoutSegment::UserHeap);
    assert_eq!(validate_start(START, probes), Err(ProcessSpawnError::InvalidStackPointer));
    let crooked = UserStart { stack_pointer: 0x7008, ..START };
    assert_eq!(validate_start(crooked, good_probes()), Err(ProcessSpawnError::InvalidStackPointer));
    let nowhere = UserStart { entry: 0, ..START };
    assert_eq!(validate_start(nowhere, good_probes()), Err(ProcessSpawnError::InvalidInstructionPointer));
    let mut probes = good_probes();
    probes.tls.segment = Some(VmLayoutSegment::Kernel);
    let with_tls = UserStart { tls_base: 0x10, ..START };
    assert_eq!(validate_start(with_tls, probes), Err(ProcessSpawnError::InvalidTlsBase));
    assert_eq!(validate_initial_tls_base(0, probes.tls), Ok(()));
    assert_eq!((stack_probe(0), stack_probe(0x7000)), (0, 0x6fff));
}

#[test]
fn another_task_needs_a_live_process() {
    let mut process = process(1);
    assert_eq!(process.check_user_task(START, good_probes()), Ok(()));
    let refused = Err(SpawnError::Object(ObjectError::InvalidArgument));
    assert_eq!(process.check_user_task(UserStart { entry: 0, ..START }, good_probes()), refused);
    process.tasks.register_task(1).unwrap();
    assert!(process.tasks.reap_task(1, TaskExit::ProcessExited(0)).is_ok());
    assert_eq!(process.check_user_task(START, good_probes()), refused);
}

#[test]
fn user_loop_decides_each_trap() {
    assert_eq!(before_user(true, true), UserEntry::Exit(TaskExit::Cancelled));
    assert_eq!(before_user(false, false), UserEntry::Exit(TaskExit::Killed));
    assert_eq!(before_user(false, true), UserEntry::Run);
    assert_eq!(after_user(TrapReason::Syscall), UserStep::Syscall);
    assert_eq!(after_user(TrapReason::Interrupt(9)), UserStep::Interrupt(9));
    assert_eq!(
        after_user(TrapReason::PageFault { addr: 5, write: true }),
        UserStep::ResolveFault { addr: 5, write: true }
    );
    assert_eq!(after_user(TrapReason::UndefinedInstruction), UserStep::Exit(TaskExit::Faulted));
    assert_eq!(after_page_fault(5, true, FaultAttempt::Resumed), UserStep::Continue);
    assert_eq!(after_page_fault(5, true, FaultAttempt::Paged(true)), UserStep::Continue);
    let faulted = UserStep::Exit(TaskExit::Faulted);
    assert_eq!(after_page_fault(5, true, FaultAttempt::Paged(false)), faulted);
    assert_eq!(after_page_fault(5, true, FaultAttempt::Failed), faulted);
}

#[test]
fn exit_calls_end_the_task() {
    let delivery = ServiceDelivery { usr_ip: 1, frame: 2 };
    assert_eq!(
        after_syscall(ExitingCall::ProcessExit, true, 4, Some(delivery)),
        SyscallReturn::Exit(TaskExit::ProcessExited(4))
    );
    assert_eq!(
        after_syscall(ExitingCall::TaskExit, true, 4, None),
        SyscallReturn::Exit(TaskExit::ThreadExited(4))
    );
    assert_eq!(
        after_syscall(ExitingCall::TaskExit, false, 4, Some(delivery)),
        SyscallReturn::Deliver(delivery)
    );
    assert_eq!(after_syscall(ExitingCall::Other, true, 4, None), SyscallReturn::Result);
}

#[test]
fn manager_creates_and_forgets() {
    let mut manager = ProcessManager::new();
    let lost = ObjectError::ObjectNotFound;
    let failed: Result<usize, ProcessVmError> =
        Err(ObjectOrUnderlyingError::Underlying(VmError::InvalidRange));
    assert!(ProcessManager::create_process(process(1), failed).is_err());
    let begun = ProcessManager::create_process(process(1), Ok(7)).ok().unwrap();
    assert!(matches!(
        manager.adopt_process(begun, Err(lost), handle(2)),
        Err(ObjectOrUnderlyingError::Object(ObjectError::ObjectNotFound))
    ));
    assert!(manager.process_ref(1).is_err());
    assert!(matches!(publish(&mut manager, 1), Ok(1)));
    let found = manager.process_ref(1).ok().unwrap();
    assert_eq!(found.address_space_root, Some(7));
    let live = rights(true, true, true, false);
    assert_eq!(found.self_handle, Some(Handle { capabilities: live, ..handle(2) }));
    let asked = Handle { capabilities: live, interface_caps: u32::MAX, ..handle(1) };
    assert_eq!(manager.request_process_handle(1), Ok(asked));
    let handles =
        ControlHandles { live: handle(4), supervisor: handle(5), creator: handle(6) };
    let Ok((2, creator)) = manager.create_process_bootstrap(process(2), Ok(8), handles) else {
        panic!("the process is not created");
    };
    let admin = Capability { admin: true, ..rights(true, true, false, false) };
    assert_eq!(creator, Handle { capabilities: admin, ..handle(6) });
    let owner = Capability { admin: true, agent: true, ..Capability::none() };
    assert_eq!(
        manager.process_ref(2).ok().unwrap().creating_owner,
        Some(Handle { capabilities: owner, ..handle(5) })
    );
    assert_eq!(manager.request_process_handle(2), Err(lost));
    assert_eq!(manager.destroy_process(1, Err(lost)), Err(lost));
    assert!(manager.process_ref(1).is_ok());
    assert_eq!(manager.destroy_process(1, Ok(())), Ok(()));
    assert!(manager.process_ref(1).is_err());
    assert_eq!(manager.drop_process(2), Ok(()));
    assert_eq!(manager.drop_process(2), Err(lost));
}

fn spawn(manager: &mut ProcessManager, set: &mut SchedulerSet, cpu: usize, id: u64) -> Result<(u64, WakeNotice), SpawnTaskError> {
    let base = 0x10_0000 * id as usize;
    manager.spawn_task(set, cpu, Task::new(id, 1, range(base, base + 0x8000)), 0)
}

#[test]
fn spawned_task_is_known_to_both() {
    let mut manager = ProcessManager::new();
    let mut set = SchedulerSet::install(2);
    assert!(publish(&mut manager, 1).is_ok());
    assert_eq!(spawn(&mut manager, &mut set, 1, 5), Ok((5, WakeNotice::Interrupt(1))));
    assert!(manager.process_ref(1).ok().unwrap().tasks.owns_task_id(5));
    assert_eq!(set.take_next_task_on_cpu(1, Instant { nanos: 0 }), Ok(Some(5)));
    assert_eq!(
        spawn(&mut manager, &mut set, 9, 6),
        Err(SpawnTaskError::Scheduler(SchedulerError::InvalidCpu(9)))
    );
    assert!(!manager.process_ref(1).ok().unwrap().tasks.owns_task_id(6));
    let mut doomed = Task::new(7, 1, range(0x70_0000, 0x70_8000));
    doomed.execution.request_cancel();
    assert_eq!(
        manager.spawn_task(&mut set, 0, doomed, 0),
        Err(SpawnTaskError::Object(ObjectError::ObjectDestroyed))
    );
    assert_eq!(set.task_on_cpu(0, 7), None);
    assert!(!manager.process_ref(1).ok().unwrap().tasks.owns_task_id(7));
    let mut preempt = PreemptState::new();
    assert_eq!(
        manager.spawn_on(&mut set, &mut preempt, 0, 8, 1, Ok(range(0x80_0000, 0x80_8000)), 0),
        Ok((8, WakeNotice::PreemptLocal))
    );
    let spawned = set.task_on_cpu(0, 8).unwrap();
    assert_eq!(spawned.kernel_stack, range(0x80_0000, 0x80_8000));
    assert!(spawned.execution.runnable && !spawned.execution.cancel_requested);
    assert!(spawned.wake_queued);
    assert_eq!(
        manager.spawn_on(&mut set, &mut preempt, 6, 10, 1, Ok(range(0x80_0000, 0x80_8000)), 0),
        Err(SpawnError::Scheduler(SpawnTaskError::Scheduler(SchedulerError::InvalidCpu(6))))
    );
    assert_eq!(
        manager.spawn_on(&mut set, &mut preempt, 0, 9, 1, Err(ObjectError::InvalidArgument), 0),
        Err(SpawnError::Object(ObjectError::InvalidArgument))
    );
    assert_eq!(preempt, PreemptState::new());
}

#[test]
fn exit_of_a_process_cancels_its_tasks() {
    let mut manager = ProcessManager::new();
    let mut set = SchedulerSet::install(2);
    assert!(publish(&mut manager, 1).is_ok());
    for id in 1..=3 {
        spawn(&mut manager, &mut set, (id % 2) as usize, id).unwrap();
    }
    let mut ended = set.task_on_cpu(0, 2).unwrap();
    ended.state.terminal = Some(TaskExit::ProcessExited(6));
    for cpu in 0..2 {
        assert!(set.take_next_task_on_cpu(cpu, Instant { nanos: 0 }).is_ok());
    }
    let notices = manager.reap_finished_task(&mut set, ended, 0);
    assert!(set.task_on_cpu(1, 1).unwrap().wake_queued);
    assert!(set.task_on_cpu(1, 3).unwrap().wake_queued);
    assert!(!set.task_on_cpu(0, 2).unwrap().execution.cancel_requested);
    assert_eq!(notices, vec![WakeNotice::Interrupt(1), WakeNotice::Interrupt(1)]);
    assert!(set.task_on_cpu(1, 1).unwrap().execution.cancel_requested);
    assert!(set.task_on_cpu(1, 3).unwrap().execution.cancel_requested);
    assert_eq!(manager.process_ref(1).ok().unwrap().exit_code(), Some(6));
    assert_eq!(
        spawn(&mut manager, &mut set, 0, 4),
        Err(SpawnTaskError::Object(ObjectError::ObjectDestroyed))
    );
    let mut stranger = ended;
    stranger.process_id = 44;
    assert!(manager.reap_finished_task(&mut set, stranger, 0).is_empty());
}

#[test]
fn task_that_was_never_started_is_cancelled_too() {
    let mut process = process(1);
    let mut set = SchedulerSet::install(1);
    for id in 1..=3u64 {
        assert_eq!(process.register_task(id), Ok(()));
    }
    set.register_task(Task::new(3, 1, range(0x30_0000, 0x30_8000)));
    match process.reap_task(&mut set, 1, TaskExit::ProcessExited(4)) {
        Ok(ProcessReapAction::ProcessExited { code, cancel }) => {
            assert_eq!((code, cancel.len()), (4, 2));
        }
        _ => panic!("the process has not ended"),
    }
    assert_eq!(set.admit_task_on_cpu(0, 3, 0), Ok((3, WakeNotice::PreemptLocal)));
    assert!(set.task_on_cpu(0, 3).unwrap().execution.cancel_requested);
    assert!(matches!(
        process.reap_task(&mut set, 2, TaskExit::ProcessExited(5)),
        Ok(ProcessReapAction::Detached)
    ));
    assert_eq!(process.exit_code(), Some(4));
    assert!(matches!(
        process.reap_task(&mut set, 2, TaskExit::Completed),
        Err(ObjectError::ObjectNotFound)
    ));
}

#[test]
fn object_without_a_key_is_refused() {
    let mut process = process(1);
    let broken = Handle { key_refusal: Some(ObjectError::ObjectDestroyed), ..handle(3) };
    assert_eq!(
        process.create_anonymous_object(broken, Capability::none(), 0),
        Err(ObjectError::ObjectDestroyed)
    );
    assert!(!process.anon_objects.contains(3));
    process.handles.install_handle(0, broken);
    assert_eq!(process.destroy_anonymous_object(0), Err(ObjectError::ObjectDestroyed));
    assert_eq!(process.handles.get(0), None);
    process.handles.install_handle(0, broken);
    assert_eq!(process.destroy_vmar(0, Ok(Ok(()))), Err(ObjectError::ObjectDestroyed));
    assert_eq!(process.handles.get(0), None);
}

#[test]
fn page_arithmetic_is_whole() {
    assert_eq!(page_base(0x1fff), 0x1000);
    assert_eq!(page_base(0x2000), 0x2000);
    assert_eq!(base_page_count(range(0x1000, 0x3fff)), 2);
    assert_eq!(RegionPurpose::User.vmo_page_purpose(), VmoPagePurpose::Anonymous);
    assert_eq!(RegionPurpose::DeviceMmio.vmo_page_purpose(), VmoPagePurpose::Dma);
    assert_eq!(RegionPurpose::KernelText.vmo_page_purpose(), VmoPagePurpose::KernelMeta);
    assert_eq!(translate_paging_error(PagingError::NotMapped), ObjectError::ObjectNotFound);
    assert_eq!(translate_paging_error(PagingError::NoMemory), ObjectError::InvalidArgument);
    assert!(matches!(
        VSpaceError::PermissionDenied.process_vm_error(),
        ObjectOrUnderlyingError::Underlying(VmError::PermissionDenied)
    ));
}

#[test]
fn entries_list_their_mapped_pages() {
    let entry = VmarEntry::Region {
        range: range(0, 0x10000),
        children: vec![
            VmarEntry::Guard(range(0, 0x1000)),
            VmarEntry::Mapping(range(0x1000, 0x3000)),
            VmarEntry::Region {
                range: range(0x4000, 0x8000),
                children: vec![VmarEntry::Mapping(range(0x5000, 0x6000))],
            },
        ],
    };
    let mut walk = PageWalk::over_entry(&entry);
    let mut seen = Vec::new();
    while let Some(page) = walk.next_page() {
        seen.push(page);
        walk.record(Err(ObjectError::ObjectNotFound));
    }
    assert_eq!(seen, vec![0x1000, 0x2000, 0x5000]);
    assert_eq!(walk.finish(), Ok(()));
}

#[test]
fn walks_stop_at_the_first_failure() {
    let mut walk = PageWalk::over_mapping(range(0x1000, 0x4000), false);
    walk.record(Ok(()));
    assert_eq!(walk.next_page(), Some(0x2000));
    walk.record(Err(ObjectError::ObjectNotFound));
    assert_eq!(walk.next_page(), None);
    assert_eq!(walk.finish(), Err(ObjectError::ObjectNotFound));
    let mut protect = PageWalk::over_protection(range(0x1000, 0x3000));
    protect.record(Err(ObjectError::ObjectNotFound));
    assert_eq!(protect.finish(), Err(ObjectError::ObjectNotFound));
    let mut paged = PageWalk::over_mapping(range(0x1000, 0x3000), true);
    paged.record(Err(ObjectError::ObjectNotFound));
    assert_eq!(paged.next_page(), Some(0x2000));
    paged.record(Err(ObjectError::InvalidArgument));
    assert_eq!(paged.finish(), Err(ObjectError::InvalidArgument));
}

#[test]
fn pages_get_frames_only_from_plain_objects() {
    let plain = PageState { resident: false, pager_backed: false, child: false, paged: true };
    assert_eq!(ensure_mapping_page_backed(plain), BackingPlan::Allocate);
    assert_eq!(
        ensure_mapping_page_backed(PageState { resident: true, ..plain }),
        BackingPlan::Resident
    );
    let refused = BackingPlan::Refuse(ObjectError::ObjectNotFound);
    assert_eq!(ensure_mapping_page_backed(PageState { child: true, ..plain }), refused);
    assert_eq!(ensure_mapping_page_backed(PageState { pager_backed: true, ..plain }), refused);
    assert_eq!(ensure_mapping_page_backed(PageState { paged: false, ..plain }), refused);
    let keep = FrameStep::after_alloc(Some(1));
    assert_eq!(keep, FrameStep::Keep(1));
    let refused = FrameStep::Done(Err(ObjectError::InvalidArgument));
    assert_eq!(FrameStep::after_alloc(None), refused);
    assert_eq!(keep.after_keep(false), refused);
    let look_up = keep.after_keep(true);
    assert_eq!(look_up, FrameStep::LookUp);
    assert_eq!(look_up.after_look_up(Some(9)), FrameStep::Done(Ok(9)));
    let gone = FrameStep::Done(Err(ObjectError::ObjectNotFound));
    assert_eq!(look_up.after_look_up(None), gone);
    assert_eq!(refused.after_keep(true).after_look_up(Some(9)), refused);
    assert_eq!(install_mapping_page_in_page_table(Ok(true)), EntryPlan::Rewrite);
    assert_eq!(
        install_mapping_page_in_page_table(Ok(false)),
        EntryPlan::Refuse(ObjectError::InvalidArgument)
    );
    assert_eq!(install_mapping_page_in_page_table(Err(PagingError::NotMapped)), EntryPlan::MapPage);
}

#[test]
fn failed_mapping_is_undone() {
    let step = ChangeStep::vmar_map().next(Ok(())).next(Ok(()));
    let step = step.next(page_failure(Err(ObjectError::ObjectNotFound)));
    assert!(matches!(
        step,
        ChangeStep::Undo(ObjectOrUnderlyingError::Underlying(VmError::NotMapped))
    ));
    assert!(matches!(
        step.next(Ok(())),
        ChangeStep::Done(Err(ObjectOrUnderlyingError::Underlying(VmError::NotMapped)))
    ));
    let kept = ChangeStep::vmar_protect().next(Ok(())).next(page_failure(Ok(())));
    assert!(matches!(kept, ChangeStep::Done(Ok(()))));
    let early = ChangeStep::vmar_map()
        .next(Err(ObjectOrUnderlyingError::Object(ObjectError::InsufficientCapabilities)));
    assert!(matches!(
        early,
        ChangeStep::Done(Err(ObjectOrUnderlyingError::Object(
            ObjectError::InsufficientCapabilities
        )))
    ));
}

#[test]
fn faults_are_classified() {
    let plan = |region, write| resolve_user_fault(0x10, write, region);
    for (region, kind) in [
        (VmPointerRegion::Unmapped, ProcessPageFaultKind::NotMapped),
        (VmPointerRegion::GuardPage, ProcessPageFaultKind::GuardPage),
        (VmPointerRegion::Static, ProcessPageFaultKind::StaticLayout),
        (VmPointerRegion::Reserved, ProcessPageFaultKind::ReservedRange),
        (
            VmPointerRegion::Mapping(VmFaultResolution::ProtectionDenied),
            ProcessPageFaultKind::ProtectionDenied,
        ),
        (
            VmPointerRegion::Mapping(VmFaultResolution::Unresolved),
            ProcessPageFaultKind::UnresolvedMapping,
        ),
        (
            VmPointerRegion::Mapping(VmFaultResolution::InvalidRange),
            ProcessPageFaultKind::InvalidMappingRange,
        ),
    ] {
        let FaultPlan::Done(ProcessUserFaultResolution::Terminate(fault)) = plan(region, true)
        else {
            panic!("nothing helps here");
        };
        assert_eq!((fault.kind, fault.addr), (kind, 0x10));
    }
    let retry = VmPointerRegion::Mapping(VmFaultResolution::RetryAfterMap);
    assert_eq!(plan(retry, false), FaultPlan::InstallPage);
    let private = VmPointerRegion::Mapping(VmFaultResolution::PrivateCow);
    assert_eq!(plan(private, true), FaultPlan::CopyPage);
    assert!(matches!(plan(private, false), FaultPlan::Done(ProcessUserFaultResolution::Terminate(_))));
    let paged = VmPointerRegion::Mapping(VmFaultResolution::PagerBacked);
    let FaultPlan::Done(ProcessUserFaultResolution::Block(fault)) = plan(paged, false) else {
        panic!("a pager is waited for");
    };
    let ask = PagerStep::service_pager_fault(fault);
    assert_eq!(ask, PagerStep::Ask);
    assert_eq!(ask.advance(false), PagerStep::Done(FaultAttempt::Paged(false)));
    assert_eq!(ask.advance(true), PagerStep::Install);
    assert_eq!(PagerStep::Install.advance(true), PagerStep::Done(FaultAttempt::Paged(true)));
    let lost = Err(ObjectError::ObjectNotFound);
    assert!(matches!(after_install(Ok(())), Ok(ProcessUserFaultResolution::Resume)));
    assert!(after_install(lost).is_err());
    let copy = CopyStep::service_private_cow_fault(1, Some(0x40));
    assert_eq!(copy, CopyStep::Copy(0x40));
    assert_eq!(copy.after_copy(1, true), CopyStep::Install);
    assert_eq!(
        CopyStep::Install.after_copy(1, true),
        CopyStep::Done(ProcessUserFaultResolution::Resume)
    );
    for given_up in [
        CopyStep::service_private_cow_fault(1, None),
        copy.after_copy(1, false),
        CopyStep::Install.after_copy(1, false),
    ] {
        let CopyStep::Done(ProcessUserFaultResolution::Terminate(fault)) = given_up else {
            panic!("nothing was copied");
        };
        assert_eq!((fault.kind, fault.addr), (ProcessPageFaultKind::PrivateCow, 1));
    }
}

#[test]
fn images_slide_into_their_segment() {
    let image = ImageLayout { image_base: 0x1000, image_end: 0x5000, entry_point: 0x1100 };
    assert_eq!(bootstrap_slide(image, 0x40_0000, 0x80_0000), Ok(0x3f_f000));
    assert_eq!(bootstrap_slide(image, 0x40_0000, 0x40_0100), Err(ExecutableDefect::DoesNotFit));
    assert_eq!(bootstrap_slide(image, 0x800, 0x80_0000), Ok(0));
    let huge = ImageLayout { image_end: usize::MAX, ..image };
    assert_eq!(bootstrap_slide(huge, 0x40_0000, 0x80_0000), Err(ExecutableDefect::EndOverflow));
    let info = load_info(image, 0x3f_f000).unwrap();
    assert_eq!((info.entry_ip, info.image_base, info.image_end), (0x40_0100, 0x40_0000, 0x40_4000));
    let lost = ImageLayout { entry_point: usize::MAX, ..image };
    assert_eq!(load_info(lost, 1), Err(ExecutableDefect::EntryOverflow));
    let base = ImageLayout { image_base: usize::MAX, ..image };
    assert_eq!(load_info(base, 1), Err(ExecutableDefect::BaseOverflow));
    assert_eq!(load_info(huge, 1), Err(ExecutableDefect::EndOverflow));
}

#[test]
fn segments_are_whole_pages() {
    assert_eq!(page_align_up(0), Ok(0));
    assert_eq!(page_align_up(1), Ok(0x1000));
    assert_eq!(page_align_up(0x1000), Ok(0x1000));
    assert_eq!(page_align_up(usize::MAX), Err(ExecutableDefect::AlignmentOverflow));
    let plan = map_bootstrap_segment(0x2000, 0x1001, 0x1000).unwrap();
    assert_eq!((plan.range.start(), plan.range.end(), plan.size), (0x3000, 0x5000, 0x2000));
    assert_eq!(map_bootstrap_segment(0x2001, 1, 0), Err(ExecutableDefect::SegmentUnaligned));
    assert_eq!(map_bootstrap_segment(0x2000, 0, 0), Err(ExecutableDefect::SegmentUnaligned));
    assert_eq!(
        map_bootstrap_segment(usize::MAX, 1, 1),
        Err(ExecutableDefect::SegmentAddressOverflow)
    );
    assert_eq!(
        map_bootstrap_segment(usize::MAX - 0xfff, 0x1001, 0),
        Err(ExecutableDefect::SegmentRangeOverflow)
    );
    assert_eq!(segment_contents(&vec![7, 8], 4), vec![7, 8, 0, 0]);
    let flags = mapping_flags(SegmentProtections { read: true, write: false, execute: true });
    assert!(flags.user && flags.read && flags.execute && !flags.write);
    assert_eq!(check_image_source(0, true), Err(ExecutableDefect::Empty));
    assert_eq!(check_image_source(4, false), Err(ExecutableDefect::Unreadable));
    assert_eq!(check_image_source(4, true), Ok(()));
    let not_mapped = RebaseStep::Done(Err(RebaseError::NotMapped));
    assert_eq!(RebaseStep::rebase_access(None), not_mapped);
    assert_eq!(not_mapped.after_copy(true), not_mapped);
    assert_eq!(
        RebaseStep::rebase_access(Some(None)),
        RebaseStep::Done(Err(RebaseError::NotTranslated))
    );
    let copy = RebaseStep::rebase_access(Some(Some(1)));
    assert_eq!(copy, RebaseStep::Copy(1));
    assert_eq!(copy.after_copy(false), RebaseStep::Done(Err(RebaseError::NotCopied)));
    assert_eq!(copy.after_copy(true), RebaseStep::Done(Ok(1)));
    assert_eq!(BootstrapLoadError::Link.process_load_error(), ProcessLoadError::InvalidImage);
    assert_eq!(
        BootstrapLoadError::Object(ObjectError::InvalidArgument).process_load_error(),
        ProcessLoadError::MappingFailed
    );
}

fn abi() -> BootstrapUserAbi {
    BootstrapUserAbi {
        entry_point: 0x40_0100,
        process_self_slot: 0,
        root_ns_slot: 1,
        root_vmar_slot: 2,
        heap_vmar_slot: 3,
        mapped_vmar_slot: 4,
        syscall_table_slot: 5,
        page_size: 4096,
        heap_base: 0x1000_0000,
        heap_limit: 0x2000_0000,
    }
}

fn tags() -> AuxTags {
    AuxTags {
        null: 0,
        page_size: 6,
        entry: 9,
        process_self: 0x100,
        root_ns: 0x101,
        root_vmar: 0x102,
        syscall_table: 0x103,
        native_page_size: 0x104,
        heap_vmar: 0x105,
        mapped_vmar: 0x106,
        heap_base: 0x107,
        heap_limit: 0x108,
    }
}

#[test]
fn first_stack_can_be_read_back() {
    let base = 0x7fff_0000u64;
    let stack = build_bootstrap_stack(base, 0x1000, &abi(), &tags()).unwrap();
    assert_eq!(stack.pointer % 16, 0);
    assert_eq!(stack.pointer, base + 0xf10);
    let at = (stack.pointer - base) as usize;
    let word = |k: usize| {
        let mut bytes = [0u8; 8];
        bytes.copy_from_slice(&stack.bytes[at + 8 * k..at + 8 * k + 8]);
        u64::from_le_bytes(bytes)
    };
    assert_eq!(word(0), 1);
    let name = (word(1) - base) as usize;
    assert_eq!(&stack.bytes[name..], b"bootstrap\0");
    assert_eq!((word(2), word(3)), (0, 0));
    let pairs: Vec<(u64, u64)> = (2..14).map(|k| (word(2 * k), word(2 * k + 1))).collect();
    assert_eq!(
        pairs,
        vec![
            (6, 4096),
            (9, 0x40_0100),
            (0x100, 0),
            (0x101, 1),
            (0x102, 2),
            (0x103, 5),
            (0x104, 4096),
            (0x105, 3),
            (0x106, 4),
            (0x107, 0x1000_0000),
            (0x108, 0x2000_0000),
            (0, 0),
        ]
    );
    assert!(stack.bytes[..at].iter().all(|&byte| byte == 0));
}

#[test]
fn first_stack_needs_room() {
    let build = |base, size| build_bootstrap_stack(base, size, &abi(), &tags()).err();
    assert_eq!(build(0, 9), Some(ExecutableDefect::StackTooSmall));
    assert_eq!(build(0, 233), Some(ExecutableDefect::ArgumentsDoNotFit));
    assert_eq!(build(0, 234), None);
    assert_eq!(build(u64::MAX, 0x1000), Some(ExecutableDefect::ArgumentPointerOverflow));
}

fn sources() -> BootstrapSources {
    BootstrapSources {
        heap_range: Ok(range(0x6000, 0x7000)),
        root_ns: handle(11),
        heap: Ok(()),
        heap_owner: handle(13),
        mapped: Ok(()),
        mapped_owner: handle(14),
        syscall_table: handle(15),
    }
}

fn user_process() -> Process {
    let mut process = process(1);
    process.self_handle = Some(Handle {
        capabilities: rights(true, true, true, false),
        interface_caps: u32::MAX,
        ..handle(10)
    });
    process.root_vmar = Some(handle(12));
    process
}

#[test]
fn first_handles_take_the_first_slots() {
    let mut process = user_process();
    process.handles.install_handle(1, handle(99));
    let abi = install_bootstrap_handles(&mut process, 5, sources(), &VM, 0x8).ok().unwrap();
    assert_eq!((abi.process_self_slot, abi.root_ns_slot, abi.syscall_table_slot), (0, 2, 6));
    assert_eq!((abi.entry_point, abi.page_size), (5, 4096));
    assert_eq!((abi.heap_base, abi.heap_limit), (0x6000, 0x7000));
    let read = rights(true, false, false, false);
    let change = rights(true, true, false, false);
    for (slot, object, capabilities, interface_caps) in [
        (0, 10, read, 0x8),
        (2, 11, read, 0),
        (3, 12, read, 0x200),
        (4, 13, change, 0x200),
        (5, 14, change, 0x200),
        (6, 15, read, 0),
    ] {
        let expected = Handle { capabilities, interface_caps, ..handle(object) };
        assert_eq!(process.handles.get(slot), Some(expected));
    }
    assert!(process.anon_objects.contains(13) && process.anon_objects.contains(14));
}

#[test]
fn refused_first_handle_installs_none() {
    let lost = ObjectError::ObjectNotFound;
    let denied = ObjectError::InsufficientCapabilities;
    let install = |process: &mut Process, sources| {
        install_bootstrap_handles(process, 5, sources, &VM, 0x8).err().unwrap()
    };
    let vm = || ObjectOrUnderlyingError::Underlying(VmError::InvalidRange);
    let mut plain = process(1);
    let early = BootstrapSources { heap_range: Err(vm()), ..sources() };
    assert!(matches!(
        install(&mut plain, early),
        BootstrapLoadError::Vm(ObjectOrUnderlyingError::Underlying(VmError::InvalidRange))
    ));
    let told = install(&mut plain, sources());
    assert!(matches!(told, BootstrapLoadError::Object(error) if error == lost));
    let mut process = user_process();
    let no_ns = BootstrapSources { root_ns: closed(handle(11)), ..sources() };
    let told = install(&mut process, no_ns);
    assert!(matches!(told, BootstrapLoadError::Object(error) if error == denied));
    let no_heap = BootstrapSources { heap: Err(vm()), ..sources() };
    let told = install(&mut process, no_heap);
    assert!(matches!(told, BootstrapLoadError::Object(ObjectError::InvalidArgument)));
    assert!(!process.anon_objects.contains(13));
    let no_mapped = BootstrapSources { mapped_owner: closed(handle(14)), ..sources() };
    let told = install(&mut process, no_mapped);
    assert!(matches!(told, BootstrapLoadError::Object(error) if error == denied));
    assert!(process.anon_objects.contains(13) && !process.anon_objects.contains(14));
    let no_table = BootstrapSources { syscall_table: closed(handle(15)), ..sources() };
    let told = install(&mut process, no_table);
    assert!(matches!(told, BootstrapLoadError::Object(error) if error == denied));
    assert!(process.anon_objects.contains(14));
    assert_eq!(process.handles.get(0), None);
    process.root_vmar = None;
    let told = install(&mut process, sources());
    assert!(matches!(told, BootstrapLoadError::Object(error) if error == lost));
}

#[test]
fn kernel_stack_regions_follow_the_fallback_stacks() {
    let segment = KernelStackSegment { start: 0x1_0000_0000, end: 0x1_1000_0000, cpu_count: 2 };
    let first = segment.kernel_stack_root_range(1).unwrap();
    let second = segment.kernel_stack_root_range(2).unwrap();
    assert_eq!(first.start(), 0x1_0000_a000);
    assert_eq!(first.end(), second.start());
    assert_eq!(second.len(), 64 * 1024 * 1024);
    assert!(segment.kernel_stack_root_range(0).is_none());
    assert!(segment.kernel_stack_root_range(4).is_none());
    assert!(segment.kernel_stack_root_range(u64::MAX).is_none());
}

#[test]
fn stacks_are_sized_and_placed() {
    let sizes = stack_sizes(8).unwrap();
    assert_eq!((sizes.mapped, sizes.reserved), (0x8000, 0x9000));
    assert_eq!(stack_sizes(usize::MAX), Err(ObjectError::InvalidArgument));
    let layout = allocate_stack_slot(Some(range(0x10000, 0x19000)), 0x8000).unwrap();
    assert_eq!((layout.stack.start(), layout.top()), (0x11000, 0x19000));
    assert_eq!(allocate_stack_slot(None, 0x8000), Err(ObjectError::InvalidArgument));
    let kernel = KernelStack::new(range(0x10000, 0x19000), 3, layout.stack);
    assert_eq!(kernel.prepare_kernel_entry_stack(), 0x18ff8);
    assert!(kernel.contains_stack_pointer(0x18ff8));
    assert!(!kernel.contains_stack_pointer(0x10000));
    let user = UserStackAllocation::new(range(0x10000, 0x19000), 3, layout.stack);
    assert_eq!((user.top(), user.vmo(), user.mapped_range()), (0x19000, 3, layout.stack));
}

#[test]
fn stack_mapping_is_undone_on_failure() {
    let lost = ObjectError::ObjectNotFound;
    let step = StackStep::Apply.install_stack_mapping(Ok(())).install_stack_mapping(Err(lost));
    assert_eq!(step, StackStep::Undo(lost));
    assert_eq!(step.install_stack_mapping(Ok(())), StackStep::Done(Err(lost)));
    assert_eq!(
        StackStep::Apply.install_stack_mapping(Err(lost)),
        StackStep::Done(Err(ObjectError::InvalidArgument))
    );
    let bad = ObjectError::InvalidArgument;
    let mut step = UnstackStep::Pages;
    for next in [UnstackStep::Mapping, UnstackStep::Slot, UnstackStep::Done(Ok(()))] {
        step = step.uninstall_stack_mapping(Ok(()));
        assert_eq!(step, next);
    }
    let failed = |step: UnstackStep| step.uninstall_stack_mapping(Err(bad));
    assert_eq!(failed(UnstackStep::Pages), UnstackStep::Done(Err(bad)));
    assert_eq!(failed(UnstackStep::Mapping), UnstackStep::Done(Err(lost)));
    assert_eq!(failed(UnstackStep::Slot), UnstackStep::Done(Err(lost)));
    assert_eq!(failed(UnstackStep::Done(Ok(()))), UnstackStep::Done(Ok(())));
}

#[test]
fn ports_are_made_with_their_rights() {
    let mut process = process(1);
    assert_eq!(PortObject::Unicast.interface_caps(), 0x53);
    assert_eq!(PortObject::Broadcast.interface_caps(), 0x4f);
    assert_eq!(PortObject::Bus.interface_caps(), 0x184c);
    assert_eq!(PortObject::Reply.interface_caps(), 0x43);
    assert!(PortObject::Bus.capability().write);
    assert!(!PortObject::Reply.capability().write);
    assert_eq!(
        process.create_port(PortObject::Unicast, Err(PortBindError::AlreadyBound), handle(1)),
        Err(ObjectError::InvalidArgument)
    );
    assert!(!process.anon_objects.contains(1));
    let bus = Handle {
        capabilities: rights(true, true, true, true),
        interface_caps: 0x184c,
        ..handle(1)
    };
    assert_eq!(process.create_port(PortObject::Bus, Ok(()), handle(1)), Ok(bus));
    let reply = process.create_port(PortObject::Reply, Ok(()), handle(2)).unwrap();
    assert_eq!(reply.capabilities, rights(true, false, true, true));
    assert_eq!(
        process.create_port(PortObject::Broadcast, Ok(()), closed(handle(3))),
        Err(ObjectError::InsufficientCapabilities)
    );
    assert!(!process.anon_objects.contains(3));
    assert!(process.anon_objects.contains(1));
}

#[test]
fn memory_objects_follow_their_handles() {
    let mut process = process(1);
    let lost = ObjectError::ObjectNotFound;
    assert!(process
        .create_child_object(Err(lost), MemoryObject::Vmo, &VM, handle(1))
        .is_err());
    assert!(!process.anon_objects.contains(1));
    for (object, caps) in [(MemoryObject::Vmo, 0x100), (MemoryObject::Vmar, 0x200)] {
        let made = process.create_child_object(Ok(Ok(())), object, &VM, handle(1)).ok().unwrap();
        assert_eq!(made.capabilities, rights(true, true, true, false));
        assert_eq!((made.object, made.interface_caps), (1, caps));
    }
    assert!(process.anon_objects.contains(1));
    assert_eq!(
        process.derive_segment_vmar_handle(
            Err(ObjectOrUnderlyingError::Underlying(VmError::NotMapped)),
            handle(1),
            &VM
        ),
        Err(ObjectError::InvalidArgument)
    );
    let segment = process.derive_segment_vmar_handle(Ok(()), handle(7), &VM).unwrap();
    assert_eq!(segment.capabilities, segment_rights());
    assert!(!segment.capabilities.execute && segment.capabilities.write);
    assert_eq!((segment.object, segment.interface_caps), (7, 0x200));
    process.handles.install_handle(4, handle(1));
    assert_eq!(process.destroy_vmar(5, Ok(Ok(()))), Err(lost));
    assert_eq!(process.destroy_vmar(4, Ok(Err(lost))), Err(lost));
    assert_eq!(process.destroy_vmar(4, Ok(Ok(()))), Ok(()));
    assert!(!process.anon_objects.contains(1));
    let entry = || VmarEntry::Guard(range(0, 1));
    let removed = UnmapStep::vmar_unmap(Ok(Ok(entry())));
    assert!(matches!(removed, UnmapStep::Pages(VmarEntry::Guard(_))));
    assert!(matches!(removed.finish_unmap(Ok(())), UnmapStep::Done(Ok(_))));
    assert!(matches!(
        UnmapStep::vmar_unmap(Ok(Ok(entry()))).finish_unmap(Err(lost)),
        UnmapStep::Done(Err(ObjectOrUnderlyingError::Underlying(VmError::NotMapped)))
    ));
    let kept = UnmapStep::vmar_unmap(Err(lost));
    assert!(matches!(kept, UnmapStep::Done(Err(ObjectOrUnderlyingError::Object(_)))));
    assert!(matches!(kept.finish_unmap(Ok(())), UnmapStep::Done(Err(_))));
}

const ABI: ProcessAbi =
    ProcessAbi { query: 1, inherit_handle: 2, derive_segment_vmar: 4, abort: 8, wait: 16 };

#[test]
fn read_plane_shows_the_phase() {
    let process = process(1);
    let creating = ProcessControl::new_creating(1);
    let guard = ProcessControlReadGuard { control: creating, interface_caps: 1 };
    let query = Some(ProcessMethod::QueryPhase);
    assert_eq!(guard.dispatch(&ABI, query, &process), Ok(ProcessObjectPhase::Creating));
    let live = ProcessControlReadGuard { control: ProcessControl::new_live(1), interface_caps: u32::MAX };
    assert_eq!(live.dispatch(&ABI, query, &process), Ok(ProcessObjectPhase::Live));
    assert_eq!(live.dispatch(&ABI, None, &process), Err(ObjectError::InvalidArgument));
    let denied = Err(ObjectError::InsufficientCapabilities);
    assert_eq!(live.dispatch(&ABI, Some(ProcessMethod::Wait), &process), denied);
    let poor = ProcessControlReadGuard { control: creating, interface_caps: 2 };
    assert_eq!(poor.dispatch(&ABI, query, &process), denied);
    assert_eq!(
        ProcessControlUnsupportedGuard.dispatch(query),
        ObjectError::InsufficientCapabilities
    );
}

#[test]
fn write_plane_serves_the_creator_alone() {
    let mut process = process(1);
    process.initialize_creation_state(handle(9));
    let arguments = WriteArguments {
        inherit: Some(InheritRequest {
            capability: Some(Capability::none()),
            interface_caps: 2,
            source: Ok(handle(4)),
            target_slot: Some(3),
        }),
        segment: Some(ProcessVmSegment::UserStack),
    };
    let creator = ProcessControlWriteGuard {
        control: ProcessControl::new_creating(1),
        interface_caps: 6,
    };
    let live = ProcessControlWriteGuard { control: ProcessControl::new_live(1), interface_caps: 6 };
    let inherit = Some(ProcessMethod::InheritHandle);
    let derive = Some(ProcessMethod::DeriveSegmentVmar);
    assert_eq!(
        live.dispatch(&ABI, inherit, arguments, &mut process),
        Err(ObjectError::InvalidArgument)
    );
    assert_eq!(process.handles.get(3), None);
    assert_eq!(
        creator.dispatch(&ABI, inherit, arguments, &mut process),
        Ok(ProcessWriteReply::Slot(3))
    );
    let passed = Handle { capabilities: Capability::none(), interface_caps: 2, ..handle(4) };
    assert_eq!(process.handles.get(3), Some(passed));
    assert_eq!(
        creator.dispatch(&ABI, derive, arguments, &mut process),
        Ok(ProcessWriteReply::Segment(VmLayoutSegment::UserStack))
    );
    let unread = WriteArguments { inherit: None, segment: None };
    let bad = Err(ObjectError::InvalidArgument);
    assert_eq!(creator.dispatch(&ABI, inherit, unread, &mut process), bad);
    assert_eq!(creator.dispatch(&ABI, derive, unread, &mut process), bad);
    assert_eq!(
        creator.dispatch(&ABI, Some(ProcessMethod::QueryPhase), unread, &mut process),
        Err(ObjectError::InsufficientCapabilities)
    );
}

#[test]
fn admin_plane_aborts_and_waits() {
    let mut process = process(1);
    process.initialize_creation_state(handle(9));
    let creator = ProcessControlAdminGuard {
        control: ProcessControl::new_creating(1),
        interface_caps: u32::MAX,
    };
    let live = ProcessControlAdminGuard {
        control: ProcessControl::new_live(1),
        interface_caps: u32::MAX,
    };
    let abort = Some(ProcessMethod::AbortCreation);
    let wait = Some(ProcessMethod::Wait);
    assert!(matches!(
        creator.dispatch(&ABI, wait, 5, &mut process),
        Ok(ProcessAdminReply::Wait(WaitStep::Done(Err(ProcessWaitError::InvalidState))))
    ));
    assert!(matches!(
        live.dispatch(&ABI, wait, 5, &mut process),
        Ok(ProcessAdminReply::Wait(WaitStep::Listen(Some(_))))
    ));
    assert!(matches!(
        live.dispatch(&ABI, abort, 0, &mut process),
        Err(ObjectError::InsufficientCapabilities)
    ));
    assert!(matches!(
        creator.dispatch(&ABI, abort, 0, &mut process),
        Ok(ProcessAdminReply::Aborted(_))
    ));
    assert!(matches!(
        creator.dispatch(&ABI, abort, 0, &mut process),
        Err(ObjectError::ObjectDestroyed)
    ));
    assert!(matches!(creator.dispatch(&ABI, None, 0, &mut process), Err(ObjectError::InvalidArgument)));
}

#[test]
fn supervisors_do_not_touch_the_process() {
    let mut process = process(1);
    process.handles.install_handle(0, handle(1));
    let supervisor = ProcessControl::new_supervisor(1);
    let denied = ObjectError::InsufficientCapabilities;
    assert_eq!(supervisor.handle_control().close_handle(&mut process, 0), Err(denied));
    let none = Capability::none();
    assert_eq!(
        supervisor.handle_control().derive_handle(&mut process, 0, none, 0),
        Err(denied)
    );
    assert_eq!(
        supervisor.task_control().spawn_user_task(&process, START, good_probes()),
        Err(SpawnError::Object(denied))
    );
    assert!(supervisor.mailbox_control().supervisor_only);
    let live = ProcessControl::new_live(1);
    assert_eq!(live.handle_control().derive_handle(&mut process, 0, none, 0), Ok(1));
    assert_eq!(live.handle_control().close_handle(&mut process, 0), Ok(()));
    assert_eq!(live.task_control().spawn_user_task(&process, START, good_probes()), Ok(()));
    assert_eq!(
        live.load_control().load_image_vmo(&mut process, Ok(IMAGE)),
        Err(ProcessLoadError::InvalidState)
    );
    let creating = ProcessControl::new_creating(1);
    assert_eq!(creating.load_control().load_image_vmo(&mut process, Ok(IMAGE)), Ok(IMAGE));
    assert_eq!(process.loaded_image, Some(IMAGE));
    assert_eq!(
        creating.load_control().load_image_vmo(&mut process, Err(BootstrapLoadError::Image)),
        Err(ProcessLoadError::InvalidImage)
    );
    assert_eq!(
        live.load_control().spawn_initial_task(&mut process, 0),
        Err(ProcessSpawnError::InvalidState)
    );
}

#[test]
fn range_operations_are_planned() {
    let commit = VmoRangePlan { writes: true, purpose: Some(VmoPagePurpose::Anonymous) };
    assert_eq!(VmoOpRangeOperation::Commit.plan(), commit);
    let change = VmoRangePlan { writes: true, purpose: None };
    assert_eq!(VmoOpRangeOperation::Decommit.plan(), change);
    assert_eq!(VmoOpRangeOperation::Zero.plan(), change);
    let query = VmoRangePlan { writes: false, purpose: None };
    assert_eq!(VmoOpRangeOperation::QueryCommitted.plan(), query);
    assert!(matches!(vmo_op_range(Ok(Ok(0x2000))), Ok(0x2000)));
    assert!(matches!(
        vmo_op_range(Ok(Err(VSpaceError::InvalidRange))),
        Err(ObjectOrUnderlyingError::Underlying(VmError::InvalidRange))
    ));
    assert!(matches!(
        vmo_op_range(Err(ObjectError::ObjectNotFound)),
        Err(ObjectOrUnderlyingError::Object(ObjectError::ObjectNotFound))
    ));
}

#[test]
fn address_space_needs_room_for_kernel_stacks() {
    let stacks = KernelStackSegment { start: 0x1_0000_0000, end: 0x1_1000_0000, cpu_count: 2 };
    let mut far = process(9);
    assert!(matches!(
        far.bootstrap_vm_objects(&stacks, Ok(()), handle(1), 0x9000),
        Err(ObjectOrUnderlyingError::Underlying(VmError::InvalidRange))
    ));
    let mut near = process(1);
    assert!(matches!(
        near.bootstrap_vm_objects(&stacks, Err(VSpaceError::AlreadyMapped), handle(1), 0x9000),
        Err(ObjectOrUnderlyingError::Underlying(VmError::AlreadyMapped))
    ));
    assert_eq!(near.root_vmar, None);
    assert!(matches!(near.bootstrap_vm_objects(&stacks, Ok(()), handle(1), 0x9000), Ok(0x9000)));
    assert_eq!((near.root_vmar, near.address_space_root), (Some(handle(1)), Some(0x9000)));
}

#[test]
fn process_keeps_tasks_and_handles() {
    let mut process = process(1);
    assert_eq!(process.name(), "demo");
    assert_eq!(process.register_task(4), Ok(()));
    assert!(process.owns_task_id(4));
    assert_eq!(process.unregister_task(4), Ok(()));
    assert_eq!(process.unregister_task(4), Err(ObjectError::ObjectNotFound));
    assert_eq!(process.register_task(5), Ok(()));
    assert_eq!(process.task_count(), 1);
    let mut set = SchedulerSet::install(1);
    assert!(matches!(
        process.reap_task(&mut set, 5, TaskExit::Killed),
        Ok(ProcessReapAction::Detached)
    ));
    assert_eq!(process.install_handle(3, handle(1)), None);
    assert_eq!(process.install_handle(3, handle(2)), Some(handle(1)));
    assert_eq!(process.install_handle_auto(handle(4)), 0);
    assert_eq!(process.clone_handle(3), Ok(1));
    assert_eq!(process.acquire_handle(1), Ok(handle(2)));
    assert_eq!(process.take_handle(1), Ok(handle(2)));
    assert_eq!(process.close_handle(1), Err(ObjectError::ObjectNotFound));
    assert_eq!(process.close_handle(3), Ok(()));
    process.mark_terminating();
    assert_eq!(process.phase(), ProcessPhase::Terminating);
    process.mark_exited();
    assert_eq!(process.phase(), ProcessPhase::Exited);
    process.mark_running();
    assert_eq!((process.phase(), process.loaded_image()), (ProcessPhase::Running, None));
}

fn trap(reason: TrapReason, call: ExitingCall) -> UserEvent {
    UserEvent::Trap { reason, call }
}

const TURN: UserEvent = UserEvent::Turn { cancel_requested: false };

#[test]
fn turns_put_the_registers_back() {
    let mut run = UserRun::new(true);
    assert_eq!(run.run_user(TURN), UserAction::Enter);
    assert!(!run.has_context);
    let interrupt = trap(TrapReason::Interrupt(7), ExitingCall::Other);
    assert_eq!(run.run_user(interrupt), UserAction::Serve(7));
    assert_eq!(run.run_user(UserEvent::Served), UserAction::PutBack);
    assert_eq!((run.stage, run.has_context), (UserStage::Between, true));
    assert_eq!(run.run_user(TURN), UserAction::Enter);
    let call = trap(TrapReason::Syscall, ExitingCall::Other);
    assert_eq!(run.run_user(call), UserAction::Dispatch);
    let returned = UserEvent::Returned { succeeded: true, value: 3, delivery: None };
    assert_eq!(run.run_user(returned), UserAction::PutBackResult);
    assert_eq!(run.run_user(TURN), UserAction::Enter);
    assert_eq!(run.run_user(call), UserAction::Dispatch);
    let delivery = ServiceDelivery { usr_ip: 1, frame: 2 };
    let returned = UserEvent::Returned { succeeded: true, value: 3, delivery: Some(delivery) };
    assert_eq!(run.run_user(returned), UserAction::PutBackDelivery(delivery));
    assert!(run.has_context);
}

#[test]
fn turns_end_with_an_exit() {
    let mut cancelled = UserRun::new(true);
    let cancel = UserEvent::Turn { cancel_requested: true };
    assert_eq!(cancelled.run_user(cancel), UserAction::End(TaskExit::Cancelled));
    assert_eq!(cancelled.stage, UserStage::Ended(TaskExit::Cancelled));
    let mut bare = UserRun::new(false);
    assert_eq!(bare.run_user(TURN), UserAction::End(TaskExit::Killed));
    let mut leaving = UserRun::new(true);
    assert_eq!(leaving.run_user(TURN), UserAction::Enter);
    let exit = trap(TrapReason::Syscall, ExitingCall::ProcessExit);
    assert_eq!(leaving.run_user(exit), UserAction::Dispatch);
    let returned = UserEvent::Returned { succeeded: true, value: 9, delivery: None };
    assert_eq!(leaving.run_user(returned), UserAction::End(TaskExit::ProcessExited(9)));
    assert!(!leaving.has_context);
}

#[test]
fn page_faults_take_their_turn() {
    let fault = TrapReason::PageFault { addr: 0x5000, write: true };
    let paged = VmPointerRegion::Mapping(VmFaultResolution::PagerBacked);
    let FaultPlan::Done(block) = resolve_user_fault(0x5000, true, paged) else {
        panic!("a pager is waited for");
    };
    let mut run = UserRun::new(true);
    let mut enter = |run: &mut UserRun| {
        assert_eq!(run.run_user(TURN), UserAction::Enter);
        let resolve = UserAction::Resolve { addr: 0x5000, write: true };
        assert_eq!(run.run_user(trap(fault, ExitingCall::Other)), resolve);
    };
    enter(&mut run);
    let resumed = UserEvent::Resolved(Some(ProcessUserFaultResolution::Resume));
    assert_eq!(run.run_user(resumed), UserAction::PutBack);
    enter(&mut run);
    let blocked = UserEvent::Resolved(Some(block));
    assert!(matches!(run.run_user(blocked), UserAction::AskPager(_)));
    assert_eq!(run.run_user(UserEvent::Paged(true)), UserAction::PutBack);
    enter(&mut run);
    run.run_user(blocked);
    assert_eq!(run.run_user(UserEvent::Paged(false)), UserAction::End(TaskExit::Faulted));
    let mut lost = UserRun::new(true);
    enter(&mut lost);
    assert_eq!(lost.run_user(UserEvent::Resolved(None)), UserAction::End(TaskExit::Faulted));
}

#[test]
fn failed_segments_are_taken_out_again() {
    let lost: Result<(), ObjectError> = Err(ObjectError::ObjectNotFound);
    let entered = SegmentStep::Enter.install_segment(Ok(()));
    assert_eq!(entered, SegmentStep::Pages);
    let filled = entered.install_segment(Ok(()));
    assert_eq!(filled, SegmentStep::Contents);
    assert_eq!(filled.install_segment(Ok(())), SegmentStep::Done(Ok(())));
    assert_eq!(
        SegmentStep::Enter.install_segment(lost),
        SegmentStep::Done(Err(SegmentFailure::Mapping))
    );
    let pages = SegmentFailure::Pages(ObjectError::ObjectNotFound);
    assert_eq!(entered.install_segment(lost), SegmentStep::Remove(pages));
    assert_eq!(SegmentStep::Remove(pages).install_segment(lost), SegmentStep::Done(Err(pages)));
    assert_eq!(filled.install_segment(lost), SegmentStep::UnmapPages);
    assert_eq!(
        SegmentStep::UnmapPages.install_segment(lost),
        SegmentStep::Remove(SegmentFailure::Contents)
    );
    let ended = SegmentStep::Done(Ok(()));
    assert_eq!(ended.install_segment(lost), ended);
}

#[test]
fn segment_failures_name_their_cause() {
    assert!(matches!(
        SegmentFailure::Mapping.load_error(),
        BootstrapLoadError::InvalidExecutable(ExecutableDefect::SegmentMapping)
    ));
    assert!(matches!(
        SegmentFailure::Pages(ObjectError::InvalidArgument).load_error(),
        BootstrapLoadError::Object(ObjectError::InvalidArgument)
    ));
    assert!(matches!(
        SegmentFailure::Contents.load_error(),
        BootstrapLoadError::InvalidExecutable(ExecutableDefect::SegmentContents)
    ));
}

#[test]
fn images_load_segment_by_segment() {
    let image = ImageLayout { image_base: 0x1000, image_end: 0x5000, entry_point: 0x1200 };
    let mut load =
        ImageLoad::load_image_bytes(Ok((image, 2)), 0x40_0000, 0x80_0000).unwrap();
    assert_eq!((load.slide, load.stage), (0x3f_f000, LoadStage::Region));
    for stage in [LoadStage::Segment(0), LoadStage::Segment(1), LoadStage::Link] {
        assert!(matches!(load.advance(Ok(())), Ok(None)));
        assert_eq!(load.stage, stage);
    }
    let info = load.advance(Ok(())).unwrap().unwrap();
    assert_eq!(load.stage, LoadStage::Done);
    assert_eq!(
        info,
        ProcessLoadInfo {
            entry_ip: 0x40_0200,
            image_base: 0x40_0000,
            image_end: 0x40_4000,
            slide: 0x3f_f000,
        }
    );
}

#[test]
fn image_loads_stop_at_the_first_failure() {
    let image = ImageLayout { image_base: 0x1000, image_end: 0x5000, entry_point: usize::MAX };
    assert!(matches!(
        ImageLoad::load_image_bytes(Err(BootstrapLoadError::Image), 0x40_0000, 0x80_0000),
        Err(BootstrapLoadError::Image)
    ));
    assert!(matches!(
        ImageLoad::load_image_bytes(Ok((image, 1)), 0x40_0000, 0x40_0100),
        Err(BootstrapLoadError::InvalidExecutable(ExecutableDefect::DoesNotFit))
    ));
    let mut load =
        ImageLoad::load_image_bytes(Ok((image, 0)), 0x40_0000, 0x80_0000).unwrap();
    let mut linked = load;
    assert!(matches!(
        load.advance(Err(BootstrapLoadError::Link)),
        Err(BootstrapLoadError::Link)
    ));
    assert_eq!(load.stage, LoadStage::Done);
    assert!(matches!(linked.advance(Ok(())), Ok(None)));
    assert_eq!(linked.stage, LoadStage::Link);
    assert!(matches!(
        linked.advance(Ok(())),
        Err(BootstrapLoadError::InvalidExecutable(ExecutableDefect::EntryOverflow))
    ));
}

//! What the holder of a process object may do with the process.

use vstd::prelude::*;

use super::lifecycle::{
    InheritRequest, Process, ProcessHandleInstallError, ProcessLoadInfo, ProcessObjectPhase,
    ProcessVmSegment, ProcessVmarExtractError, ProcessWaitError, SpawnError, WaitStep,
};
use super::loader::{BootstrapLoadError, ProcessLoadError};
use super::tasks::ProcessPhase;
use crate::ipc::cap::{caps_cover, covers};
use crate::object::{has_free_slot, lowest_free, Capability, Handle, ObjectError};
use crate::sched::clock::wait_limit;
use crate::sched::user::{
    start_check, ProcessSpawnError, StartProbes, UserStart, VmLayoutSegment,
};

verus! {

/// What a process object was made for.
#[derive(Debug, Clone, Copy, PartialEq, Eq, Structural)]
pub enum ProcessControlMode {
    /// The creator's handle while the process is being created.
    Creating,
    /// A handle to a process that runs.
    Full,
    /// The creator's handle once the process runs.
    Supervisor,
}

/// Handle object of a process.
#[derive(Debug, Clone, Copy, PartialEq, Eq, Structural)]
pub struct ProcessControl {
    pub pid: u64,
    pub mode: ProcessControlMode,
}

impl ProcessControl {
    pub fn new_live(pid: u64) -> (control: Self)
        ensures
            control == (ProcessControl { pid, mode: ProcessControlMode::Full }),
    {
        ProcessControl { pid, mode: ProcessControlMode::Full }
    }

    pub fn new_creating(pid: u64) -> (control: Self)
        ensures
            control == (ProcessControl { pid, mode: ProcessControlMode::Creating }),
    {
        ProcessControl { pid, mode: ProcessControlMode::Creating }
    }

    pub fn new_supervisor(pid: u64) -> (control: Self)
        ensures
            control == (ProcessControl { pid, mode: ProcessControlMode::Supervisor }),
    {
        ProcessControl { pid, mode: ProcessControlMode::Supervisor }
    }

    pub fn process_id(&self) -> (pid: u64)
        ensures
            pid == self.pid,
    {
        self.pid
    }

    pub fn creating_only(&self) -> (creating: bool)
        ensures
            creating == (self.mode is Creating),
    {
        matches!(self.mode, ProcessControlMode::Creating)
    }

    pub fn supervisor_only(&self) -> (supervisor: bool)
        ensures
            supervisor == (self.mode is Supervisor),
    {
        matches!(self.mode, ProcessControlMode::Supervisor)
    }

    pub open spec fn visible_phase(&self, process: Process) -> ProcessObjectPhase {
        if self.mode is Creating {
            ProcessObjectPhase::Creating
        } else {
            process.visible_phase()
        }
    }

    /// Lifecycle of the process as this handle shows it.
    pub fn object_phase(&self, process: &Process) -> (phase: ProcessObjectPhase)
        ensures
            phase == self.visible_phase(*process),
    {
        if self.creating_only() {
            return ProcessObjectPhase::Creating;
        }
        process.object_phase()
    }

    /// The creator's view.
    pub fn load_control(&self) -> (control: LoadControl)
        ensures
            control == self.load(),
    {
        LoadControl::new(self.pid, self.creating_only(), self.supervisor_only())
    }

    pub open spec fn load(&self) -> LoadControl {
        LoadControl {
            pid: self.pid,
            creating_only: self.mode is Creating,
            supervisor_only: self.mode is Supervisor,
        }
    }

    pub fn handle_control(&self) -> (control: HandleControl)
        ensures
            control == (HandleControl {
                pid: self.pid,
                supervisor_only: self.mode is Supervisor,
            }),
    {
        HandleControl::new(self.pid, self.supervisor_only())
    }

    pub fn task_control(&self) -> (control: TaskControl)
        ensures
            control == (TaskControl { pid: self.pid, supervisor_only: self.mode is Supervisor }),
    {
        TaskControl::new(self.pid, self.supervisor_only())
    }

    pub fn mailbox_control(&self) -> (control: MailboxControl)
        ensures
            control == (MailboxControl {
                pid: self.pid,
                supervisor_only: self.mode is Supervisor,
            }),
    {
        MailboxControl::new(self.pid, self.supervisor_only())
    }

    /// The segment whose handle a creator asks for. Whatever is wrong is a bad
    /// argument.
    pub fn derive_segment_vmar_handle(&self, process: &Process, segment: ProcessVmSegment) -> (result:
        Result<VmLayoutSegment, ObjectError>)
        ensures
            result == (match self.load().segment_for(*process, segment) {
                Ok(layout) => Ok::<VmLayoutSegment, ObjectError>(layout),
                Err(_) => Err::<VmLayoutSegment, ObjectError>(ObjectError::InvalidArgument),
            }),
    {
        match self.load_control().derive_segment_vmar_handle(process, segment) {
            Ok(layout) => Ok(layout),
            Err(_) => Err(ObjectError::InvalidArgument),
        }
    }

    /// Whether a handle can be passed on through this handle.
    pub open spec fn passes_on(&self, process: Process, request: InheritRequest) -> bool {
        self.mode is Creating && process.creating_owner is Some && process.inheritable(request)
    }

    /// Passes a handle of the creator on to the process. Whatever is wrong is a
    /// bad argument.
    pub fn inherit_handle_from_caller(&self, process: &mut Process, request: InheritRequest) -> (
    result: Result<u32, ObjectError>)
        requires
            old(process).wf(),
            has_free_slot(old(process).handles@),
        ensures
            final(process).wf(),
            final(process).same_but_handles(*old(process)),
            match result {
                Ok(slot) => {
                    &&& self.passes_on(*old(process), request)
                    &&& final(process).handles@ == old(process).handles@.insert(
                        slot as u64,
                        request.derived()->Ok_0,
                    )
                    &&& match request.target_slot {
                        Some(target) => slot == target,
                        None => lowest_free(old(process).handles@, slot),
                    }
                },
                Err(error) => {
                    &&& final(process).handles@ == old(process).handles@
                    &&& error == ObjectError::InvalidArgument
                    &&& !self.passes_on(*old(process), request)
                },
            },
    {
        match self.load_control().inherit_handle_from_caller(process, request) {
            Ok(slot) => Ok(slot),
            Err(_) => Err(ObjectError::InvalidArgument),
        }
    }

    /// First step of a wait through this handle.
    pub open spec fn wait_step(&self, process: Process, timeout_ns: usize) -> WaitStep {
        if self.mode is Creating {
            WaitStep::Done(Err(ProcessWaitError::InvalidState))
        } else {
            match process.tasks.exit_code {
                Some(code) => WaitStep::Done(Ok(code)),
                None => if timeout_ns == 0 {
                    WaitStep::Done(Err(ProcessWaitError::WouldBlock))
                } else {
                    WaitStep::Listen(wait_limit(timeout_ns))
                },
            }
        }
    }

    /// Begins a wait for the end of the process, which a process that is being
    /// created does not have.
    pub fn wait(&self, process: &Process, timeout_ns: usize) -> (step: WaitStep)
        ensures
            step == self.wait_step(*process, timeout_ns),
    {
        if self.creating_only() {
            return WaitStep::Done(Err(ProcessWaitError::InvalidState));
        }
        process.wait_for_exit(timeout_ns)
    }
}

/// What the creator of a process may do through its handle.
#[derive(Debug, Clone, Copy, PartialEq, Eq, Structural)]
pub struct LoadControl {
    pub pid: u64,
    pub creating_only: bool,
    pub supervisor_only: bool,
}

impl LoadControl {
    pub fn new(pid: u64, creating_only: bool, supervisor_only: bool) -> (control: Self)
        ensures
            control == (LoadControl { pid, creating_only, supervisor_only }),
    {
        LoadControl { pid, creating_only, supervisor_only }
    }

    /// What a creator gets through this handle.
    pub open spec fn segment_for(&self, process: Process, segment: ProcessVmSegment) -> Result<
        VmLayoutSegment,
        ProcessVmarExtractError,
    > {
        if !(self.creating_only) || process.creating_owner is None {
            Err(ProcessVmarExtractError::InvalidState)
        } else {
            Ok(segment.layout())
        }
    }

    /// The segment whose handle a creator asks for.
    pub fn derive_segment_vmar_handle(&self, process: &Process, segment: ProcessVmSegment) -> (result:
        Result<VmLayoutSegment, ProcessVmarExtractError>)
        ensures
            result == self.segment_for(*process, segment),
    {
        if !self.creating_only {
            return Err(ProcessVmarExtractError::InvalidState);
        }
        process.derive_creating_segment_vmar_handle(segment)
    }

    /// Passes a handle of the creator on to the process.
    pub fn inherit_handle_from_caller(&self, process: &mut Process, request: InheritRequest) -> (
    result: Result<u32, ProcessHandleInstallError>)
        requires
            old(process).wf(),
            has_free_slot(old(process).handles@),
        ensures
            final(process).wf(),
            final(process).same_but_handles(*old(process)),
            match result {
                Ok(slot) => {
                    &&& self.creating_only
                    &&& old(process).creating_owner is Some
                    &&& old(process).inheritable(request)
                    &&& final(process).handles@ == old(process).handles@.insert(
                        slot as u64,
                        request.derived()->Ok_0,
                    )
                    &&& match request.target_slot {
                        Some(target) => slot == target,
                        None => lowest_free(old(process).handles@, slot),
                    }
                },
                Err(error) => {
                    &&& final(process).handles@ == old(process).handles@
                    &&& if !(self.creating_only) || old(process).creating_owner is None {
                        error == ProcessHandleInstallError::InvalidState
                    } else {
                        error == ProcessHandleInstallError::InvalidArgument && !old(process).inheritable(request)
                    }
                },
            },
    {
        if !self.creating_only {
            return Err(ProcessHandleInstallError::InvalidState);
        }
        process.inherit_handle_from_caller(request)
    }

    /// Stages an image that was loaded for the process.
    pub fn load_image_vmo(
        &self,
        process: &mut Process,
        loaded: Result<ProcessLoadInfo, BootstrapLoadError>,
    ) -> (result: Result<ProcessLoadInfo, ProcessLoadError>)
        ensures
            final(process).same_but_creation(*old(process)),
            final(process).creating_owner == old(process).creating_owner,
            final(process).tasks.phase == old(process).tasks.phase,
            if !(self.creating_only) {
                &&& result == Err::<ProcessLoadInfo, ProcessLoadError>(
                    ProcessLoadError::InvalidState,
                )
                &&& final(process).loaded_image == old(process).loaded_image
            } else {
                match loaded {
                    Ok(info) => {
                        &&& result == Ok::<ProcessLoadInfo, ProcessLoadError>(info)
                        &&& final(process).loaded_image == Some(info)
                    },
                    Err(error) => {
                        &&& result == Err::<ProcessLoadInfo, ProcessLoadError>(error.told())
                        &&& final(process).loaded_image == old(process).loaded_image
                    },
                }
            },
    {
        if !self.creating_only {
            return Err(ProcessLoadError::InvalidState);
        }
        match loaded {
            Ok(info) => {
                process.stage_loaded_image(info);
                Ok(info)
            },
            Err(error) => Err(error.process_load_error()),
        }
    }

    /// Takes the creation up to start the first task.
    pub fn spawn_initial_task(&self, process: &mut Process, entry: usize) -> (result: Result<
        (Handle, usize),
        ProcessSpawnError,
    >)
        ensures
            final(process).same_but_creation(*old(process)),
            final(process).loaded_image == old(process).loaded_image,
            final(process).tasks.phase == old(process).tasks.phase,
            if !(self.creating_only) {
                &&& result == Err::<(Handle, usize), ProcessSpawnError>(
                    ProcessSpawnError::InvalidState,
                )
                &&& final(process).creating_owner == old(process).creating_owner
            } else {
                &&& final(process).creating_owner is None
                &&& result == (match (old(process).creating_owner, old(process).loaded_image) {
                    (Some(owner), Some(_)) => Ok::<(Handle, usize), ProcessSpawnError>(
                        (owner, old(process).initial_entry(entry)),
                    ),
                    _ => Err::<(Handle, usize), ProcessSpawnError>(ProcessSpawnError::InvalidState),
                })
            },
    {
        if !self.creating_only {
            return Err(ProcessSpawnError::InvalidState);
        }
        process.begin_initial_spawn(entry)
    }

    /// Gives the creation up.
    pub fn abort_creation(&self, process: &mut Process) -> (result: Result<Handle, ObjectError>)
        ensures
            final(process).same_but_creation(*old(process)),
            if !(self.creating_only) {
                &&& result == Err::<Handle, ObjectError>(ObjectError::InsufficientCapabilities)
                &&& *final(process) == *old(process)
            } else {
                match old(process).creating_owner {
                    None => {
                        &&& result == Err::<Handle, ObjectError>(ObjectError::ObjectDestroyed)
                        &&& *final(process) == *old(process)
                    },
                    Some(owner) => {
                        &&& result == Ok::<Handle, ObjectError>(owner)
                        &&& final(process).creating_owner is None
                        &&& final(process).loaded_image is None
                        &&& final(process).tasks.phase == ProcessPhase::Exited
                    },
                }
            },
    {
        if !self.creating_only {
            return Err(ObjectError::InsufficientCapabilities);
        }
        process.abort_creation()
    }
}

/// What the holder of a handle may do with the handles of the process.
#[derive(Debug, Clone, Copy, PartialEq, Eq, Structural)]
pub struct HandleControl {
    pub pid: u64,
    pub supervisor_only: bool,
}

impl HandleControl {
    pub fn new(pid: u64, supervisor_only: bool) -> (control: Self)
        ensures
            control == (HandleControl { pid, supervisor_only }),
    {
        HandleControl { pid, supervisor_only }
    }

    /// Closes a slot of the process; a supervisor may not.
    pub fn close_handle(&self, process: &mut Process, slot: u32) -> (result: Result<(), ObjectError>)
        requires
            old(process).wf(),
        ensures
            final(process).wf(),
            final(process).same_but_handles(*old(process)),
            if self.supervisor_only {
                &&& result == Err::<(), ObjectError>(ObjectError::InsufficientCapabilities)
                &&& final(process).handles == old(process).handles
            } else {
                &&& final(process).handles@ == old(process).handles@.remove(slot as u64)
                &&& result == (if old(process).handles@.dom().contains(slot as u64) {
                    Ok::<(), ObjectError>(())
                } else {
                    Err::<(), ObjectError>(ObjectError::ObjectNotFound)
                })
            },
    {
        if self.supervisor_only {
            return Err(ObjectError::InsufficientCapabilities);
        }
        process.handles.close_handle(slot)
    }

    /// Derives a handle with fewer rights into the lowest free slot; a supervisor
    /// may not.
    pub fn derive_handle(
        &self,
        process: &mut Process,
        slot: u32,
        capability: Capability,
        interface_caps: u32,
    ) -> (result: Result<u32, ObjectError>)
        requires
            old(process).wf(),
            has_free_slot(old(process).handles@),
        ensures
            final(process).wf(),
            final(process).same_but_handles(*old(process)),
            if self.supervisor_only {
                &&& result == Err::<u32, ObjectError>(ObjectError::InsufficientCapabilities)
                &&& final(process).handles@ == old(process).handles@
            } else {
                Process::derive_effect(
                    old(process).handles@,
                    final(process).handles@,
                    slot,
                    capability,
                    interface_caps,
                    result,
                )
            },
    {
        if self.supervisor_only {
            return Err(ObjectError::InsufficientCapabilities);
        }
        process.derive_handle(slot, capability, interface_caps)
    }
}

/// What the holder of a handle may do with the tasks of the process.
#[derive(Debug, Clone, Copy, PartialEq, Eq, Structural)]
pub struct TaskControl {
    pub pid: u64,
    pub supervisor_only: bool,
}

impl TaskControl {
    pub fn new(pid: u64, supervisor_only: bool) -> (control: Self)
        ensures
            control == (TaskControl { pid, supervisor_only }),
    {
        TaskControl { pid, supervisor_only }
    }

    /// Checks the start of another task; a supervisor may not start one.
    pub fn spawn_user_task(&self, process: &Process, start: UserStart, probes: StartProbes) -> (
    result: Result<(), SpawnError>)
        ensures
            result == (if self.supervisor_only {
                Err::<(), SpawnError>(SpawnError::Object(ObjectError::InsufficientCapabilities))
            } else if process.visible_phase() is Terminating || start_check(start, probes) is Err {
                Err::<(), SpawnError>(SpawnError::Object(ObjectError::InvalidArgument))
            } else {
                Ok::<(), SpawnError>(())
            }),
    {
        if self.supervisor_only {
            return Err(SpawnError::Object(ObjectError::InsufficientCapabilities));
        }
        process.check_user_task(start, probes)
    }
}

/// What the holder of a handle may do with the messages of the process.
#[derive(Debug, Clone, Copy, PartialEq, Eq, Structural)]
pub struct MailboxControl {
    pub pid: u64,
    pub supervisor_only: bool,
}

impl MailboxControl {
    pub fn new(pid: u64, supervisor_only: bool) -> (control: Self)
        ensures
            control == (MailboxControl { pid, supervisor_only }),
    {
        MailboxControl { pid, supervisor_only }
    }
}

/// Methods of a process object.
#[derive(Debug, Clone, Copy, PartialEq, Eq, Structural)]
pub enum ProcessMethod {
    QueryPhase,
    InheritHandle,
    DeriveSegmentVmar,
    AbortCreation,
    Wait,
}

/// Interface capabilities of a process object.
#[derive(Debug, Clone, Copy, PartialEq, Eq, Structural)]
pub struct ProcessAbi {
    pub query: u32,
    pub inherit_handle: u32,
    pub derive_segment_vmar: u32,
    pub abort: u32,
    pub wait: u32,
}

impl ProcessAbi {
    pub open spec fn bit(self, method: ProcessMethod) -> u32 {
        match method {
            ProcessMethod::QueryPhase => self.query,
            ProcessMethod::InheritHandle => self.inherit_handle,
            ProcessMethod::DeriveSegmentVmar => self.derive_segment_vmar,
            ProcessMethod::AbortCreation => self.abort,
            ProcessMethod::Wait => self.wait,
        }
    }
}

/// What a method leads to before it is looked at further: it must be known and
/// offered, and the interface capabilities must cover it.
pub open spec fn admits(
    offered: bool,
    interface_caps: u32,
    abi: ProcessAbi,
    method: Option<ProcessMethod>,
) -> Option<ObjectError> {
    match method {
        None => Some(ObjectError::InvalidArgument),
        Some(method) => if offered && covers(interface_caps, abi.bit(method)) {
            None
        } else {
            Some(ObjectError::InsufficientCapabilities)
        },
    }
}

/// Access plane without methods.
#[derive(Debug, Clone, Copy, PartialEq, Eq, Structural)]
pub struct ProcessControlUnsupportedGuard;

impl ProcessControlUnsupportedGuard {
    /// Refuses every method, known or not.
    pub fn dispatch(&self, method: Option<ProcessMethod>) -> (error: ObjectError)
        ensures
            error == ObjectError::InsufficientCapabilities,
    {
        ObjectError::InsufficientCapabilities
    }
}

/// Read plane: the lifecycle can be queried.
#[derive(Debug, Clone, Copy, PartialEq, Eq, Structural)]
pub struct ProcessControlReadGuard {
    pub control: ProcessControl,
    pub interface_caps: u32,
}

impl ProcessControlReadGuard {
    pub open spec fn refusal(self, abi: ProcessAbi, method: Option<ProcessMethod>) -> Option<
        ObjectError,
    > {
        admits(method == Some(ProcessMethod::QueryPhase), self.interface_caps, abi, method)
    }

    /// Answers a request on the read plane.
    pub fn dispatch(&self, abi: &ProcessAbi, method: Option<ProcessMethod>, process: &Process) -> (
    result: Result<ProcessObjectPhase, ObjectError>)
        ensures
            result == (match self.refusal(*abi, method) {
                Some(error) => Err::<ProcessObjectPhase, ObjectError>(error),
                None => Ok::<ProcessObjectPhase, ObjectError>(self.control.visible_phase(*process)),
            }),
    {
        match method {
            None => Err(ObjectError::InvalidArgument),
            Some(ProcessMethod::QueryPhase) => {
                if !caps_cover(self.interface_caps, abi.query) {
                    return Err(ObjectError::InsufficientCapabilities);
                }
                Ok(self.control.object_phase(process))
            },
            Some(_) => Err(ObjectError::InsufficientCapabilities),
        }
    }
}

/// Arguments of a request on the write plane, as they were read.
#[derive(Debug, Clone, Copy, PartialEq)]
pub struct WriteArguments {
    /// The handle to pass on, if it could be read from the caller.
    pub inherit: Option<InheritRequest>,
    /// The segment that the argument names, if any.
    pub segment: Option<ProcessVmSegment>,
}

/// Answer on the write plane.
#[derive(Debug, Clone, Copy, PartialEq, Eq, Structural)]
pub enum ProcessWriteReply {
    /// The slot that a handle was passed to.
    Slot(u32),
    /// The segment of which the caller is to get a handle.
    Segment(VmLayoutSegment),
}

/// Write plane: handles are passed on and segments handed out.
#[derive(Debug, Clone, Copy, PartialEq, Eq, Structural)]
pub struct ProcessControlWriteGuard {
    pub control: ProcessControl,
    pub interface_caps: u32,
}

impl ProcessControlWriteGuard {
    pub open spec fn offers(method: Option<ProcessMethod>) -> bool {
        method == Some(ProcessMethod::InheritHandle) || method == Some(
            ProcessMethod::DeriveSegmentVmar,
        )
    }

    pub open spec fn refusal(self, abi: ProcessAbi, method: Option<ProcessMethod>) -> Option<
        ObjectError,
    > {
        admits(Self::offers(method), self.interface_caps, abi, method)
    }

    /// What a request does to the process and answers.
    pub open spec fn effect(
        self,
        abi: ProcessAbi,
        method: Option<ProcessMethod>,
        arguments: WriteArguments,
        before: Process,
        after: Process,
        result: Result<ProcessWriteReply, ObjectError>,
    ) -> bool {
        &&& after.same_but_handles(before)
        &&& match self.refusal(abi, method) {
            Some(error) => {
                &&& result == Err::<ProcessWriteReply, ObjectError>(error)
                &&& after.handles@ == before.handles@
            },
            None => if method == Some(ProcessMethod::InheritHandle) {
                if arguments.inherit matches Some(request) && self.control.passes_on(
                    before,
                    request,
                ) {
                    let request = arguments.inherit->Some_0;
                    &&& result matches Ok(ProcessWriteReply::Slot(slot))
                    &&& after.handles@ == before.handles@.insert(
                        slot as u64,
                        request.derived()->Ok_0,
                    )
                    &&& match request.target_slot {
                        Some(target) => slot == target,
                        None => lowest_free(before.handles@, slot),
                    }
                } else {
                    &&& result == Err::<ProcessWriteReply, ObjectError>(ObjectError::InvalidArgument)
                    &&& after.handles@ == before.handles@
                }
            } else {
                &&& after.handles@ == before.handles@
                &&& result == (match arguments.segment {
                    None => Err::<ProcessWriteReply, ObjectError>(ObjectError::InvalidArgument),
                    Some(segment) => match self.control.load().segment_for(before, segment) {
                        Ok(layout) => Ok::<ProcessWriteReply, ObjectError>(
                            ProcessWriteReply::Segment(layout),
                        ),
                        Err(_) => Err::<ProcessWriteReply, ObjectError>(
                            ObjectError::InvalidArgument,
                        ),
                    },
                })
            },
        }
    }

    /// Carries out a request on the write plane.
    pub fn dispatch(
        &self,
        abi: &ProcessAbi,
        method: Option<ProcessMethod>,
        arguments: WriteArguments,
        process: &mut Process,
    ) -> (result: Result<ProcessWriteReply, ObjectError>)
        requires
            old(process).wf(),
            has_free_slot(old(process).handles@),
        ensures
            final(process).wf(),
            self.effect(*abi, method, arguments, *old(process), *final(process), result),
    {
        match method {
            None => Err(ObjectError::InvalidArgument),
            Some(ProcessMethod::InheritHandle) => {
                if !caps_cover(self.interface_caps, abi.inherit_handle) {
                    return Err(ObjectError::InsufficientCapabilities);
                }
                match arguments.inherit {
                    None => Err(ObjectError::InvalidArgument),
                    Some(request) => match self.control.inherit_handle_from_caller(
                        process,
                        request,
                    ) {
                        Ok(slot) => Ok(ProcessWriteReply::Slot(slot)),
                        Err(error) => Err(error),
                    },
                }
            },
            Some(ProcessMethod::DeriveSegmentVmar) => {
                if !caps_cover(self.interface_caps, abi.derive_segment_vmar) {
                    return Err(ObjectError::InsufficientCapabilities);
                }
                match arguments.segment {
                    None => Err(ObjectError::InvalidArgument),
                    Some(segment) => match self.control.derive_segment_vmar_handle(
                        process,
                        segment,
                    ) {
                        Ok(layout) => Ok(ProcessWriteReply::Segment(layout)),
                        Err(error) => Err(error),
                    },
                }
            },
            Some(_) => Err(ObjectError::InsufficientCapabilities),
        }
    }
}

/// Answer on the administration plane.
#[derive(Debug, Clone, Copy)]
pub enum ProcessAdminReply {
    /// The creation was given up; the process is to be forgotten.
    Aborted(Handle),
    /// How the wait for the end of the process goes on.
    Wait(WaitStep),
}

/// Administration plane: the creation is given up and the end waited for.
#[derive(Debug, Clone, Copy, PartialEq, Eq, Structural)]
pub struct ProcessControlAdminGuard {
    pub control: ProcessControl,
    pub interface_caps: u32,
}

impl ProcessControlAdminGuard {
    pub open spec fn offers(method: Option<ProcessMethod>) -> bool {
        method == Some(ProcessMethod::AbortCreation) || method == Some(ProcessMethod::Wait)
    }

    pub open spec fn refusal(self, abi: ProcessAbi, method: Option<ProcessMethod>) -> Option<
        ObjectError,
    > {
        admits(Self::offers(method), self.interface_caps, abi, method)
    }

    /// Carries out a request on the admin plane.
    pub fn dispatch(
        &self,
        abi: &ProcessAbi,
        method: Option<ProcessMethod>,
        timeout_ns: usize,
        process: &mut Process,
    ) -> (result: Result<ProcessAdminReply, ObjectError>)
        ensures
            final(process).same_but_creation(*old(process)),
            match self.refusal(*abi, method) {
                Some(error) => {
                    &&& result == Err::<ProcessAdminReply, ObjectError>(error)
                    &&& *final(process) == *old(process)
                },
                None => if method == Some(ProcessMethod::Wait) {
                    &&& *final(process) == *old(process)
                    &&& result == Ok::<ProcessAdminReply, ObjectError>(
                        ProcessAdminReply::Wait(
                            self.control.wait_step(*old(process), timeout_ns),
                        ),
                    )
                } else if !(self.control.mode is Creating) {
                    &&& *final(process) == *old(process)
                    &&& result == Err::<ProcessAdminReply, ObjectError>(
                        ObjectError::InsufficientCapabilities,
                    )
                } else {
                    match old(process).creating_owner {
                        None => {
                            &&& *final(process) == *old(process)
                            &&& result == Err::<ProcessAdminReply, ObjectError>(
                                ObjectError::ObjectDestroyed,
                            )
                        },
                        Some(owner) => {
                            &&& result == Ok::<ProcessAdminReply, ObjectError>(
                                ProcessAdminReply::Aborted(owner),
                            )
                            &&& final(process).creating_owner is None
                            &&& final(process).loaded_image is None
                            &&& final(process).tasks.phase == ProcessPhase::Exited
                        },
                    }
                },
            },
    {
        match method {
            None => Err(ObjectError::InvalidArgument),
            Some(ProcessMethod::AbortCreation) => {
                if !caps_cover(self.interface_caps, abi.abort) {
                    return Err(ObjectError::InsufficientCapabilities);
                }
                match self.control.load_control().abort_creation(process) {
                    Ok(owner) => Ok(ProcessAdminReply::Aborted(owner)),
                    Err(error) => Err(error),
                }
            },
            Some(ProcessMethod::Wait) => {
                if !caps_cover(self.interface_caps, abi.wait) {
                    return Err(ObjectError::InsufficientCapabilities);
                }
                Ok(ProcessAdminReply::Wait(self.control.wait(process, timeout_ns)))
            },
            Some(_) => Err(ObjectError::InsufficientCapabilities),
        }
    }

    /// Checks the start of another task of the process.
    pub fn spawn_user_task(&self, process: &Process, start: UserStart, probes: StartProbes) -> (
    result: Result<(), SpawnError>)
        ensures
            result == (if self.control.mode is Supervisor {
                Err::<(), SpawnError>(SpawnError::Object(ObjectError::InsufficientCapabilities))
            } else if process.visible_phase() is Terminating || start_check(start, probes) is Err {
                Err::<(), SpawnError>(SpawnError::Object(ObjectError::InvalidArgument))
            } else {
                Ok::<(), SpawnError>(())
            }),
    {
        self.control.task_control().spawn_user_task(process, start, probes)
    }
}

/// No method is let through on two planes.
pub proof fn law_each_method_has_one_plane(
    read: ProcessControlReadGuard,
    write: ProcessControlWriteGuard,
    admin: ProcessControlAdminGuard,
    abi: ProcessAbi,
    method: Option<ProcessMethod>,
)
    ensures
        read.refusal(abi, method) is None ==> write.refusal(abi, method) is Some
            && admin.refusal(abi, method) is Some,
        write.refusal(abi, method) is None ==> admin.refusal(abi, method) is Some,
{
}

/// A refused request changes nothing.
pub proof fn law_refused_write_changes_nothing(
    guard: ProcessControlWriteGuard,
    abi: ProcessAbi,
    method: Option<ProcessMethod>,
    arguments: WriteArguments,
    before: Process,
    after: Process,
    error: ObjectError,
)
    requires
        guard.effect(
            abi,
            method,
            arguments,
            before,
            after,
            Err::<ProcessWriteReply, ObjectError>(error),
        ),
    ensures
        after.handles@ == before.handles@,
        after.same_but_handles(before),
{
}

/// Only the creator's handle, while there is a creation, changes the handles of
/// a process through the write plane.
pub proof fn law_only_creator_passes_handles(
    guard: ProcessControlWriteGuard,
    abi: ProcessAbi,
    method: Option<ProcessMethod>,
    arguments: WriteArguments,
    before: Process,
    after: Process,
    result: Result<ProcessWriteReply, ObjectError>,
)
    requires
        guard.effect(abi, method, arguments, before, after, result),
        after.handles@ != before.handles@,
    ensures
        guard.control.mode is Creating,
        before.creating_owner is Some,
{
}

} // verus!

//! The process object: creation, handles, anonymous objects and exit.

use vstd::prelude::*;

use super::tasks::{ProcessPhase, ProcessReapAction, ProcessTasks};
use crate::collections::IdTable;
use crate::object::{has_free_slot, lowest_free, Capability, Handle, HandleTable, ObjectError};
use crate::sched::clock::{listen_for, wait_limit, Duration};
use crate::sched::cpus::SchedulerSet;
use crate::sched::task::{TaskExit, TaskId};
use crate::sched::user::{
    start_check, validate_start, ProcessSpawnError, StartProbes, UserStart, VmLayoutSegment,
};

verus! {

/// Pages of a user stack unless something else is asked for.
pub const DEFAULT_USER_STACK_PAGES: usize = 16;

/// Image that was loaded into a process.
#[derive(Debug, Clone, Copy, PartialEq, Eq, Structural)]
pub struct ProcessLoadInfo {
    pub entry_ip: usize,
    pub image_base: usize,
    pub image_end: usize,
    pub slide: usize,
}

/// Lifecycle as the holders of a process object see it.
#[derive(Debug, Clone, Copy, PartialEq, Eq, Structural)]
pub enum ProcessObjectPhase {
    Creating,
    Live,
    Terminating,
}

/// Why a wait for the end of a process fails.
#[derive(Debug, Clone, Copy, PartialEq, Eq, Structural)]
pub enum ProcessWaitError {
    InvalidState,
    WouldBlock,
    TimedOut,
}

/// Segments of which a creator gets a handle.
#[derive(Debug, Clone, Copy, PartialEq, Eq, Structural)]
pub enum ProcessVmSegment {
    UserImage,
    UserMapped,
    UserHeap,
    UserStack,
    UserMmio,
}

impl ProcessVmSegment {
    pub open spec fn layout(self) -> VmLayoutSegment {
        match self {
            ProcessVmSegment::UserImage => VmLayoutSegment::UserImage,
            ProcessVmSegment::UserMapped => VmLayoutSegment::UserMapped,
            ProcessVmSegment::UserHeap => VmLayoutSegment::UserHeap,
            ProcessVmSegment::UserStack => VmLayoutSegment::UserStack,
            ProcessVmSegment::UserMmio => VmLayoutSegment::UserMmio,
        }
    }

    /// The part of the address space that the segment names.
    pub fn layout_segment(self) -> (segment: VmLayoutSegment)
        ensures
            segment == self.layout(),
    {
        match self {
            ProcessVmSegment::UserImage => VmLayoutSegment::UserImage,
            ProcessVmSegment::UserMapped => VmLayoutSegment::UserMapped,
            ProcessVmSegment::UserHeap => VmLayoutSegment::UserHeap,
            ProcessVmSegment::UserStack => VmLayoutSegment::UserStack,
            ProcessVmSegment::UserMmio => VmLayoutSegment::UserMmio,
        }
    }
}

/// A creator only ever gets user segments.
pub proof fn law_creator_segments_are_user(segment: ProcessVmSegment)
    ensures
        segment.layout().user(),
{
}

/// Why a creator gets no segment handle.
#[derive(Debug, Clone, Copy, PartialEq, Eq, Structural)]
pub enum ProcessVmarExtractError {
    InvalidState,
    InvalidArgument,
}

/// Why a creator cannot pass a handle on.
#[derive(Debug, Clone, Copy, PartialEq, Eq, Structural)]
pub enum ProcessHandleInstallError {
    InvalidState,
    InvalidArgument,
}

/// Errors met while a task is published.
#[derive(Debug, Clone, Copy, PartialEq, Eq, Structural)]
pub enum SpawnTaskError {
    Object(ObjectError),
    Scheduler(crate::sched::scheduler::SchedulerError),
}

/// Errors met while a task is created.
#[derive(Debug, Clone, Copy, PartialEq, Eq, Structural)]
pub enum SpawnError {
    /// A task resource could not be prepared.
    Object(ObjectError),
    /// The task could not be published.
    Scheduler(SpawnTaskError),
    OutOfMemory,
}

impl SpawnError {
    /// What the creator of a process is told.
    pub open spec fn told(self) -> ProcessSpawnError {
        match self {
            SpawnError::Object(_) => ProcessSpawnError::InvalidState,
            SpawnError::Scheduler(SpawnTaskError::Object(_)) => ProcessSpawnError::InvalidState,
            SpawnError::Scheduler(SpawnTaskError::Scheduler(_)) => ProcessSpawnError::Internal,
            SpawnError::OutOfMemory => ProcessSpawnError::OutOfMemory,
        }
    }

    pub fn process_spawn_error(self) -> (error: ProcessSpawnError)
        ensures
            error == self.told(),
    {
        match self {
            SpawnError::Object(_) => ProcessSpawnError::InvalidState,
            SpawnError::Scheduler(SpawnTaskError::Object(_)) => ProcessSpawnError::InvalidState,
            SpawnError::Scheduler(SpawnTaskError::Scheduler(_)) => ProcessSpawnError::Internal,
            SpawnError::OutOfMemory => ProcessSpawnError::OutOfMemory,
        }
    }
}

/// Request of a creator to pass one of its handles on.
#[derive(Debug, Clone, Copy, PartialEq)]
pub struct InheritRequest {
    /// The requested rights, if the bits name rights at all.
    pub capability: Option<Capability>,
    pub interface_caps: u32,
    /// The creator's handle.
    pub source: Result<Handle, ObjectError>,
    /// The wanted slot; any free one if there is none.
    pub target_slot: Option<u32>,
}

impl InheritRequest {
    /// What deriving the requested rights from the creator's handle gives.
    pub open spec fn derived(self) -> Result<Handle, ObjectError> {
        self.source->Ok_0.derived(self.capability->Some_0, self.interface_caps)
    }
}

/// Next step of a wait for the end of a process.
#[derive(Debug, Clone, Copy)]
pub enum WaitStep {
    Done(Result<usize, ProcessWaitError>),
    /// Listen for the end, at most this long.
    Listen(Option<Duration>),
}

/// Process object.
pub struct Process {
    pub pid: u64,
    pub name: String,
    pub tasks: ProcessTasks,
    /// Handle that goes to the creator once the process runs; there is one only
    /// while the process is being created.
    pub creating_owner: Option<Handle>,
    pub loaded_image: Option<ProcessLoadInfo>,
    pub self_handle: Option<Handle>,
    pub handles: HandleTable,
    /// Owners of the anonymous objects, by object.
    pub anon_objects: IdTable<Handle>,
    pub root_vmar: Option<Handle>,
    pub address_space_root: Option<usize>,
}

impl Process {
    pub open spec fn wf(&self) -> bool {
        &&& self.tasks.wf()
        &&& self.handles.wf()
        &&& self.anon_objects.wf()
    }

    /// Nothing but the handle table has changed.
    pub open spec fn same_but_handles(&self, before: Process) -> bool {
        &&& self.pid == before.pid
        &&& self.name == before.name
        &&& self.tasks == before.tasks
        &&& self.creating_owner == before.creating_owner
        &&& self.loaded_image == before.loaded_image
        &&& self.self_handle == before.self_handle
        &&& self.anon_objects == before.anon_objects
        &&& self.root_vmar == before.root_vmar
        &&& self.address_space_root == before.address_space_root
    }

    /// Nothing but what belongs to the creation has changed.
    pub open spec fn same_but_creation(&self, before: Process) -> bool {
        &&& self.pid == before.pid
        &&& self.name == before.name
        &&& self.self_handle == before.self_handle
        &&& self.handles == before.handles
        &&& self.anon_objects == before.anon_objects
        &&& self.root_vmar == before.root_vmar
        &&& self.address_space_root == before.address_space_root
        &&& self.tasks.tasks == before.tasks.tasks
        &&& self.tasks.terminating == before.tasks.terminating
        &&& self.tasks.exit_code == before.tasks.exit_code
    }

    /// A running process without anything. `pid` is the identifier handed out
    /// for it.
    pub fn new(pid: u64, name: String) -> (process: Self)
        ensures
            process.wf(),
            process.pid == pid,
            process.name == name,
            process.tasks.consistent(),
            process.tasks.members() == Set::<TaskId>::empty(),
            process.tasks.phase == ProcessPhase::Running,
            process.tasks.exit_code is None,
            process.creating_owner is None,
            process.loaded_image is None,
            process.self_handle is None,
            process.handles@ == Map::<u64, Handle>::empty(),
            process.anon_objects@ == Map::<u64, Handle>::empty(),
            process.root_vmar is None,
            process.address_space_root is None,
    {
        Process {
            pid,
            name,
            tasks: ProcessTasks::new(),
            creating_owner: None,
            loaded_image: None,
            self_handle: None,
            handles: HandleTable::new(),
            anon_objects: IdTable::new(),
            root_vmar: None,
            address_space_root: None,
        }
    }

    pub fn pid(&self) -> (pid: u64)
        ensures
            pid == self.pid,
    {
        self.pid
    }

    pub fn phase(&self) -> (phase: ProcessPhase)
        ensures
            phase == self.tasks.phase,
    {
        self.tasks.phase
    }

    pub open spec fn visible_phase(&self) -> ProcessObjectPhase {
        match self.tasks.phase {
            ProcessPhase::Running => ProcessObjectPhase::Live,
            _ => ProcessObjectPhase::Terminating,
        }
    }

    /// Lifecycle as the holders of the process object see it.
    pub fn object_phase(&self) -> (phase: ProcessObjectPhase)
        ensures
            phase == self.visible_phase(),
    {
        match self.tasks.phase {
            ProcessPhase::Running => ProcessObjectPhase::Live,
            ProcessPhase::Terminating | ProcessPhase::Exited => ProcessObjectPhase::Terminating,
        }
    }

    /// Starts the creation: `owner` goes to the creator once the process runs.
    pub fn initialize_creation_state(&mut self, owner: Handle)
        ensures
            final(self).same_but_creation(*old(self)),
            final(self).tasks.phase == old(self).tasks.phase,
            final(self).loaded_image == old(self).loaded_image,
            final(self).creating_owner == Some(owner),
    {
        self.creating_owner = Some(owner);
    }

    /// Remembers the image for the first task.
    pub fn stage_loaded_image(&mut self, image: ProcessLoadInfo)
        ensures
            final(self).same_but_creation(*old(self)),
            final(self).tasks.phase == old(self).tasks.phase,
            final(self).creating_owner == old(self).creating_owner,
            final(self).loaded_image == Some(image),
    {
        self.loaded_image = Some(image);
    }

    pub fn exit_code(&self) -> (code: Option<usize>)
        ensures
            code == self.tasks.exit_code,
    {
        self.tasks.exit_code
    }

    /// Begins a wait for the exit code.
    pub fn wait_for_exit(&self, timeout_ns: usize) -> (step: WaitStep)
        ensures
            step == (match self.tasks.exit_code {
                Some(code) => WaitStep::Done(Ok(code)),
                None => if timeout_ns == 0 {
                    WaitStep::Done(Err(ProcessWaitError::WouldBlock))
                } else {
                    WaitStep::Listen(wait_limit(timeout_ns))
                },
            }),
    {
        match self.exit_code() {
            Some(code) => {
                return WaitStep::Done(Ok(code));
            },
            None => {},
        }
        if timeout_ns == 0 {
            return WaitStep::Done(Err(ProcessWaitError::WouldBlock));
        }
        WaitStep::Listen(listen_for(timeout_ns))
    }

    /// Goes on with a wait after it was notified or ran out of time.
    pub fn after_listen(&self, timeout_ns: usize, notified: bool) -> (step: WaitStep)
        ensures
            step == (if !notified {
                WaitStep::Done(Err(ProcessWaitError::TimedOut))
            } else {
                match self.tasks.exit_code {
                    Some(code) => WaitStep::Done(Ok(code)),
                    None => WaitStep::Listen(wait_limit(timeout_ns)),
                }
            }),
    {
        if !notified {
            return WaitStep::Done(Err(ProcessWaitError::TimedOut));
        }
        match self.exit_code() {
            Some(code) => WaitStep::Done(Ok(code)),
            None => WaitStep::Listen(listen_for(timeout_ns)),
        }
    }

    /// What deriving a handle of an existing one into the lowest free slot does.
    pub open spec fn derive_effect(
        before: Map<u64, Handle>,
        after: Map<u64, Handle>,
        slot: u32,
        capability: Capability,
        interface_caps: u32,
        result: Result<u32, ObjectError>,
    ) -> bool {
        if !before.dom().contains(slot as u64) {
            result == Err::<u32, ObjectError>(ObjectError::ObjectNotFound) && after == before
        } else {
            match before[slot as u64].derived(capability, interface_caps) {
                Err(error) => result == Err::<u32, ObjectError>(error) && after == before,
                Ok(derived) => {
                    &&& result matches Ok(fresh)
                    &&& lowest_free(before, fresh)
                    &&& after == before.insert(fresh as u64, derived)
                },
            }
        }
    }

    /// Derives a handle with fewer rights into the lowest free slot.
    pub fn derive_handle(&mut self, slot: u32, capability: Capability, interface_caps: u32) -> (
    result: Result<u32, ObjectError>)
        requires
            old(self).wf(),
            has_free_slot(old(self).handles@),
        ensures
            final(self).wf(),
            final(self).same_but_handles(*old(self)),
            Self::derive_effect(
                old(self).handles@,
                final(self).handles@,
                slot,
                capability,
                interface_caps,
                result,
            ),
    {
        match self.handles.get(slot) {
            None => Err(ObjectError::ObjectNotFound),
            Some(handle) => match handle.derive_handle(capability, interface_caps) {
                Err(error) => Err(error),
                Ok(derived) => Ok(self.handles.install_handle_auto(derived)),
            },
        }
    }

    /// Another reference to the process, as its own tasks hold it.
    pub fn task_process_handle(&self) -> (result: Result<Handle, ObjectError>)
        ensures
            result == (match self.self_handle {
                Some(handle) => handle.acquired(),
                None => Err(ObjectError::ObjectNotFound),
            }),
    {
        match &self.self_handle {
            Some(handle) => handle.acquire_ref(),
            None => Err(ObjectError::ObjectNotFound),
        }
    }

    /// Root of the hardware address space.
    pub fn address_space_root(&self) -> (result: Result<usize, ObjectError>)
        ensures
            result == (match self.address_space_root {
                Some(root) => Ok::<usize, ObjectError>(root),
                None => Err::<usize, ObjectError>(ObjectError::ObjectNotFound),
            }),
    {
        match self.address_space_root {
            Some(root) => Ok(root),
            None => Err(ObjectError::ObjectNotFound),
        }
    }

    /// Which segment a creator gets, while there is a creation.
    pub fn derive_creating_segment_vmar_handle(&self, segment: ProcessVmSegment) -> (result: Result<
        VmLayoutSegment,
        ProcessVmarExtractError,
    >)
        ensures
            result == (if self.creating_owner is None {
                Err::<VmLayoutSegment, ProcessVmarExtractError>(ProcessVmarExtractError::InvalidState)
            } else {
                Ok::<VmLayoutSegment, ProcessVmarExtractError>(segment.layout())
            }),
    {
        if self.creating_owner.is_none() {
            return Err(ProcessVmarExtractError::InvalidState);
        }
        Ok(segment.layout_segment())
    }

    /// Whether a request to pass a handle on can be granted.
    pub open spec fn inheritable(&self, request: InheritRequest) -> bool {
        &&& request.capability is Some
        &&& request.source matches Ok(source) && source.capabilities.send
        &&& request.derived() is Ok
        &&& request.target_slot matches Some(slot) ==> !self.handles@.dom().contains(slot as u64)
    }

    /// Passes a handle of the creator on, while there is a creation. The
    /// creator must be allowed to send it, and a wanted slot must be free.
    pub fn inherit_handle_from_caller(&mut self, request: InheritRequest) -> (result: Result<
        u32,
        ProcessHandleInstallError,
    >)
        requires
            old(self).wf(),
            has_free_slot(old(self).handles@),
        ensures
            final(self).wf(),
            final(self).same_but_handles(*old(self)),
            match result {
                Ok(slot) => {
                    &&& old(self).creating_owner is Some
                    &&& old(self).inheritable(request)
                    &&& final(self).handles@ == old(self).handles@.insert(
                        slot as u64,
                        request.derived()->Ok_0,
                    )
                    &&& match request.target_slot {
                        Some(target) => slot == target,
                        None => lowest_free(old(self).handles@, slot),
                    }
                },
                Err(error) => {
                    &&& final(self).handles@ == old(self).handles@
                    &&& if old(self).creating_owner is None {
                        error == ProcessHandleInstallError::InvalidState
                    } else {
                        error == ProcessHandleInstallError::InvalidArgument && !old(self).inheritable(request)
                    }
                },
            },
    {
        if self.creating_owner.is_none() {
            return Err(ProcessHandleInstallError::InvalidState);
        }
        let capability = match request.capability {
            None => {
                return Err(ProcessHandleInstallError::InvalidArgument);
            },
            Some(capability) => capability,
        };
        let source = match request.source {
            Err(_) => {
                return Err(ProcessHandleInstallError::InvalidArgument);
            },
            Ok(source) => source,
        };
        if !source.can_send() {
            return Err(ProcessHandleInstallError::InvalidArgument);
        }
        let derived = match source.derive_handle(capability, request.interface_caps) {
            Err(_) => {
                return Err(ProcessHandleInstallError::InvalidArgument);
            },
            Ok(derived) => derived,
        };
        match request.target_slot {
            None => Ok(self.handles.install_handle_auto(derived)),
            Some(slot) => {
                if self.handles.get(slot).is_some() {
                    return Err(ProcessHandleInstallError::InvalidArgument);
                }
                let _ = self.handles.install_handle(slot, derived);
                Ok(slot)
            },
        }
    }

    /// Where the first task enters: as asked, or where the image says.
    pub open spec fn initial_entry(&self, entry: usize) -> usize {
        if entry == 0 {
            self.loaded_image->Some_0.entry_ip
        } else {
            entry
        }
    }

    /// Takes the creation up to start the first task with an image that was
    /// loaded before. The creation is over even where there is no image; the
    /// address that the first task enters is then to be checked.
    pub fn begin_initial_spawn(&mut self, entry: usize) -> (result: Result<
        (Handle, usize),
        ProcessSpawnError,
    >)
        ensures
            final(self).same_but_creation(*old(self)),
            final(self).tasks.phase == old(self).tasks.phase,
            final(self).loaded_image == old(self).loaded_image,
            final(self).creating_owner is None,
            result == (match (old(self).creating_owner, old(self).loaded_image) {
                (Some(owner), Some(_)) => Ok::<(Handle, usize), ProcessSpawnError>(
                    (owner, old(self).initial_entry(entry)),
                ),
                _ => Err::<(Handle, usize), ProcessSpawnError>(ProcessSpawnError::InvalidState),
            }),
    {
        let owner = self.creating_owner.take();
        match owner {
            None => Err(ProcessSpawnError::InvalidState),
            Some(owner) => match self.loaded_image {
                None => Err(ProcessSpawnError::InvalidState),
                Some(loaded) => Ok(
                    (
                        owner,
                        if entry == 0 {
                            loaded.entry_ip
                        } else {
                            entry
                        },
                    ),
                ),
            },
        }
    }

    /// Ends the start of the first task: the creator gets `owner` if the task
    /// was spawned; otherwise the creation goes on.
    pub fn finish_initial_spawn(
        &mut self,
        owner: Handle,
        spawned: Result<TaskId, SpawnError>,
    ) -> (result: Result<(TaskId, Handle), ProcessSpawnError>)
        ensures
            final(self).same_but_creation(*old(self)),
            final(self).tasks.phase == old(self).tasks.phase,
            final(self).loaded_image == old(self).loaded_image,
            match spawned {
                Ok(task_id) => {
                    &&& result == Ok::<(TaskId, Handle), ProcessSpawnError>((task_id, owner))
                    &&& final(self).creating_owner == old(self).creating_owner
                },
                Err(error) => {
                    &&& result == Err::<(TaskId, Handle), ProcessSpawnError>(error.told())
                    &&& final(self).creating_owner == Some(owner)
                },
            },
    {
        match spawned {
            Ok(task_id) => Ok((task_id, owner)),
            Err(error) => {
                self.creating_owner = Some(owner);
                Err(error.process_spawn_error())
            },
        }
    }

    /// Gives the creation up: the process has exited without ever running.
    /// Whoever waits for its end is to be notified.
    pub fn abort_creation(&mut self) -> (result: Result<Handle, ObjectError>)
        ensures
            final(self).same_but_creation(*old(self)),
            match old(self).creating_owner {
                None => {
                    &&& result == Err::<Handle, ObjectError>(ObjectError::ObjectDestroyed)
                    &&& *final(self) == *old(self)
                },
                Some(owner) => {
                    &&& result == Ok::<Handle, ObjectError>(owner)
                    &&& final(self).creating_owner is None
                    &&& final(self).loaded_image is None
                    &&& final(self).tasks.phase == ProcessPhase::Exited
                },
            },
    {
        match self.creating_owner.take() {
            None => Err(ObjectError::ObjectDestroyed),
            Some(owner) => {
                self.loaded_image = None;
                self.tasks.phase = ProcessPhase::Exited;
                Ok(owner)
            },
        }
    }

    /// Whether another task may be started here, and from where.
    pub fn check_user_task(&self, start: UserStart, probes: StartProbes) -> (result: Result<
        (),
        SpawnError,
    >)
        ensures
            result == (if self.visible_phase() is Terminating || start_check(start, probes) is Err {
                Err::<(), SpawnError>(SpawnError::Object(ObjectError::InvalidArgument))
            } else {
                Ok::<(), SpawnError>(())
            }),
    {
        if matches!(self.object_phase(), ProcessObjectPhase::Terminating) {
            return Err(SpawnError::Object(ObjectError::InvalidArgument));
        }
        match validate_start(start, probes) {
            Err(_) => Err(SpawnError::Object(ObjectError::InvalidArgument)),
            Ok(()) => Ok(()),
        }
    }

    /// Nothing but the owners of the anonymous objects has changed.
    pub open spec fn same_but_objects(&self, before: Process) -> bool {
        *self == (Process { anon_objects: self.anon_objects, ..before })
    }

    /// Keeps the owner of an anonymous object as long as the process lives.
    pub fn retain_anonymous_owner(&mut self, owner: Handle) -> (result: Result<(), ObjectError>)
        requires
            old(self).wf(),
        ensures
            final(self).wf(),
            final(self).same_but_objects(*old(self)),
            match owner.keyed() {
                Ok(key) => {
                    &&& result == Ok::<(), ObjectError>(())
                    &&& final(self).anon_objects@ == old(self).anon_objects@.insert(key, owner)
                },
                Err(error) => {
                    &&& result == Err::<(), ObjectError>(error)
                    &&& *final(self) == *old(self)
                },
            },
    {
        match owner.object_key() {
            Err(error) => Err(error),
            Ok(key) => {
                let _ = self.anon_objects.insert(key, owner);
                Ok(())
            },
        }
    }

    /// What the maker of an anonymous object gets: a handle derived from the
    /// owner with the asked rights, once the owner is kept.
    pub open spec fn made(owner: Handle, capability: Capability, interface_caps: u32) -> Result<
        Handle,
        ObjectError,
    > {
        match owner.derived(capability, interface_caps) {
            Err(error) => Err(error),
            Ok(public) => match owner.keyed() {
                Err(error) => Err(error),
                Ok(_) => Ok(public),
            },
        }
    }

    /// Hands out a new anonymous object with the asked rights. `owner` is its
    /// owner handle; rights of an owner cannot be asked for.
    pub fn create_anonymous_object(
        &mut self,
        owner: Handle,
        capability: Capability,
        interface_caps: u32,
    ) -> (result: Result<Handle, ObjectError>)
        requires
            old(self).wf(),
        ensures
            final(self).wf(),
            final(self).same_but_objects(*old(self)),
            if capability.admin || capability.agent {
                &&& result == Err::<Handle, ObjectError>(ObjectError::InvalidArgument)
                &&& *final(self) == *old(self)
            } else {
                &&& result == Self::made(owner, capability, interface_caps)
                &&& result is Err ==> *final(self) == *old(self)
                &&& result is Ok ==> final(self).anon_objects@ == old(self).anon_objects@.insert(
                    owner.object,
                    owner,
                )
            },
    {
        if capability.admin || capability.agent {
            return Err(ObjectError::InvalidArgument);
        }
        match owner.derive_handle(capability, interface_caps) {
            Err(error) => Err(error),
            Ok(public) => match self.retain_anonymous_owner(owner) {
                Err(error) => Err(error),
                Ok(()) => Ok(public),
            },
        }
    }

    /// What destroying the object behind a slot does: the slot is free, and the
    /// owner of the object is gone unless another slot refers to it.
    pub open spec fn destroy_effect(
        before: Process,
        after: Process,
        slot: u32,
        result: Result<(), ObjectError>,
    ) -> bool {
        &&& after == (Process {
            handles: after.handles,
            anon_objects: after.anon_objects,
            ..before
        })
        &&& after.handles@ == before.handles@.remove(slot as u64)
        &&& if !before.handles@.dom().contains(slot as u64) {
            &&& result == Err::<(), ObjectError>(ObjectError::ObjectNotFound)
            &&& after.anon_objects == before.anon_objects
        } else {
            match before.handles@[slot as u64].keyed() {
                Err(error) => {
                    &&& result == Err::<(), ObjectError>(error)
                    &&& after.anon_objects == before.anon_objects
                },
                Ok(key) => {
                    let referenced = exists|other: u64| #[trigger]
                        after.handles@.dom().contains(other) && after.handles@[other].keyed()
                            == Ok::<u64, ObjectError>(key);
                    &&& result == Ok::<(), ObjectError>(())
                    &&& after.anon_objects@ == (if referenced {
                        before.anon_objects@
                    } else {
                        before.anon_objects@.remove(key)
                    })
                },
            }
        }
    }

    /// Destroys the object behind a slot, unless another slot refers to it.
    pub fn destroy_anonymous_object(&mut self, slot: u32) -> (result: Result<(), ObjectError>)
        requires
            old(self).wf(),
        ensures
            final(self).wf(),
            Self::destroy_effect(*old(self), *final(self), slot, result),
    {
        match self.handles.take_handle(slot) {
            Err(error) => Err(error),
            Ok(handle) => match handle.object_key() {
                Err(error) => Err(error),
                Ok(key) => {
                    if !self.handles.refers_to(key) {
                        let _ = self.anon_objects.remove(key);
                    }
                    Ok(())
                },
            },
        }
    }
}

/// Whether rights may be handed out together with the administration of an
/// object: with it, without the agent's right and without the right to send.
pub open spec fn admin_rights(capability: Capability) -> bool {
    capability.admin && !capability.agent && !capability.send
}

/// The rights that are taken from a fresh owner handle so that just the asked ones
/// are left of those that can be handed out.
pub open spec fn withheld(capability: Capability) -> Capability {
    Capability {
        admin: false,
        read: !capability.read,
        write: !capability.write,
        execute: !capability.execute,
        agent: true,
        send: false,
    }
}

/// Hands out an owner handle of a new object together with its administration.
pub fn create_anonymous_admin_handle(owner: Handle, capability: Capability) -> (result: Result<
    Handle,
    ObjectError,
>)
    ensures
        result == (if admin_rights(capability) {
            Ok::<Handle, ObjectError>(owner.downgraded(withheld(capability), 0))
        } else {
            Err::<Handle, ObjectError>(ObjectError::InvalidArgument)
        }),
{
    let allowed = Capability {
        admin: true,
        read: true,
        write: true,
        execute: true,
        agent: false,
        send: false,
    };
    if !capability.admin || capability.agent || !allowed.contains(capability) {
        return Err(ObjectError::InvalidArgument);
    }
    let mut dropped = allowed.without(capability);
    dropped.agent = true;
    Ok(owner.downgrade(dropped, 0))
}

/// The handle to a task that whoever started it gets: to administer and to read
/// it.
pub fn create_task_control_handle(owner: Handle) -> (result: Result<Handle, ObjectError>)
    ensures
        result == Ok::<Handle, ObjectError>(
            owner.downgraded(Capability {
                admin: false,
                agent: true,
                ..Capability::plain(false, true, true, false)
            }, 0),
        ),
{
    let mut capability = Capability::none();
    capability.admin = true;
    capability.read = true;
    create_anonymous_admin_handle(owner, capability)
}

/// A failed spawn of the first task leaves the creation as it was.
pub proof fn law_failed_spawn_keeps_creation(
    before: Process,
    begun: Process,
    after: Process,
    entry: usize,
    owner: Handle,
)
    requires
        before.creating_owner == Some(owner),
        before.loaded_image is Some,
        begun.same_but_creation(before),
        begun.loaded_image == before.loaded_image,
        begun.creating_owner is None,
        after.same_but_creation(begun),
        after.loaded_image == begun.loaded_image,
        after.creating_owner == Some(owner),
    ensures
        after.same_but_creation(before),
        after.creating_owner == before.creating_owner,
        after.loaded_image == before.loaded_image,
        after.initial_entry(entry) == before.initial_entry(entry),
{
}

/// Access to the tasks and handles of a process.
impl Process {
    /// Nothing but the tasks has changed.
    pub open spec fn same_but_tasks(&self, before: Process) -> bool {
        *self == (Process { tasks: self.tasks, ..before })
    }

    pub fn name(&self) -> (name: &str)
        ensures
            name@ == self.name@,
    {
        self.name.as_str()
    }

    pub fn mark_running(&mut self)
        ensures
            *final(self) == (Process {
                tasks: ProcessTasks { phase: ProcessPhase::Running, ..old(self).tasks },
                ..*old(self)
            }),
    {
        self.tasks.phase = ProcessPhase::Running;
    }

    pub fn mark_terminating(&mut self)
        ensures
            *final(self) == (Process {
                tasks: ProcessTasks { phase: ProcessPhase::Terminating, ..old(self).tasks },
                ..*old(self)
            }),
    {
        self.tasks.phase = ProcessPhase::Terminating;
    }

    pub fn mark_exited(&mut self)
        ensures
            *final(self) == (Process {
                tasks: ProcessTasks { phase: ProcessPhase::Exited, ..old(self).tasks },
                ..*old(self)
            }),
    {
        self.tasks.phase = ProcessPhase::Exited;
    }

    /// The image that was loaded for the first task.
    pub fn loaded_image(&self) -> (image: Option<ProcessLoadInfo>)
        ensures
            image == self.loaded_image,
    {
        self.loaded_image
    }

    /// Records that a task belongs to the process.
    pub fn register_task(&mut self, task_id: TaskId) -> (result: Result<(), ObjectError>)
        requires
            old(self).tasks.wf(),
        ensures
            final(self).tasks.wf(),
            old(self).tasks.consistent() ==> final(self).tasks.consistent(),
            final(self).same_but_tasks(*old(self)),
            ProcessTasks::register_effect(old(self).tasks, final(self).tasks, task_id, result),
    {
        self.tasks.register_task(task_id)
    }

    /// Takes a task out again without touching the exit state.
    pub fn unregister_task(&mut self, task_id: TaskId) -> (result: Result<(), ObjectError>)
        requires
            old(self).tasks.wf(),
        ensures
            final(self).tasks.wf(),
            final(self).same_but_tasks(*old(self)),
            final(self).tasks.phase == old(self).tasks.phase,
            final(self).tasks.terminating == old(self).tasks.terminating,
            final(self).tasks.exit_code == old(self).tasks.exit_code,
            final(self).tasks.members() == old(self).tasks.members().remove(task_id),
            result == (if old(self).tasks.members().contains(task_id) {
                Ok::<(), ObjectError>(())
            } else {
                Err::<(), ObjectError>(ObjectError::ObjectNotFound)
            }),
    {
        self.tasks.unregister_task(task_id)
    }

    /// Takes an ended task out of the process. Where that ends the process, the
    /// other tasks are asked to stop, also those that have not been started.
    pub fn reap_task(&mut self, set: &mut SchedulerSet, task_id: TaskId, exit: TaskExit) -> (result:
        Result<ProcessReapAction, ObjectError>)
        requires
            old(self).tasks.wf(),
            old(set).wf(),
        ensures
            final(self).tasks.wf(),
            final(set).wf(),
            old(self).tasks.consistent() ==> final(self).tasks.consistent(),
            final(self).same_but_tasks(*old(self)),
            ProcessTasks::reap_effect(old(self).tasks, final(self).tasks, task_id, exit, result),
            Self::reap_asks(*old(set), *final(set), result),
    {
        let result = self.tasks.reap_task(task_id, exit);
        if let Ok(ProcessReapAction::ProcessExited { code: _, cancel }) = &result {
            set.request_cancels(cancel);
        }
        result
    }

    /// Whom reaping a task asks to stop: the tasks that it tells to cancel.
    pub open spec fn reap_asks(
        before: SchedulerSet,
        after: SchedulerSet,
        result: Result<ProcessReapAction, ObjectError>,
    ) -> bool {
        match result {
            Ok(ProcessReapAction::ProcessExited { code, cancel }) => SchedulerSet::asks(
                before,
                after,
                cancel@,
            ),
            _ => after == before,
        }
    }

    /// Whether a task is registered.
    pub fn owns_task_id(&self, task_id: TaskId) -> (owned: bool)
        requires
            self.tasks.wf(),
        ensures
            owned == self.tasks.members().contains(task_id),
    {
        self.tasks.owns_task_id(task_id)
    }

    /// Number of registered tasks.
    pub fn task_count(&self) -> (count: usize)
        requires
            self.tasks.wf(),
        ensures
            count == self.tasks.members().len(),
            self.tasks.members().finite(),
    {
        self.tasks.task_count()
    }

    /// Puts a handle into a slot and hands back the one it replaces.
    pub fn install_handle(&mut self, slot: u32, handle: Handle) -> (previous: Option<Handle>)
        requires
            old(self).handles.wf(),
        ensures
            final(self).handles.wf(),
            final(self).same_but_handles(*old(self)),
            final(self).handles@ == old(self).handles@.insert(slot as u64, handle),
            previous == (if old(self).handles@.dom().contains(slot as u64) {
                Some(old(self).handles@[slot as u64])
            } else {
                None
            }),
    {
        self.handles.install_handle(slot, handle)
    }

    /// Puts a handle into the lowest free slot.
    pub fn install_handle_auto(&mut self, handle: Handle) -> (slot: u32)
        requires
            old(self).handles.wf(),
            has_free_slot(old(self).handles@),
        ensures
            final(self).handles.wf(),
            final(self).same_but_handles(*old(self)),
            lowest_free(old(self).handles@, slot),
            final(self).handles@ == old(self).handles@.insert(slot as u64, handle),
    {
        self.handles.install_handle_auto(handle)
    }

    /// Drops the handle of a slot.
    pub fn close_handle(&mut self, slot: u32) -> (result: Result<(), ObjectError>)
        requires
            old(self).handles.wf(),
        ensures
            final(self).handles.wf(),
            final(self).same_but_handles(*old(self)),
            final(self).handles@ == old(self).handles@.remove(slot as u64),
            result == (if old(self).handles@.dom().contains(slot as u64) {
                Ok::<(), ObjectError>(())
            } else {
                Err::<(), ObjectError>(ObjectError::ObjectNotFound)
            }),
    {
        self.handles.close_handle(slot)
    }

    /// Takes the handle of a slot out of the table.
    pub fn take_handle(&mut self, slot: u32) -> (result: Result<Handle, ObjectError>)
        requires
            old(self).handles.wf(),
        ensures
            final(self).handles.wf(),
            final(self).same_but_handles(*old(self)),
            final(self).handles@ == old(self).handles@.remove(slot as u64),
            result == (if old(self).handles@.dom().contains(slot as u64) {
                Ok::<Handle, ObjectError>(old(self).handles@[slot as u64])
            } else {
                Err::<Handle, ObjectError>(ObjectError::ObjectNotFound)
            }),
    {
        self.handles.take_handle(slot)
    }

    /// A temporary reference to the handle of a slot.
    pub fn acquire_handle(&self, slot: u32) -> (result: Result<Handle, ObjectError>)
        requires
            self.handles.wf(),
        ensures
            result == HandleTable::acquired(self.handles@, slot),
    {
        self.handles.acquire_handle(slot)
    }

    /// Clones the handle of a slot into the lowest free one.
    pub fn clone_handle(&mut self, slot: u32) -> (result: Result<u32, ObjectError>)
        requires
            old(self).handles.wf(),
            has_free_slot(old(self).handles@),
        ensures
            final(self).handles.wf(),
            final(self).same_but_handles(*old(self)),
            match result {
                Ok(fresh) => {
                    &&& old(self).handles@.dom().contains(slot as u64)
                    &&& old(self).handles@[slot as u64].clone_refusal is None
                    &&& lowest_free(old(self).handles@, fresh)
                    &&& final(self).handles@ == old(self).handles@.insert(
                        fresh as u64,
                        old(self).handles@[slot as u64],
                    )
                },
                Err(error) => {
                    &&& final(self).handles@ == old(self).handles@
                    &&& if old(self).handles@.dom().contains(slot as u64) {
                        old(self).handles@[slot as u64].clone_refusal == Some(error)
                    } else {
                        error == ObjectError::ObjectNotFound
                    }
                },
            },
    {
        self.handles.clone_handle(slot)
    }
}

} // verus!

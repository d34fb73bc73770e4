//! The table of all processes, and how tasks join and leave them.

use vstd::prelude::*;

use super::lifecycle::Process;
use super::tasks::{ProcessPhase, ProcessReapAction, ProcessTasks};
use crate::collections::IdTable;
use crate::error::ObjectOrUnderlyingError;
use crate::object::{Capability, Handle, ObjectError};
use crate::sched::cpus::SchedulerSet;
use crate::sched::task::{TaskExit, TaskId};

verus! {

/// Errors of the virtual memory of a process.
#[derive(Debug, Clone, Copy, PartialEq, Eq, Structural)]
pub enum VmError {
    InvalidArgument,
    InvalidRange,
    AlreadyMapped,
    NotMapped,
    PermissionDenied,
}

/// Error of the object system or of the virtual memory.
pub type ProcessVmError = ObjectOrUnderlyingError<VmError>;

/// Manager of all processes.
pub struct ProcessManager {
    /// The processes by identifier.
    pub processes: IdTable<Process>,
    /// Owner handles of the published ones.
    pub owners: IdTable<Handle>,
}

/// New control handles of a process in creation.
#[derive(Debug, Clone, Copy, PartialEq, Eq, Structural)]
pub struct ControlHandles {
    pub live: Handle,
    pub supervisor: Handle,
    pub creator: Handle,
}

/// The handle that a process has of itself: it may read, write and execute.
pub open spec fn live_handle(control: Handle) -> Handle {
    Handle { capabilities: Capability::plain(true, true, true, false), ..control }
}

/// Rights of a handle to a live process.
pub fn live_rights() -> (capability: Capability)
    ensures
        capability == Capability::plain(true, true, true, false),
{
    Capability { read: true, write: true, execute: true, agent: false, admin: false, send: false }
}

impl ProcessManager {
    pub open spec fn wf(&self) -> bool {
        &&& self.processes.wf()
        &&& self.owners.wf()
        &&& forall|pid: u64| #[trigger]
            self.processes@.dom().contains(pid) ==> self.processes@[pid].wf()
                && self.processes@[pid].pid == pid && self.processes@[pid].tasks.consistent()
        &&& forall|pid: u64| #[trigger]
            self.owners@.dom().contains(pid) ==> self.processes@.dom().contains(pid)
    }

    /// A manager without processes.
    pub fn new() -> (manager: Self)
        ensures
            manager.wf(),
            manager.processes@ == Map::<u64, Process>::empty(),
            manager.owners@ == Map::<u64, Handle>::empty(),
    {
        ProcessManager { processes: IdTable::new(), owners: IdTable::new() }
    }

    /// Begins to publish a new process, once its address space was made. Without
    /// one, nothing is published.
    pub fn create_process(process: Process, address_space: Result<usize, ProcessVmError>) -> (result:
        Result<Process, ProcessVmError>)
        ensures
            result == (match address_space {
                Err(error) => Err::<Process, ProcessVmError>(error),
                Ok(root) => Ok::<Process, ProcessVmError>(
                    Process { address_space_root: Some(root), ..process },
                ),
            }),
    {
        match address_space {
            Err(error) => Err(error),
            Ok(root) => {
                let mut process = process;
                process.address_space_root = Some(root);
                Ok(process)
            },
        }
    }

    /// Takes over a process that was to be published: with the owner handle that
    /// the namespace gave, and a handle of its own that may read, write and
    /// execute.
    pub fn adopt_process(
        &mut self,
        process: Process,
        published: Result<Handle, ObjectError>,
        control: Handle,
    ) -> (result: Result<u64, ProcessVmError>)
        requires
            old(self).wf(),
            process.wf(),
            process.tasks.consistent(),
            process.tasks.members() == Set::<TaskId>::empty(),
            !process.tasks.terminating,
            !old(self).processes@.dom().contains(process.pid),
        ensures
            final(self).wf(),
            match published {
                Err(error) => {
                    &&& result == Err::<u64, ProcessVmError>(ProcessVmError::Object(error))
                    &&& final(self).processes@ == old(self).processes@
                    &&& final(self).owners@ == old(self).owners@
                },
                Ok(owner) => {
                    let pid = process.pid;
                    &&& result == Ok::<u64, ProcessVmError>(pid)
                    &&& final(self).owners@ == old(self).owners@.insert(pid, owner)
                    &&& final(self).processes@.dom() == old(self).processes@.dom().insert(pid)
                    &&& forall|other: u64| #[trigger]
                        old(self).processes@.dom().contains(other)
                            ==> final(self).processes@[other] == old(self).processes@[other]
                    &&& final(self).processes@[pid] == Process {
                        self_handle: Some(live_handle(control)),
                        tasks: ProcessTasks { phase: ProcessPhase::Running, ..process.tasks },
                        ..process
                    }
                },
            },
    {
        let mut process = process;
        let owner = match published {
            Err(error) => {
                return Err(ObjectOrUnderlyingError::Object(error));
            },
            Ok(owner) => owner,
        };
        process.self_handle = Some(Handle { capabilities: live_rights(), ..control });
        process.tasks.phase = ProcessPhase::Running;
        let pid: u64 = process.pid;
        let _ = self.owners.insert(pid, owner);
        let _ = self.processes.insert(pid, process);
        assert(self.processes@.dom() =~= old(self).processes@.dom().insert(pid));
        Ok(pid)
    }

    /// Starts the creation of a process that is not published. `handles` are the
    /// new control handles of the process: its own, the supervisor's, which is
    /// kept until the process runs, and the creator's, which is returned.
    pub fn create_process_bootstrap(
        &mut self,
        process: Process,
        address_space: Result<usize, ProcessVmError>,
        handles: ControlHandles,
    ) -> (result: Result<(u64, Handle), ProcessVmError>)
        requires
            old(self).wf(),
            process.wf(),
            process.tasks.consistent(),
            !old(self).processes@.dom().contains(process.pid),
        ensures
            final(self).wf(),
            final(self).owners@ == old(self).owners@,
            match address_space {
                Err(error) => {
                    &&& result == Err::<(u64, Handle), ProcessVmError>(error)
                    &&& final(self).processes@ == old(self).processes@
                },
                Ok(root) => {
                    let pid = process.pid;
                    &&& result == Ok::<(u64, Handle), ProcessVmError>(
                        (
                            pid,
                            Handle {
                                capabilities: Capability {
                                    admin: true,
                                    ..Capability::plain(true, true, false, false)
                                },
                                ..handles.creator
                            },
                        ),
                    )
                    &&& final(self).processes@.dom() == old(self).processes@.dom().insert(pid)
                    &&& forall|other: u64| #[trigger]
                        old(self).processes@.dom().contains(other)
                            ==> final(self).processes@[other] == old(self).processes@[other]
                    &&& final(self).processes@[pid] == Process {
                        address_space_root: Some(root),
                        self_handle: Some(live_handle(handles.live)),
                        creating_owner: Some(
                            Handle {
                                capabilities: Capability {
                                    admin: true,
                                    agent: true,
                                    ..Capability::plain(false, false, false, false)
                                },
                                ..handles.supervisor
                            },
                        ),
                        ..process
                    }
                },
            },
    {
        let mut process = process;
        let root: usize = match address_space {
            Err(error) => {
                return Err(error);
            },
            Ok(root) => root,
        };
        process.address_space_root = Some(root);
        process.self_handle = Some(Handle { capabilities: live_rights(), ..handles.live });
        let mut supervisor = handles.supervisor;
        supervisor.capabilities = Capability::none();
        supervisor.capabilities.admin = true;
        supervisor.capabilities.agent = true;
        process.initialize_creation_state(supervisor);
        let mut creator = handles.creator;
        creator.capabilities = Capability::none();
        creator.capabilities.read = true;
        creator.capabilities.write = true;
        creator.capabilities.admin = true;
        let pid: u64 = process.pid;
        let _ = self.processes.insert(pid, process);
        assert(self.processes@.dom() =~= old(self).processes@.dom().insert(pid));
        Ok((pid, creator))
    }

    /// The process of an identifier.
    pub fn process_ref(&self, pid: u64) -> (result: Result<&Process, ObjectError>)
        requires
            self.wf(),
        ensures
            match result {
                Ok(process) => self.processes@.dom().contains(pid) && *process
                    == self.processes@[pid],
                Err(error) => !self.processes@.dom().contains(pid) && error
                    == ObjectError::ObjectNotFound,
            },
    {
        match self.processes.get(pid) {
            Some(process) => Ok(process),
            None => Err(ObjectError::ObjectNotFound),
        }
    }

    /// A handle to a published process that may read, write and execute, with
    /// every interface capability.
    pub fn request_process_handle(&self, pid: u64) -> (result: Result<Handle, ObjectError>)
        requires
            self.wf(),
        ensures
            result == (if self.owners@.dom().contains(pid) {
                self.owners@[pid].derived(Capability::plain(true, true, true, false), u32::MAX)
            } else {
                Err::<Handle, ObjectError>(ObjectError::ObjectNotFound)
            }),
    {
        match self.owners.get(pid) {
            Some(owner) => owner.derive_handle(live_rights(), u32::MAX),
            None => Err(ObjectError::ObjectNotFound),
        }
    }

    /// Forgets a published process. `removed` is what taking it out of the
    /// namespace came to; only then may the identifier be handed out again.
    pub fn destroy_process(&mut self, pid: u64, removed: Result<(), ObjectError>) -> (result: Result<
        (),
        ObjectError,
    >)
        requires
            old(self).wf(),
        ensures
            final(self).wf(),
            result == removed,
            removed is Err ==> *final(self) == *old(self),
            removed is Ok ==> final(self).processes@ == old(self).processes@.remove(pid) && final(self).owners@ == old(self).owners@.remove(pid),
    {
        match removed {
            Err(error) => Err(error),
            Ok(()) => {
                let _ = self.owners.remove(pid);
                let _ = self.processes.remove(pid);
                removed
            },
        }
    }

    /// Forgets a process that was never published.
    pub fn drop_process(&mut self, pid: u64) -> (result: Result<(), ObjectError>)
        requires
            old(self).wf(),
        ensures
            final(self).wf(),
            final(self).processes@ == old(self).processes@.remove(pid),
            final(self).owners@ == old(self).owners@.remove(pid),
            result == (if old(self).processes@.dom().contains(pid) {
                Ok::<(), ObjectError>(())
            } else {
                Err::<(), ObjectError>(ObjectError::ObjectNotFound)
            }),
    {
        let _ = self.owners.remove(pid);
        match self.processes.remove(pid) {
            Some(_) => Ok(()),
            None => Err(ObjectError::ObjectNotFound),
        }
    }

    /// Only the tasks of one process have changed.
    pub open spec fn only_tasks_changed(&self, before: ProcessManager, pid: u64) -> bool {
        &&& self.owners@ == before.owners@
        &&& self.processes@.dom() == before.processes@.dom()
        &&& forall|other: u64| #[trigger]
            before.processes@.dom().contains(other) && other != pid ==> self.processes@[other]
                == before.processes@[other]
        &&& before.processes@.dom().contains(pid) ==> self.processes@[pid].same_but_tasks(
            before.processes@[pid],
        )
    }

    /// Takes an ended task out of its process. Where that ends the process, its
    /// other tasks are asked to stop.
    pub fn reap_task(
        &mut self,
        set: &mut SchedulerSet,
        pid: u64,
        exit: TaskExit,
        task_id: TaskId,
    ) -> (result: Result<ProcessReapAction, ObjectError>)
        requires
            old(self).wf(),
            old(set).wf(),
        ensures
            final(self).wf(),
            final(set).wf(),
            final(self).only_tasks_changed(*old(self), pid),
            Process::reap_asks(*old(set), *final(set), result),
            if old(self).processes@.dom().contains(pid) {
                ProcessTasks::reap_effect(
                    old(self).processes@[pid].tasks,
                    final(self).processes@[pid].tasks,
                    task_id,
                    exit,
                    result,
                )
            } else {
                result == Err::<ProcessReapAction, ObjectError>(ObjectError::ObjectNotFound)
            },
    {
        match self.processes.remove(pid) {
            None => {
                assert(self.processes@ =~= old(self).processes@);
                Err(ObjectError::ObjectNotFound)
            },
            Some(process) => {
                let mut process = process;
                let result = process.reap_task(set, task_id, exit);
                let _ = self.processes.insert(pid, process);
                assert(self.processes@.dom() =~= old(self).processes@.dom());
                result
            },
        }
    }

    pub(crate) fn register(&mut self, pid: u64, task_id: TaskId) -> (result: Result<(), ObjectError>)
        requires
            old(self).wf(),
        ensures
            final(self).wf(),
            final(self).only_tasks_changed(*old(self), pid),
            if old(self).processes@.dom().contains(pid) {
                ProcessTasks::register_effect(
                    old(self).processes@[pid].tasks,
                    final(self).processes@[pid].tasks,
                    task_id,
                    result,
                )
            } else {
                result == Err::<(), ObjectError>(ObjectError::ObjectNotFound)
            },
    {
        match self.processes.remove(pid) {
            None => {
                assert(self.processes@ =~= old(self).processes@);
                Err(ObjectError::ObjectNotFound)
            },
            Some(process) => {
                let mut process = process;
                let result = process.tasks.register_task(task_id);
                let _ = self.processes.insert(pid, process);
                assert(self.processes@.dom() =~= old(self).processes@.dom());
                result
            },
        }
    }
}

} // verus!

//! Task membership of a process and the end of the process.

use vstd::prelude::*;

use crate::collections::IdTable;
use crate::object::ObjectError;
use crate::sched::task::{TaskExit, TaskId};

verus! {

/// Lifecycle of a process.
#[derive(Debug, Clone, Copy, PartialEq, Eq, Structural)]
pub enum ProcessPhase {
    Running,
    Terminating,
    Exited,
}

/// What taking a task out of its process leads to.
#[derive(Debug)]
pub enum ProcessReapAction {
    /// The process goes on, or was ending already.
    Detached,
    /// The process ends with `code`; these tasks are to be cancelled.
    ProcessExited { code: usize, cancel: Vec<TaskId> },
}

/// Why user code was left.
#[derive(Debug, Clone, Copy, PartialEq, Eq, Structural)]
pub enum TrapReason {
    Syscall,
    Interrupt(usize),
    PageFault { addr: usize, write: bool },
    UndefinedInstruction,
    UnalignedAccess,
    GeneralFault(usize),
    SoftwareBreakpoint,
    HardwareBreakpoint,
}

/// What a process decides on a fault of its user code.
#[derive(Debug, Clone, Copy, PartialEq, Eq, Structural)]
pub enum ProcessFaultAction {
    Resume,
    Terminate,
}

impl ProcessFaultAction {
    /// Whether the process goes on.
    pub fn resumable(self) -> (resumes: bool)
        ensures
            resumes == (self is Resume),
    {
        matches!(self, ProcessFaultAction::Resume)
    }
}

/// Breakpoints and interrupts are survived, everything else is not.
pub fn handle_fault(reason: &TrapReason) -> (action: ProcessFaultAction)
    ensures
        action == (if reason is SoftwareBreakpoint || reason is HardwareBreakpoint
            || reason is Interrupt {
            ProcessFaultAction::Resume
        } else {
            ProcessFaultAction::Terminate
        }),
{
    match reason {
        TrapReason::SoftwareBreakpoint
        | TrapReason::HardwareBreakpoint
        | TrapReason::Interrupt(_) => ProcessFaultAction::Resume,
        TrapReason::Syscall
        | TrapReason::PageFault { .. }
        | TrapReason::UndefinedInstruction
        | TrapReason::UnalignedAccess
        | TrapReason::GeneralFault(_) => ProcessFaultAction::Terminate,
    }
}

/// The tasks of a process and how far its end has come.
pub struct ProcessTasks {
    pub tasks: IdTable<()>,
    pub phase: ProcessPhase,
    pub terminating: bool,
    pub exit_code: Option<usize>,
}

impl ProcessTasks {
    /// The registered tasks.
    pub open spec fn members(&self) -> Set<TaskId> {
        self.tasks@.dom()
    }

    pub open spec fn wf(&self) -> bool {
        self.tasks.wf()
    }

    /// The recorded exit code, the mark that the process ends and the phase
    /// belong together.
    pub open spec fn consistent(&self) -> bool {
        &&& self.terminating <==> self.exit_code is Some
        &&& self.terminating ==> !(self.phase is Running)
        &&& self.terminating && self.phase is Terminating ==> !self.members().is_empty()
        &&& self.terminating && self.phase is Exited ==> self.members().is_empty()
    }

    /// A running process without tasks.
    pub fn new() -> (state: Self)
        ensures
            state.wf(),
            state.consistent(),
            state.members() == Set::<TaskId>::empty(),
            state.phase == ProcessPhase::Running,
            !state.terminating,
            state.exit_code is None,
    {
        let state = ProcessTasks {
            tasks: IdTable::new(),
            phase: ProcessPhase::Running,
            terminating: false,
            exit_code: None,
        };
        assert(state.members() =~= Set::<TaskId>::empty());
        state
    }

    /// What registering a task does. A process that ends takes no task; a
    /// known task is refused but stays.
    pub open spec fn register_effect(
        before: ProcessTasks,
        after: ProcessTasks,
        task_id: TaskId,
        result: Result<(), ObjectError>,
    ) -> bool {
        &&& after.phase == before.phase
        &&& after.terminating == before.terminating
        &&& after.exit_code == before.exit_code
        &&& if before.terminating {
            result == Err::<(), ObjectError>(ObjectError::ObjectDestroyed) && after.members()
                == before.members()
        } else if before.members().contains(task_id) {
            result == Err::<(), ObjectError>(ObjectError::InvalidArgument) && after.members()
                == before.members()
        } else {
            result == Ok::<(), ObjectError>(()) && after.members() == before.members().insert(task_id)
        }
    }

    /// Records that a task belongs to the process.
    pub fn register_task(&mut self, task_id: TaskId) -> (result: Result<(), ObjectError>)
        requires
            old(self).wf(),
        ensures
            final(self).wf(),
            old(self).consistent() ==> final(self).consistent(),
            Self::register_effect(*old(self), *final(self), task_id, result),
    {
        if self.terminating {
            return Err(ObjectError::ObjectDestroyed);
        }
        let known = self.tasks.insert(task_id, ());
        if known.is_some() {
            assert(self.members() =~= old(self).members());
            return Err(ObjectError::InvalidArgument);
        }
        assert(self.members() =~= old(self).members().insert(task_id));
        Ok(())
    }

    /// Takes a task out again without touching the exit state. Used while the
    /// process is not ending.
    pub fn unregister_task(&mut self, task_id: TaskId) -> (result: Result<(), ObjectError>)
        requires
            old(self).wf(),
        ensures
            final(self).wf(),
            old(self).consistent() && !old(self).terminating ==> final(self).consistent(),
            final(self).phase == old(self).phase,
            final(self).terminating == old(self).terminating,
            final(self).exit_code == old(self).exit_code,
            final(self).members() == old(self).members().remove(task_id),
            result == (if old(self).members().contains(task_id) {
                Ok::<(), ObjectError>(())
            } else {
                Err::<(), ObjectError>(ObjectError::ObjectNotFound)
            }),
    {
        let removed = self.tasks.remove(task_id);
        assert(self.members() =~= old(self).members().remove(task_id));
        if removed.is_none() {
            return Err(ObjectError::ObjectNotFound);
        }
        Ok(())
    }

    /// The phase of an ending process with these tasks left.
    pub open spec fn ending_phase(members: Set<TaskId>) -> ProcessPhase {
        if members.is_empty() {
            ProcessPhase::Exited
        } else {
            ProcessPhase::Terminating
        }
    }

    /// What reaping a task does. The first task that exits the process starts
    /// its end: its code is kept, and every other task is to be cancelled. An
    /// ending process has exited when its last task is gone.
    pub open spec fn reap_effect(
        before: ProcessTasks,
        after: ProcessTasks,
        task_id: TaskId,
        exit: TaskExit,
        result: Result<ProcessReapAction, ObjectError>,
    ) -> bool {
        let rest = before.members().remove(task_id);
        if !before.members().contains(task_id) {
            &&& result == Err::<ProcessReapAction, ObjectError>(ObjectError::ObjectNotFound)
            &&& after.members() == before.members()
            &&& after.phase == before.phase
            &&& after.terminating == before.terminating
            &&& after.exit_code == before.exit_code
        } else {
            &&& after.members() == rest
            &&& match exit {
                TaskExit::ProcessExited(code) if !before.terminating => {
                    &&& after.terminating
                    &&& after.exit_code == Some(code)
                    &&& after.phase == Self::ending_phase(rest)
                    &&& result matches Ok(ProcessReapAction::ProcessExited { code: told, cancel })
                    &&& told == code
                    &&& cancel@.no_duplicates()
                    &&& cancel@.to_set() == rest
                },
                _ => {
                    &&& result == Ok::<ProcessReapAction, ObjectError>(ProcessReapAction::Detached)
                    &&& after.terminating == before.terminating
                    &&& after.exit_code == before.exit_code
                    &&& after.phase == (if before.terminating && rest.is_empty() {
                        ProcessPhase::Exited
                    } else {
                        before.phase
                    })
                },
            }
        }
    }

    /// Takes an ended task out of the process.
    pub fn reap_task(&mut self, task_id: TaskId, exit: TaskExit) -> (result: Result<
        ProcessReapAction,
        ObjectError,
    >)
        requires
            old(self).wf(),
        ensures
            final(self).wf(),
            old(self).consistent() ==> final(self).consistent(),
            Self::reap_effect(*old(self), *final(self), task_id, exit, result),
    {
        let removed = self.tasks.remove(task_id);
        assert(self.members() =~= old(self).members().remove(task_id));
        if removed.is_none() {
            assert(self.members() =~= old(self).members());
            return Err(ObjectError::ObjectNotFound);
        }
        let empty = self.tasks.is_empty();
        proof {
            if empty {
                assert(self.members() =~= Set::<TaskId>::empty());
            } else if self.members().is_empty() {
                assert(self.tasks@ =~= Map::<u64, ()>::empty());
            }
        }
        match exit {
            TaskExit::ProcessExited(code) => {
                if !self.terminating {
                    self.terminating = true;
                    self.exit_code = Some(code);
                    self.phase = if empty {
                        ProcessPhase::Exited
                    } else {
                        ProcessPhase::Terminating
                    };
                    let cancel = self.tasks.keys();
                    proof {
                        self.tasks.lemma_order();
                    }
                    return Ok(ProcessReapAction::ProcessExited { code, cancel });
                }
            },
            _ => {},
        }
        if self.terminating && empty {
            self.phase = ProcessPhase::Exited;
        }
        Ok(ProcessReapAction::Detached)
    }

    /// Whether a task is registered.
    pub fn owns_task_id(&self, task_id: TaskId) -> (owned: bool)
        requires
            self.wf(),
        ensures
            owned == self.members().contains(task_id),
    {
        self.tasks.contains(task_id)
    }

    /// Number of registered tasks.
    pub fn task_count(&self) -> (count: usize)
        requires
            self.wf(),
        ensures
            count == self.members().len(),
            self.members().finite(),
    {
        self.tasks.len()
    }
}

/// A task that was registered and ends on its own leaves the process as it was.
pub proof fn law_register_then_reap(
    before: ProcessTasks,
    registered: ProcessTasks,
    after: ProcessTasks,
    task_id: TaskId,
    exit: TaskExit,
    result: Result<ProcessReapAction, ObjectError>,
)
    requires
        !before.terminating,
        !before.members().contains(task_id),
        !(exit is ProcessExited),
        ProcessTasks::register_effect(before, registered, task_id, Ok(())),
        ProcessTasks::reap_effect(registered, after, task_id, exit, result),
    ensures
        after.members() == before.members(),
        after.phase == before.phase,
        after.exit_code == before.exit_code,
        !after.terminating,
{
    assert(before.members().insert(task_id).remove(task_id) =~= before.members());
}

/// The first exit code stays: no later task changes it.
pub proof fn law_first_exit_code_stays(
    before: ProcessTasks,
    after: ProcessTasks,
    task_id: TaskId,
    exit: TaskExit,
    result: Result<ProcessReapAction, ObjectError>,
)
    requires
        before.consistent(),
        before.exit_code is Some,
        ProcessTasks::reap_effect(before, after, task_id, exit, result),
    ensures
        after.exit_code == before.exit_code,
        after.terminating,
        !(result matches Ok(ProcessReapAction::ProcessExited { .. })),
{
}

/// Once the process ends, nothing joins it any more.
pub proof fn law_ending_process_takes_no_task(
    before: ProcessTasks,
    after: ProcessTasks,
    task_id: TaskId,
    result: Result<(), ObjectError>,
)
    requires
        before.terminating,
        ProcessTasks::register_effect(before, after, task_id, result),
    ensures
        result is Err,
        after.members() == before.members(),
{
}

} // verus!

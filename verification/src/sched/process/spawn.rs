//! How a task joins its process and its CPU, and how it leaves both.

use vstd::prelude::*;

use super::lifecycle::{Process, SpawnError, SpawnTaskError};
use super::manager::ProcessManager;
use super::tasks::{ProcessReapAction, ProcessTasks};
use crate::memory::range::VmRange;
use crate::object::ObjectError;
use crate::sched::cpus::{notice_for, SchedulerSet, WakeNotice};
use crate::sched::preempt::{PreemptGuard, PreemptState};
use crate::sched::scheduler::{lemma_filter_out, Scheduler};
use crate::sched::task::{Task, TaskExecution, TaskExit, TaskId, TaskSchedState};

verus! {

/// Whether a task shell is new: blocked, in nobody's queue and without a
/// runnable.
pub open spec fn fresh_shell(task: Task) -> bool {
    &&& task.state.sched == TaskSchedState::Blocked
    &&& task.state.terminal is None
    &&& task.sched.exec_start is None
    &&& !task.wake_queued
    &&& !task.execution.runnable
}

/// What spawning a task comes to, in the order of what can go wrong: the CPU,
/// the process, and a cancellation that came first.
pub open spec fn spawn_check(
    set: SchedulerSet,
    tasks: ProcessTasks,
    task: Task,
    cpu_id: usize,
) -> Option<SpawnTaskError> {
    match set.cpu_error(cpu_id) {
        Some(error) => Some(SpawnTaskError::Scheduler(error)),
        None => if tasks.terminating {
            Some(SpawnTaskError::Object(ObjectError::ObjectDestroyed))
        } else if tasks.members().contains(task.id) {
            Some(SpawnTaskError::Object(ObjectError::InvalidArgument))
        } else if task.execution.cancel_requested {
            Some(SpawnTaskError::Object(ObjectError::ObjectDestroyed))
        } else {
            None
        },
    }
}

/// A CPU has the same clock, weight, queues and running task.
pub open spec fn runs_the_same(before: Scheduler, after: Scheduler) -> bool {
    &&& after.cpu_id == before.cpu_id
    &&& after.current == before.current
    &&& after.vtime == before.vtime
    &&& after.total_weight == before.total_weight
    &&& after.last_balance == before.last_balance
    &&& after.eligible@ == before.eligible@
    &&& after.ineligible@ == before.ineligible@
}

/// Nothing of a task is left on the machine.
pub open spec fn undone(before: SchedulerSet, after: SchedulerSet) -> bool {
    &&& after.tasks@ == before.tasks@
    &&& after.balance_hint == before.balance_hint
    &&& after.cpus@.len() == before.cpus@.len()
    &&& forall|c: int| #[trigger] after.installed(c) <==> before.installed(c)
    &&& forall|c: int| #[trigger]
        after.installed(c) ==> {
            &&& runs_the_same(before.cpu(c), after.cpu(c))
            &&& after.cpu(c).owned@ == before.cpu(c).owned@
            &&& after.cpu(c).wake_inbox@ == before.cpu(c).wake_inbox@
        }
}

/// A task shell that was admitted to a CPU, got its runnable and is being woken.
pub open spec fn started(cpu: Scheduler, task: Task) -> Task {
    Task {
        wake_queued: true,
        execution: (TaskExecution { runnable: true, ..task.execution }),
        ..cpu.admitted(task)
    }
}

/// A task shell was spawned on a CPU, which has a wakeup of it and is otherwise
/// as it was.
pub open spec fn spawned(
    before: SchedulerSet,
    after: SchedulerSet,
    task: Task,
    cpu: int,
) -> bool {
    &&& after.only_cpu_changed(before, cpu)
    &&& after.balance_hint == before.balance_hint
    &&& after.tasks@ == before.tasks@.insert(task.id, started(before.cpu(cpu), task))
    &&& runs_the_same(before.cpu(cpu), after.cpu(cpu))
    &&& after.cpu(cpu).owned@ == before.cpu(cpu).owned@.insert(task.id, ())
    &&& after.cpu(cpu).wake_inbox@ == before.cpu(cpu).wake_inbox@.push(task.id)
}

impl ProcessManager {
    /// What spawning a task shell does to its process and to the machine, and
    /// what it returns.
    pub open spec fn spawn_effect(
        before: ProcessManager,
        set_before: SchedulerSet,
        after: ProcessManager,
        set_after: SchedulerSet,
        cpu_id: usize,
        task: Task,
        current_cpu: usize,
        result: Result<(TaskId, WakeNotice), SpawnTaskError>,
    ) -> bool {
        let tasks_before = before.processes@[task.process_id].tasks;
        let tasks_after = after.processes@[task.process_id].tasks;
        &&& after.only_tasks_changed(before, task.process_id)
        &&& tasks_after.phase == tasks_before.phase
        &&& tasks_after.terminating == tasks_before.terminating
        &&& tasks_after.exit_code == tasks_before.exit_code
        &&& match spawn_check(set_before, tasks_before, task, cpu_id) {
            Some(error) => {
                &&& result == Err::<(TaskId, WakeNotice), SpawnTaskError>(error)
                &&& tasks_after.members() == tasks_before.members()
                &&& undone(set_before, set_after)
            },
            None => {
                &&& result == Ok::<(TaskId, WakeNotice), SpawnTaskError>(
                    (task.id, notice_for(cpu_id, current_cpu)),
                )
                &&& tasks_after.members() == tasks_before.members().insert(task.id)
                &&& spawned(set_before, set_after, task, cpu_id as int)
            },
        }
    }

    /// Admits a task shell to a CPU, registers it with its process and only
    /// then makes it runnable, so that a task that ends at once is known to
    /// its process. Whatever fails is undone.
    pub fn spawn_task(
        &mut self,
        set: &mut SchedulerSet,
        cpu_id: usize,
        task: Task,
        current_cpu: usize,
    ) -> (result: Result<(TaskId, WakeNotice), SpawnTaskError>)
        requires
            old(self).wf(),
            old(set).wf(),
            old(self).processes@.dom().contains(task.process_id),
            !old(set).tasks@.dom().contains(task.id),
            fresh_shell(task),
        ensures
            final(self).wf(),
            final(set).wf(),
            Self::spawn_effect(
                *old(self),
                *old(set),
                *final(self),
                *final(set),
                cpu_id,
                task,
                current_cpu,
                result,
            ),
    {
        let ghost c = cpu_id as int;
        let task_id: TaskId = task.id;
        let pid: u64 = task.process_id;
        match set.check_cpu(cpu_id) {
            Err(error) => {
                return Err(SpawnTaskError::Scheduler(error));
            },
            Ok(()) => {},
        }
        assert(set.installed(c));
        proof {
            assert forall|d: int| #[trigger] set.installed(d) implies !set.cpu(d).owns(task_id) by {
                if set.cpu(d).owns(task_id) {
                    assert(set.cpu(d).task_wf(set.tasks@, task_id));
                }
            }
        }
        set.register_task(task);
        let ghost registered = *set;
        assert forall|d: int| #[trigger] set.installed(d) implies !set.cpu(d).owns(task_id) by {
            assert(old(set).installed(d));
        }
        let admitted = set.admit_inactive_task(cpu_id, task_id);
        assert(registered.cpu_error(cpu_id) is None);
        assert(set.installed(c));
        let ghost shell = *set;
        proof {
            lemma_admitted(*old(set), registered, shell, task, c);
        }
        match self.register(pid, task_id) {
            Err(error) => {
                let _ = set.withdraw_inactive_task(cpu_id, task_id);
                proof {
                    lemma_withdrawn(*old(set), shell, *set, task, c);
                }
                return Err(SpawnTaskError::Object(error));
            },
            Ok(()) => {},
        }
        if task.execution.cancel_requested {
            self.unregister(pid, task_id);
            let _ = set.withdraw_inactive_task(cpu_id, task_id);
            proof {
                lemma_withdrawn(*old(set), shell, *set, task, c);
                assert(self.processes@[pid].tasks.members() =~= old(self).processes@[pid].tasks.members());
            }
            return Err(SpawnTaskError::Object(ObjectError::ObjectDestroyed));
        }
        assert(set.owner(task_id, c));
        match set.task_on_cpu(cpu_id, task_id) {
            Some(owned) => {
                let mut execution = owned.execution;
                execution.install_runnable();
                set.annotate(task_id, execution, owned.placement);
            },
            None => {},
        }
        assert(set.cpu_error(cpu_id) is None);
        let ghost ready = *set;
        match set.queue_wakeup(cpu_id, task_id, current_cpu) {
            Ok(notice) => {
                proof {
                    assert(set.tasks@ =~= old(set).tasks@.insert(
                        task_id,
                        started(old(set).cpu(c), task),
                    ));
                    assert forall|d: int| 0 <= d < old(set).cpus@.len() && d != c implies
                        #[trigger] set.cpus@[d] == old(set).cpus@[d] by {
                        assert(shell.cpus@[d] == registered.cpus@[d]);
                        assert(ready.cpus@[d] == shell.cpus@[d]);
                    }
                }
                Ok((task_id, notice))
            },
            Err(error) => Err(SpawnTaskError::Scheduler(error)),
        }
    }

    /// Makes a task shell on the kernel stack that was allocated for it and
    /// spawns it. A task is spawned outside preemption; what was due before is
    /// due after.
    pub fn spawn_on(
        &mut self,
        set: &mut SchedulerSet,
        preempt: &mut PreemptState,
        cpu_id: usize,
        task_id: TaskId,
        pid: u64,
        kernel_stack: Result<VmRange, ObjectError>,
        current_cpu: usize,
    ) -> (result: Result<(TaskId, WakeNotice), SpawnError>)
        requires
            old(self).wf(),
            old(set).wf(),
            old(self).processes@.dom().contains(pid),
            !old(set).tasks@.dom().contains(task_id),
            old(preempt).count < usize::MAX,
        ensures
            final(self).wf(),
            final(set).wf(),
            *final(preempt) == *old(preempt),
            match kernel_stack {
                Err(error) => {
                    &&& result == Err::<(TaskId, WakeNotice), SpawnError>(SpawnError::Object(error))
                    &&& *final(set) == *old(set)
                    &&& *final(self) == *old(self)
                },
                Ok(stack) => {
                    let task = Task::shell(task_id, pid, stack);
                    match result {
                        Ok(spawned) => Self::spawn_effect(
                            *old(self),
                            *old(set),
                            *final(self),
                            *final(set),
                            cpu_id,
                            task,
                            current_cpu,
                            Ok(spawned),
                        ),
                        Err(SpawnError::Scheduler(error)) => Self::spawn_effect(
                            *old(self),
                            *old(set),
                            *final(self),
                            *final(set),
                            cpu_id,
                            task,
                            current_cpu,
                            Err(error),
                        ),
                        Err(_) => false,
                    }
                },
            },
    {
        let guard = PreemptGuard::enter_deferred(preempt);
        let result = match kernel_stack {
            Err(error) => Err(SpawnError::Object(error)),
            Ok(stack) => {
                let task = Task::new(task_id, pid, stack);
                match self.spawn_task(set, cpu_id, task, current_cpu) {
                    Ok(spawned) => Ok(spawned),
                    Err(error) => Err(SpawnError::Scheduler(error)),
                }
            },
        };
        let _ = guard.leave(preempt);
        result
    }

    fn unregister(&mut self, pid: u64, task_id: TaskId)
        requires
            old(self).wf(),
            old(self).processes@.dom().contains(pid),
            !old(self).processes@[pid].tasks.terminating,
        ensures
            final(self).wf(),
            final(self).only_tasks_changed(*old(self), pid),
            final(self).processes@[pid].tasks.members() == old(self).processes@[pid].tasks.members().remove(task_id),
            final(self).processes@[pid].tasks.phase == old(self).processes@[pid].tasks.phase,
            final(self).processes@[pid].tasks.terminating == old(self).processes@[pid].tasks.terminating,
            final(self).processes@[pid].tasks.exit_code == old(self).processes@[pid].tasks.exit_code,
    {
        match self.processes.remove(pid) {
            None => {},
            Some(process) => {
                let mut process = process;
                let _ = process.tasks.unregister_task(task_id);
                let _ = self.processes.insert(pid, process);
                assert(self.processes@.dom() =~= old(self).processes@.dom());
            },
        }
    }
}

/// How a task ended; one that says nothing has completed.
pub open spec fn exit_of(task: Task) -> TaskExit {
    match task.state.terminal {
        Some(exit) => exit,
        None => TaskExit::Completed,
    }
}

impl ProcessManager {
    /// What reaping an ended task does where its process is known: the task
    /// leaves it, and where that ends the process, the other tasks are first all
    /// asked to stop and then woken.
    pub open spec fn reaped(
        before: ProcessManager,
        set_before: SchedulerSet,
        after: ProcessManager,
        set_after: SchedulerSet,
        task: Task,
        current_cpu: usize,
        notices: Seq<WakeNotice>,
        result: Result<ProcessReapAction, ObjectError>,
        asked: SchedulerSet,
    ) -> bool {
        &&& ProcessTasks::reap_effect(
            before.processes@[task.process_id].tasks,
            after.processes@[task.process_id].tasks,
            task.id,
            exit_of(task),
            result,
        )
        &&& Process::reap_asks(set_before, asked, result)
        &&& asked.wf()
        &&& match result {
            Ok(ProcessReapAction::ProcessExited { code, cancel }) => {
                &&& SchedulerSet::woken(asked, set_after, cancel@)
                &&& notices == asked.notices(cancel@, current_cpu)
            },
            _ => set_after == asked && notices == Seq::<WakeNotice>::empty(),
        }
    }

    /// Takes an ended task out of its process. Where that ends the process, its
    /// other tasks are asked to stop and woken; the notices tell which CPUs have
    /// work now. A task of an unknown process leaves nothing behind.
    pub fn reap_finished_task(&mut self, set: &mut SchedulerSet, task: Task, current_cpu: usize) -> (
    notices: Vec<WakeNotice>)
        requires
            old(self).wf(),
            old(set).wf(),
        ensures
            final(self).wf(),
            final(set).wf(),
            final(self).only_tasks_changed(*old(self), task.process_id),
            if old(self).processes@.dom().contains(task.process_id) {
                exists|result: Result<ProcessReapAction, ObjectError>, asked: SchedulerSet|
                    #[trigger] Self::reaped(
                        *old(self),
                        *old(set),
                        *final(self),
                        *final(set),
                        task,
                        current_cpu,
                        notices@,
                        result,
                        asked,
                    )
            } else {
                *final(set) == *old(set) && notices@ == Seq::<WakeNotice>::empty()
            },
    {
        let exit = match task.state.terminal {
            Some(exit) => exit,
            None => TaskExit::Completed,
        };
        let result = self.reap_task(set, task.process_id, exit, task.id);
        let ghost asked = *set;
        let notices: Vec<WakeNotice> = match &result {
            Ok(ProcessReapAction::ProcessExited { code: _, cancel }) => set.wake_tasks(
                cancel,
                current_cpu,
            ),
            _ => Vec::new(),
        };
        proof {
            if old(self).processes@.dom().contains(task.process_id) {
                assert(Self::reaped(
                    *old(self),
                    *old(set),
                    *self,
                    *set,
                    task,
                    current_cpu,
                    notices@,
                    result,
                    asked,
                ));
            }
        }
        notices
    }
}

/// When a task ends its process, every other task that the process has
/// registered and that has not gone is asked to stop, whether a CPU has taken it
/// over or not; where a CPU owns it, that CPU has a wakeup of it.
pub proof fn law_process_exit_stops_siblings(
    before: ProcessManager,
    set_before: SchedulerSet,
    after: ProcessManager,
    set_after: SchedulerSet,
    task: Task,
    current_cpu: usize,
    notices: Seq<WakeNotice>,
    result: Result<ProcessReapAction, ObjectError>,
    asked: SchedulerSet,
    code: usize,
    sibling: TaskId,
)
    requires
        set_before.wf(),
        ProcessManager::reaped(
            before,
            set_before,
            after,
            set_after,
            task,
            current_cpu,
            notices,
            result,
            asked,
        ),
        exit_of(task) == TaskExit::ProcessExited(code),
        !before.processes@[task.process_id].tasks.terminating,
        before.processes@[task.process_id].tasks.members().contains(task.id),
        before.processes@[task.process_id].tasks.members().contains(sibling),
        sibling != task.id,
        set_before.tasks@.dom().contains(sibling),
    ensures
        set_after.tasks@[sibling].execution.cancel_requested,
        set_before.is_owned(sibling) ==> set_after.tasks@[sibling].wake_queued,
        forall|cpu: int| #[trigger]
            set_before.owner(sibling, cpu) && !set_before.tasks@[sibling].wake_queued
                ==> set_after.cpu(cpu).wake_inbox@.contains(sibling),
{
    match result {
        Ok(ProcessReapAction::ProcessExited { code: _, cancel }) => {
            assert(cancel@.to_set().contains(sibling));
            assert(cancel@.contains(sibling));
            assert forall|cpu: int| #[trigger]
                set_before.owner(sibling, cpu) implies asked.owner(sibling, cpu)
                && asked.is_owned(sibling) by {
                assert(asked.cpus == set_before.cpus);
                assert(asked.cpu(cpu) == set_before.cpu(cpu));
                assert(asked.owner(sibling, cpu));
            }
            if set_before.is_owned(sibling) {
                let cpu = choose|cpu: int| #[trigger] set_before.owner(sibling, cpu);
                assert(asked.owner(sibling, cpu));
            }
            assert forall|cpu: int| #[trigger]
                set_before.owner(sibling, cpu) && !set_before.tasks@[sibling].wake_queued implies
                set_after.cpu(cpu).wake_inbox@.contains(sibling) by {
                assert(asked.owner(sibling, cpu));
                assert(set_after.installed(cpu));
                asked.lemma_listed(cpu, cancel@, sibling);
            }
        },
        _ => {},
    }
}

/// A shell that a CPU admits is in none of its queues.
proof fn lemma_admitted(
    before: SchedulerSet,
    registered: SchedulerSet,
    shell: SchedulerSet,
    task: Task,
    c: int,
)
    requires
        before.wf(),
        shell.wf(),
        before.installed(c),
        fresh_shell(task),
        !before.tasks@.dom().contains(task.id),
        registered.cpus == before.cpus,
        registered.balance_hint == before.balance_hint,
        registered.tasks@ == before.tasks@.insert(task.id, task),
        SchedulerSet::admission(registered, shell, c, task.id),
    ensures
        shell.only_cpu_changed(before, c),
        shell.balance_hint == before.balance_hint,
        shell.tasks@ == before.tasks@.insert(task.id, before.cpu(c).admitted(task)),
        runs_the_same(before.cpu(c), shell.cpu(c)),
        shell.cpu(c).owned@ == before.cpu(c).owned@.insert(task.id, ()),
        shell.cpu(c).wake_inbox == before.cpu(c).wake_inbox,
        !before.cpu(c).owns(task.id),
{
    assert(registered.cpu(c) == before.cpu(c));
    assert(shell.tasks@ =~= before.tasks@.insert(task.id, before.cpu(c).admitted(task)));
    assert(shell.cpu(c).queues_wf(shell.tasks@));
    assert(before.cpu(c).queues_wf(before.tasks@));
    assert(!before.cpu(c).owns(task.id)) by {
        if before.cpu(c).owns(task.id) {
            assert(before.cpu(c).task_wf(before.tasks@, task.id));
        }
    }
    assert(shell.cpu(c).eligible@ =~= before.cpu(c).eligible@);
    assert(shell.cpu(c).ineligible@ =~= before.cpu(c).ineligible@);
}

/// Withdrawing a shell right after its admission leaves no trace of it.
proof fn lemma_withdrawn(
    before: SchedulerSet,
    shell: SchedulerSet,
    after: SchedulerSet,
    task: Task,
    c: int,
)
    requires
        before.wf(),
        before.installed(c),
        !before.tasks@.dom().contains(task.id),
        !before.cpu(c).owns(task.id),
        shell.only_cpu_changed(before, c),
        shell.balance_hint == before.balance_hint,
        shell.tasks@ == before.tasks@.insert(task.id, before.cpu(c).admitted(task)),
        runs_the_same(before.cpu(c), shell.cpu(c)),
        shell.cpu(c).owned@ == before.cpu(c).owned@.insert(task.id, ()),
        shell.cpu(c).wake_inbox == before.cpu(c).wake_inbox,
        after.only_cpu_changed(shell, c),
        after.balance_hint == shell.balance_hint,
        after.tasks@ == shell.tasks@.remove(task.id),
        after.cpu(c).owned@ == shell.cpu(c).owned@.remove(task.id),
        Scheduler::withdrawn(shell.cpu(c), after.cpu(c), task.id),
    ensures
        undone(before, after),
{
    assert(after.tasks@ =~= before.tasks@);
    assert(after.cpu(c).owned@ =~= before.cpu(c).owned@);
    let inbox = before.cpu(c).wake_inbox@;
    assert(before.cpu(c).inbox_wf(before.tasks@));
    assert(!inbox.contains(task.id)) by {
        if inbox.contains(task.id) {
            let k = choose|k: int| 0 <= k < inbox.len() && inbox[k] == task.id;
            assert(before.tasks@.dom().contains(inbox[k]));
        }
    }
    lemma_filter_out(inbox, task.id, inbox.len() as int);
    assert forall|d: int| d != c && 0 <= d < before.cpus@.len() implies #[trigger] after.cpus@[d]
        == before.cpus@[d] by {
        assert(after.cpus@[d] == shell.cpus@[d]);
        assert(shell.cpus@[d] == before.cpus@[d]);
    }
    assert forall|d: int| #[trigger] after.installed(d) <==> before.installed(d) by {}
    assert forall|d: int| #[trigger] after.installed(d) implies runs_the_same(
        before.cpu(d),
        after.cpu(d),
    ) && after.cpu(d).owned@ == before.cpu(d).owned@ && after.cpu(d).wake_inbox@ == before.cpu(
        d,
    ).wake_inbox@ by {}
}

} // verus!

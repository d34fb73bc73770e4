//! The schedulers of all CPUs over one task table.

use super::clock::Instant;
use super::scheduler::{
    Scheduler, SchedulerError, TaskTable, TrapBoundaryFinalize, read_task, remove_id, without,
};
use super::task::{Task, TaskBoundaryAction, TaskExecution, TaskId, TaskPlacement};
use super::weights::{lemma_weight_frame, ready_weight};
use crate::collections::IdTable;
use vstd::prelude::*;

verus! {

/// Whether two task records agree but for the wake marker.
pub open spec fn same_but_marker(a: Task, b: Task) -> bool {
    Task { wake_queued: b.wake_queued, ..a } == b
}

/// A task that was asked to stop.
pub open spec fn asked_to_stop(task: Task) -> Task {
    Task {
        execution: (TaskExecution { cancel_requested: true, ..task.execution }),
        ..task
    }
}

/// A scheduler is untouched by changes to tasks that it neither owns nor lists
/// in its inbox.
pub proof fn lemma_frame(scheduler: Scheduler, before: Map<u64, Task>, after: Map<u64, Task>)
    requires
        scheduler.wf(before),
        forall|id: TaskId| #[trigger]
            scheduler.owns(id) ==> after.dom().contains(id) && same_but_marker(
                before[id],
                after[id],
            ),
        forall|i: int|
            0 <= i < scheduler.wake_inbox@.len() ==> after.dom().contains(
                #[trigger] scheduler.wake_inbox@[i],
            ) && after[scheduler.wake_inbox@[i]].wake_queued,
    ensures
        scheduler.wf(after),
        ready_weight(scheduler.owned@.dom(), after) == ready_weight(scheduler.owned@.dom(), before),
        scheduler.eligible_reached(before) ==> scheduler.eligible_reached(after),
{
    assert forall|id: TaskId| #[trigger] scheduler.owns(id) implies scheduler.task_wf(
        after,
        id,
    ) by {
        assert(scheduler.task_wf(before, id));
    }
    scheduler.owned.lemma_order();
    assert forall|id: TaskId| scheduler.owned@.dom().contains(id) implies before[id].ready()
        == after[id].ready() && before[id].weight() == after[id].weight() by {
        assert(scheduler.owns(id));
    }
    lemma_weight_frame(scheduler.owned@.dom(), before, after);
}

/// All CPU schedulers, the task table they share, and the counter that rotates
/// ties among equally loaded CPUs.
pub struct SchedulerSet {
    pub cpus: Vec<Option<Scheduler>>,
    pub tasks: TaskTable,
    pub balance_hint: usize,
}

impl SchedulerSet {
    /// Whether the CPU exists and has a scheduler.
    pub open spec fn installed(&self, cpu: int) -> bool {
        0 <= cpu < self.cpus@.len() && self.cpus@[cpu] is Some
    }

    pub open spec fn cpu(&self, cpu: int) -> Scheduler {
        self.cpus@[cpu]->Some_0
    }

    /// Every scheduler is in order, no task is owned twice and no wakeup is
    /// queued twice.
    pub open spec fn wf(&self) -> bool {
        &&& self.tasks.wf()
        &&& forall|id: TaskId| #[trigger]
            self.tasks@.dom().contains(id) ==> self.tasks@[id].id == id
                && self.tasks@[id].state.terminal is None
        &&& forall|c: int| #[trigger]
            self.installed(c) ==> self.cpu(c).cpu_id == c && self.cpu(c).wf(self.tasks@)
        &&& forall|c: int, d: int, id: TaskId|
            self.installed(c) && self.installed(d) && c != d
                && #[trigger] self.cpu(c).owns(id) ==> !#[trigger] self.cpu(d).owns(id)
        &&& forall|c: int, d: int, i: int, j: int|
            self.installed(c) && self.installed(d) && c != d && 0 <= i < self.cpu(
                c,
            ).wake_inbox@.len() && 0 <= j < self.cpu(d).wake_inbox@.len()
                ==> #[trigger] self.cpu(c).wake_inbox@[i] != #[trigger] self.cpu(d).wake_inbox@[j]
        &&& forall|id: TaskId| #[trigger]
            self.tasks@.dom().contains(id) && self.tasks@[id].sched.exec_start is Some
                ==> exists|c: int| #[trigger] self.installed(c) && self.cpu(c).owns(id)
    }

    /// Which error a CPU index leads to, if any.
    pub open spec fn cpu_error(&self, cpu_id: usize) -> Option<SchedulerError> {
        if cpu_id >= self.cpus@.len() {
            Some(SchedulerError::InvalidCpu(cpu_id))
        } else if self.cpus@[cpu_id as int] is None {
            Some(SchedulerError::UninitializedCpu(cpu_id))
        } else {
            None
        }
    }

    /// Nothing but CPU `cpu` and the task table has changed.
    pub open spec fn only_cpu_changed(&self, before: SchedulerSet, cpu: int) -> bool {
        &&& self.cpus@.len() == before.cpus@.len()
        &&& forall|c: int|
            0 <= c < before.cpus@.len() && c != cpu ==> #[trigger] self.cpus@[c] == before.cpus@[c]
        &&& self.installed(cpu)
    }

    /// An operation of one CPU keeps the whole set in order, if it touches only
    /// tasks that this CPU owns or takes over and wakeups of its own inbox.
    pub proof fn lemma_after_cpu_op(&self, before: SchedulerSet, cpu: int)
        requires
            before.wf(),
            before.installed(cpu),
            self.only_cpu_changed(before, cpu),
            self.tasks.wf(),
            self.cpu(cpu).cpu_id == cpu,
            self.cpu(cpu).wf(self.tasks@),
            forall|id: TaskId| #[trigger]
                before.tasks@.dom().contains(id) && !before.cpu(cpu).owns(id) && !self.cpu(
                    cpu,
                ).owns(id) ==> self.tasks@.dom().contains(id) && same_but_marker(
                    before.tasks@[id],
                    self.tasks@[id],
                ),
            forall|id: TaskId| #[trigger]
                self.cpu(cpu).owns(id) && !before.cpu(cpu).owns(id) ==> forall|d: int| #[trigger]
                    before.installed(d) ==> !before.cpu(d).owns(id),
            forall|id: TaskId| #[trigger]
                before.tasks@.dom().contains(id) && before.tasks@[id].wake_queued && !before.cpu(
                    cpu,
                ).wake_inbox@.contains(id) ==> self.tasks@.dom().contains(id)
                    && self.tasks@[id].wake_queued,
            forall|i: int|
                0 <= i < self.cpu(cpu).wake_inbox@.len() ==> before.cpu(cpu).wake_inbox@.contains(
                    #[trigger] self.cpu(cpu).wake_inbox@[i],
                ) || !before.tasks@[self.cpu(cpu).wake_inbox@[i]].wake_queued,
            forall|id: TaskId| #[trigger]
                self.tasks@.dom().contains(id) ==> self.tasks@[id].id == id
                    && self.tasks@[id].state.terminal is None,
            forall|id: TaskId| #[trigger]
                self.tasks@.dom().contains(id) && self.tasks@[id].sched.exec_start is Some ==> self.cpu(
                    cpu,
                ).owns(id) || (before.tasks@.dom().contains(id) && before.tasks@[id].sched.exec_start
                    is Some && !before.cpu(cpu).owns(id)),
        ensures
            self.wf(),
            forall|d: int| #[trigger]
                before.installed(d) && d != cpu && before.cpu(d).weight_exact(before.tasks@)
                    ==> self.cpu(d).weight_exact(self.tasks@),
    {
        assert forall|d: int| #[trigger] self.installed(d) implies before.installed(d) by {
            if d != cpu {
                assert(self.cpus@[d] == before.cpus@[d]);
            }
        }
        assert forall|d: int| #[trigger] before.installed(d) implies self.installed(d) by {
            if d != cpu {
                assert(self.cpus@[d] == before.cpus@[d]);
            }
        }
        assert forall|d: int| #[trigger] before.installed(d) && d != cpu implies {
            &&& self.cpu(d) == before.cpu(d)
            &&& self.cpu(d).wf(self.tasks@)
            &&& before.cpu(d).weight_exact(before.tasks@) ==> self.cpu(d).weight_exact(self.tasks@)
        } by {
            assert(self.cpus@[d] == before.cpus@[d]);
            let other = before.cpu(d);
            assert forall|id: TaskId| #[trigger] other.owns(id) implies self.tasks@.dom().contains(id)
                && same_but_marker(before.tasks@[id], self.tasks@[id]) by {
                assert(other.task_wf(before.tasks@, id));
                assert(!before.cpu(cpu).owns(id));
                if self.cpu(cpu).owns(id) {
                    assert(!before.cpu(d).owns(id));
                }
            }
            assert forall|i: int| 0 <= i < other.wake_inbox@.len() implies self.tasks@.dom().contains(
                #[trigger] other.wake_inbox@[i],
            ) && self.tasks@[other.wake_inbox@[i]].wake_queued by {
                let id = other.wake_inbox@[i];
                if before.cpu(cpu).wake_inbox@.contains(id) {
                    let j = choose|j: int|
                        0 <= j < before.cpu(cpu).wake_inbox@.len() && before.cpu(
                            cpu,
                        ).wake_inbox@[j] == id;
                    assert(before.cpu(cpu).wake_inbox@[j] != before.cpu(d).wake_inbox@[i]);
                }
            }
            lemma_frame(other, before.tasks@, self.tasks@);
        }
        assert forall|c: int, d: int, id: TaskId|
            self.installed(c) && self.installed(d) && c != d
                && #[trigger] self.cpu(c).owns(id) implies !#[trigger] self.cpu(d).owns(id) by {
            assert(before.installed(c) && before.installed(d));
            if c == cpu {
                if before.cpu(c).owns(id) {
                    assert(!before.cpu(d).owns(id));
                } else {
                    assert(!before.cpu(d).owns(id));
                }
                assert(self.cpu(d) == before.cpu(d));
            } else if d == cpu {
                assert(self.cpu(c) == before.cpu(c));
                if self.cpu(d).owns(id) {
                    if !before.cpu(d).owns(id) {
                        assert(!before.cpu(c).owns(id));
                    }
                }
            } else {
                assert(self.cpu(c) == before.cpu(c));
                assert(self.cpu(d) == before.cpu(d));
                assert(before.cpu(c).owns(id));
                assert(!before.cpu(d).owns(id));
            }
        }
        assert forall|c: int, d: int, i: int, j: int|
            self.installed(c) && self.installed(d) && c != d && 0 <= i < self.cpu(
                c,
            ).wake_inbox@.len() && 0 <= j < self.cpu(
                d,
            ).wake_inbox@.len() implies #[trigger] self.cpu(c).wake_inbox@[i]
            != #[trigger] self.cpu(d).wake_inbox@[j] by {
            assert(before.installed(c) && before.installed(d));
            self.lemma_inbox_apart(before, cpu, c, d, i, j);
        }
        assert forall|id: TaskId| #[trigger]
            self.tasks@.dom().contains(id) && self.tasks@[id].sched.exec_start is Some implies exists|
            c: int,
        | #[trigger] self.installed(c) && self.cpu(c).owns(id) by {
            if self.cpu(cpu).owns(id) {
                assert(self.installed(cpu));
            } else {
                let c = choose|c: int| #[trigger] before.installed(c) && before.cpu(c).owns(id);
                assert(c != cpu);
                assert(self.cpu(c) == before.cpu(c));
                assert(self.installed(c));
            }
        }
    }

    proof fn lemma_inbox_apart(
        &self,
        before: SchedulerSet,
        cpu: int,
        c: int,
        d: int,
        i: int,
        j: int,
    )
        requires
            before.wf(),
            before.installed(cpu),
            before.installed(c),
            before.installed(d),
            self.only_cpu_changed(before, cpu),
            self.installed(c),
            self.installed(d),
            c != d,
            0 <= i < self.cpu(c).wake_inbox@.len(),
            0 <= j < self.cpu(d).wake_inbox@.len(),
            forall|k: int|
                0 <= k < self.cpu(cpu).wake_inbox@.len() ==> before.cpu(cpu).wake_inbox@.contains(
                    #[trigger] self.cpu(cpu).wake_inbox@[k],
                ) || !before.tasks@[self.cpu(cpu).wake_inbox@[k]].wake_queued,
        ensures
            self.cpu(c).wake_inbox@[i] != self.cpu(d).wake_inbox@[j],
    {
        if c != cpu {
            assert(self.cpus@[c] == before.cpus@[c]);
        }
        if d != cpu {
            assert(self.cpus@[d] == before.cpus@[d]);
        }
        if c == cpu {
            let id = self.cpu(c).wake_inbox@[i];
            assert(before.cpu(d).wake_inbox@[j] == self.cpu(d).wake_inbox@[j]);
            if before.cpu(c).wake_inbox@.contains(id) {
                let k = choose|k: int|
                    0 <= k < before.cpu(c).wake_inbox@.len() && before.cpu(c).wake_inbox@[k] == id;
                assert(before.cpu(c).wake_inbox@[k] != before.cpu(d).wake_inbox@[j]);
            } else {
                assert(before.cpu(d).inbox_wf(before.tasks@));
            }
        } else if d == cpu {
            let id = self.cpu(d).wake_inbox@[j];
            assert(before.cpu(c).wake_inbox@[i] == self.cpu(c).wake_inbox@[i]);
            if before.cpu(d).wake_inbox@.contains(id) {
                let k = choose|k: int|
                    0 <= k < before.cpu(d).wake_inbox@.len() && before.cpu(d).wake_inbox@[k] == id;
                assert(before.cpu(c).wake_inbox@[i] != before.cpu(d).wake_inbox@[k]);
            } else {
                assert(before.cpu(c).inbox_wf(before.tasks@));
            }
        } else {
            assert(before.cpu(c).wake_inbox@[i] != before.cpu(d).wake_inbox@[j]);
        }
    }

    /// Checks a CPU index.
    pub fn check_cpu(&self, cpu_id: usize) -> (result: Result<(), SchedulerError>)
        ensures
            match self.cpu_error(cpu_id) {
                Some(error) => result == Err::<(), SchedulerError>(error),
                None => result is Ok,
            },
    {
        if cpu_id >= self.cpus.len() {
            return Err(SchedulerError::InvalidCpu(cpu_id));
        }
        match &self.cpus[cpu_id] {
            None => Err(SchedulerError::UninitializedCpu(cpu_id)),
            Some(_) => Ok(()),
        }
    }

    /// One empty scheduler for each CPU; there is at least one.
    pub fn install(cpu_count: usize) -> (set: Self)
        ensures
            set.wf(),
            set.cpus@.len() == (if cpu_count == 0 {
                1
            } else {
                cpu_count as int
            }),
            forall|c: int|
                0 <= c < set.cpus@.len() ==> {
                    &&& #[trigger] set.installed(c)
                    &&& set.cpu(c).current is None
                    &&& set.cpu(c).total_weight == 0
                    &&& set.cpu(c).owned@ == Map::<u64, ()>::empty()
                },
            set.tasks@ == Map::<u64, Task>::empty(),
            set.balance_hint == 0,
    {
        let count: usize = if cpu_count == 0 {
            1
        } else {
            cpu_count
        };
        let mut cpus: Vec<Option<Scheduler>> = Vec::new();
        let mut i: usize = 0;
        while i < count
            invariant
                i <= count,
                cpus@.len() == i,
                forall|c: int|
                    0 <= c < i ==> {
                        &&& (#[trigger] cpus@[c]) is Some
                        &&& cpus@[c]->Some_0.cpu_id == c
                        &&& cpus@[c]->Some_0.current is None
                        &&& cpus@[c]->Some_0.total_weight == 0
                        &&& cpus@[c]->Some_0.owned@ == Map::<u64, ()>::empty()
                        &&& cpus@[c]->Some_0.wake_inbox@ == Seq::<u64>::empty()
                        &&& forall|tasks: Map<u64, Task>| #[trigger] cpus@[c]->Some_0.wf(tasks)
                    },
            decreases count - i,
        {
            cpus.push(Some(Scheduler::new(i)));
            i = i + 1;
        }
        SchedulerSet { cpus, tasks: IdTable::new(), balance_hint: 0 }
    }

    pub fn cpu_count(&self) -> (count: usize)
        ensures
            count == self.cpus@.len(),
    {
        self.cpus.len()
    }

    /// Adds a task shell to the table; it belongs to no CPU yet.
    pub fn register_task(&mut self, task: Task)
        requires
            old(self).wf(),
            !old(self).tasks@.dom().contains(task.id),
            task.state.terminal is None,
            task.sched.exec_start is None,
        ensures
            final(self).wf(),
            final(self).tasks@ == old(self).tasks@.insert(task.id, task),
            final(self).cpus == old(self).cpus,
            final(self).balance_hint == old(self).balance_hint,
    {
        let _ = self.tasks.insert(task.id, task);
        proof {
            assert forall|c: int| #[trigger] self.installed(c) implies self.cpu(c).cpu_id == c
                && self.cpu(c).wf(self.tasks@) by {
                assert(old(self).installed(c));
                assert forall|id: TaskId| #[trigger] old(self).cpu(c).owns(id) implies
                    self.tasks@.dom().contains(id) && same_but_marker(
                    old(self).tasks@[id],
                    self.tasks@[id],
                ) by {
                    assert(old(self).cpu(c).task_wf(old(self).tasks@, id));
                }
                assert(old(self).cpu(c).inbox_wf(old(self).tasks@));
                lemma_frame(old(self).cpu(c), old(self).tasks@, self.tasks@);
            }
            assert forall|id: TaskId| #[trigger]
                self.tasks@.dom().contains(id) && self.tasks@[id].sched.exec_start is Some implies
                exists|c: int| #[trigger] self.installed(c) && self.cpu(c).owns(id) by {
                assert(old(self).tasks@.dom().contains(id));
                let c = choose|c: int| #[trigger] old(self).installed(c) && old(self).cpu(c).owns(id);
                assert(self.installed(c));
            }
            assert forall|c: int, d: int, id: TaskId|
                self.installed(c) && self.installed(d) && c != d
                    && #[trigger] self.cpu(c).owns(id) implies !#[trigger] self.cpu(d).owns(id) by {
                assert(old(self).installed(c) && old(self).installed(d));
                assert(old(self).cpu(c).owns(id));
            }
            assert forall|c: int, d: int, i: int, j: int|
                self.installed(c) && self.installed(d) && c != d && 0 <= i < self.cpu(
                    c,
                ).wake_inbox@.len() && 0 <= j < self.cpu(
                    d,
                ).wake_inbox@.len() implies #[trigger] self.cpu(c).wake_inbox@[i]
                != #[trigger] self.cpu(d).wake_inbox@[j] by {
                assert(old(self).installed(c) && old(self).installed(d));
                assert(old(self).cpu(c).wake_inbox@[i] != old(self).cpu(d).wake_inbox@[j]);
            }
        }
    }

    /// Hands a registered task shell to a CPU that need not know of it yet.
    pub fn admit_inactive_task(&mut self, cpu_id: usize, task_id: TaskId) -> (result: Result<
        TaskId,
        SchedulerError,
    >)
        requires
            old(self).wf(),
            old(self).tasks@.dom().contains(task_id),
            forall|c: int| #[trigger] old(self).installed(c) ==> !old(self).cpu(c).owns(task_id),
        ensures
            final(self).wf(),
            final(self).balance_hint == old(self).balance_hint,
            match old(self).cpu_error(cpu_id) {
                Some(error) => result == Err::<TaskId, SchedulerError>(error) && *final(self)
                    == *old(self),
                None => {
                    &&& result == Ok::<TaskId, SchedulerError>(task_id)
                    &&& Self::admission(*old(self), *final(self), cpu_id as int, task_id)
                },
            },
    {
        match self.check_cpu(cpu_id) {
            Err(error) => {
                return Err(error);
            },
            Ok(()) => {},
        }
        let ghost c = cpu_id as int;
        assert(self.installed(c));
        let mut slot = self.cpus[cpu_id].take();
        match slot.as_mut() {
            Some(cpu) => {
                let _ = cpu.admit_task(&mut self.tasks, task_id);
            },
            None => {},
        }
        self.cpus[cpu_id] = slot;
        proof {
            self.lemma_after_cpu_op(*old(self), c);
        }
        Ok(task_id)
    }

    /// What handing a task to an installed CPU does.
    pub open spec fn admission(
        before: SchedulerSet,
        after: SchedulerSet,
        cpu: int,
        task_id: TaskId,
    ) -> bool {
        &&& after.only_cpu_changed(before, cpu)
        &&& after.balance_hint == before.balance_hint
        &&& Scheduler::admit_effect(
            before.cpu(cpu),
            before.tasks@,
            after.cpu(cpu),
            after.tasks@,
            task_id,
        )
    }

    /// Hands a registered task to a CPU, and tells how that CPU learns of it.
    pub fn admit_task_on_cpu(
        &mut self,
        cpu_id: usize,
        task_id: TaskId,
        current_cpu: usize,
    ) -> (result: Result<(TaskId, WakeNotice), SchedulerError>)
        requires
            old(self).wf(),
            old(self).tasks@.dom().contains(task_id),
            forall|c: int| #[trigger] old(self).installed(c) ==> !old(self).cpu(c).owns(task_id),
        ensures
            final(self).wf(),
            match old(self).cpu_error(cpu_id) {
                Some(error) => result == Err::<(TaskId, WakeNotice), SchedulerError>(error)
                    && *final(self) == *old(self),
                None => {
                    &&& result == Ok::<(TaskId, WakeNotice), SchedulerError>(
                        (task_id, notice_for(cpu_id, current_cpu)),
                    )
                    &&& Self::admission(*old(self), *final(self), cpu_id as int, task_id)
                },
            },
    {
        match self.admit_inactive_task(cpu_id, task_id) {
            Err(error) => Err(error),
            Ok(admitted) => Ok(
                (
                    admitted,
                    if cpu_id == current_cpu {
                        WakeNotice::PreemptLocal
                    } else {
                        WakeNotice::Interrupt(cpu_id)
                    },
                ),
            ),
        }
    }
}

/// How a CPU learns of work that was queued for it.
#[derive(Debug, Clone, Copy, PartialEq, Eq, Structural)]
pub enum WakeNotice {
    /// The work is local: request a local reschedule.
    PreemptLocal,
    /// The work is remote: send a reschedule interrupt to that CPU.
    Interrupt(usize),
}

/// The notice for work queued on `target` by `current`.
pub open spec fn notice_for(target: usize, current: usize) -> WakeNotice {
    if target == current {
        WakeNotice::PreemptLocal
    } else {
        WakeNotice::Interrupt(target)
    }
}

impl SchedulerSet {
    /// Takes back a task shell that has never been runnable.
    pub fn withdraw_inactive_task(&mut self, cpu_id: usize, task_id: TaskId) -> (result: Result<
        bool,
        SchedulerError,
    >)
        requires
            old(self).wf(),
            old(self).installed(cpu_id as int) && old(self).cpu(cpu_id as int).owns(task_id)
                ==> !old(self).tasks@[task_id].ready() && !old(self).tasks@[task_id].wake_queued,
        ensures
            final(self).wf(),
            final(self).balance_hint == old(self).balance_hint,
            match old(self).cpu_error(cpu_id) {
                Some(error) => result == Err::<bool, SchedulerError>(error) && *final(self)
                    == *old(self),
                None => {
                    let owned = old(self).cpu(cpu_id as int).owns(task_id);
                    &&& result == Ok::<bool, SchedulerError>(owned)
                    &&& final(self).only_cpu_changed(*old(self), cpu_id as int)
                    &&& final(self).tasks@ == (if owned {
                        old(self).tasks@.remove(task_id)
                    } else {
                        old(self).tasks@
                    })
                    &&& final(self).cpu(cpu_id as int).owned@ == old(self).cpu(
                        cpu_id as int,
                    ).owned@.remove(task_id)
                    &&& Scheduler::withdrawn(
                        old(self).cpu(cpu_id as int),
                        final(self).cpu(cpu_id as int),
                        task_id,
                    )
                },
            },
    {
        match self.check_cpu(cpu_id) {
            Err(error) => {
                return Err(error);
            },
            Ok(()) => {},
        }
        let ghost c = cpu_id as int;
        assert(self.installed(c));
        let mut removed = false;
        let mut slot = self.cpus[cpu_id].take();
        match slot.as_mut() {
            Some(cpu) => {
                let ghost before = *cpu;
                removed = cpu.remove_task(&mut self.tasks, task_id).is_some();
                proof {
                    if !removed {
                        assert(cpu.owned@ =~= before.owned@.remove(task_id));
                    } else {
                        assert(before.owns(task_id));
                        assert(before.task_wf(old(self).tasks@, task_id));
                        assert forall|i: int| 0 <= i < cpu.wake_inbox@.len() implies
                            before.wake_inbox@.contains(#[trigger] cpu.wake_inbox@[i]) by {
                            lemma_filter_contains(
                                before.wake_inbox@,
                                task_id,
                                cpu.wake_inbox@[i],
                            );
                            assert(cpu.wake_inbox@.contains(cpu.wake_inbox@[i]));
                        }
                    }
                }
            },
            None => {},
        }
        self.cpus[cpu_id] = slot;
        proof {
            self.lemma_after_cpu_op(*old(self), c);
        }
        Ok(removed)
    }

    /// Queues a wakeup on the task's CPU and tells how to notify that CPU.
    pub fn queue_wakeup(&mut self, cpu_id: usize, task_id: TaskId, current_cpu: usize) -> (result:
        Result<WakeNotice, SchedulerError>)
        requires
            old(self).wf(),
        ensures
            final(self).wf(),
            final(self).balance_hint == old(self).balance_hint,
            match old(self).cpu_error(cpu_id) {
                Some(error) => result == Err::<WakeNotice, SchedulerError>(error) && *final(self)
                    == *old(self),
                None => {
                    let cpu = old(self).cpu(cpu_id as int);
                    let fresh = cpu.owns(task_id) && !old(self).tasks@[task_id].wake_queued;
                    &&& result == Ok::<WakeNotice, SchedulerError>(notice_for(cpu_id, current_cpu))
                    &&& final(self).only_cpu_changed(*old(self), cpu_id as int)
                    &&& final(self).tasks@ == (if fresh {
                        old(self).tasks@.insert(
                            task_id,
                            Task { wake_queued: true, ..old(self).tasks@[task_id] },
                        )
                    } else {
                        old(self).tasks@
                    })
                    &&& final(self).cpu(cpu_id as int).wake_inbox@ == (if fresh {
                        cpu.wake_inbox@.push(task_id)
                    } else {
                        cpu.wake_inbox@
                    })
                    &&& Scheduler::same_but_inbox(cpu, final(self).cpu(cpu_id as int))
                },
            },
    {
        match self.check_cpu(cpu_id) {
            Err(error) => {
                return Err(error);
            },
            Ok(()) => {},
        }
        let ghost c = cpu_id as int;
        assert(self.installed(c));
        let mut slot = self.cpus[cpu_id].take();
        match slot.as_mut() {
            Some(cpu) => {
                let ghost before = *cpu;
                cpu.enqueue_wakeup(&mut self.tasks, task_id);
                proof {
                    assert forall|i: int| 0 <= i < cpu.wake_inbox@.len() implies
                        before.wake_inbox@.contains(#[trigger] cpu.wake_inbox@[i]) || !old(self).tasks@[cpu.wake_inbox@[i]].wake_queued by {
                        if i < before.wake_inbox@.len() {
                            assert(before.wake_inbox@[i] == cpu.wake_inbox@[i]);
                        }
                    }
                    if before.owns(task_id) {
                        assert(before.task_wf(old(self).tasks@, task_id));
                    }
                }
            },
            None => {},
        }
        self.cpus[cpu_id] = slot;
        proof {
            self.lemma_after_cpu_op(*old(self), c);
        }
        if cpu_id == current_cpu {
            Ok(WakeNotice::PreemptLocal)
        } else {
            Ok(WakeNotice::Interrupt(cpu_id))
        }
    }

    /// The CPU that owns the task.
    pub open spec fn owner(&self, task_id: TaskId, cpu: int) -> bool {
        self.installed(cpu) && self.cpu(cpu).owns(task_id)
    }

    /// Finds the CPU that owns a task.
    fn find_owner(&self, task_id: TaskId) -> (found: Option<usize>)
        requires
            self.wf(),
        ensures
            match found {
                Some(cpu) => self.owner(task_id, cpu as int),
                None => forall|c: int| !#[trigger] self.owner(task_id, c),
            },
    {
        let mut i: usize = 0;
        while i < self.cpus.len()
            invariant
                i <= self.cpus@.len(),
                self.wf(),
                forall|c: int| 0 <= c < i ==> !#[trigger] self.owner(task_id, c),
            decreases self.cpus@.len() - i,
        {
            match &self.cpus[i] {
                Some(cpu) => {
                    assert(self.installed(i as int));
                    if cpu.owned.contains(task_id) {
                        return Some(i);
                    }
                },
                None => {},
            }
            i = i + 1;
        }
        None
    }

    /// Replaces what the dispatcher keeps of a task; the schedulers do not look
    /// at it.
    pub(crate) fn annotate(
        &mut self,
        task_id: TaskId,
        execution: TaskExecution,
        placement: TaskPlacement,
    )
        requires
            old(self).wf(),
            exists|c: int| #[trigger] old(self).owner(task_id, c),
        ensures
            final(self).wf(),
            final(self).cpus == old(self).cpus,
            final(self).balance_hint == old(self).balance_hint,
            final(self).tasks@ == old(self).tasks@.insert(
                task_id,
                Task { execution, placement, ..old(self).tasks@[task_id] },
            ),
    {
        let ghost c = choose|c: int| #[trigger] old(self).owner(task_id, c);
        assert(self.cpu(c).task_wf(self.tasks@, task_id));
        let mut task = read_task(&self.tasks, task_id);
        task.execution = execution;
        task.placement = placement;
        let _ = self.tasks.insert(task_id, task);
        proof {
            let cpu = self.cpu(c);
            assert forall|id: TaskId| #[trigger] cpu.owns(id) implies cpu.task_wf(
                self.tasks@,
                id,
            ) by {
                assert(cpu.task_wf(old(self).tasks@, id));
            }
            assert(cpu.queues_wf(self.tasks@));
            assert(cpu.wf(self.tasks@)) by {
                assert forall|id: TaskId| #[trigger] cpu.owns(id) implies
                    self.tasks@[id].state.terminal is None by {
                    assert(cpu.task_wf(old(self).tasks@, id));
                }
                assert(cpu.inbox_wf(old(self).tasks@));
            }
            assert forall|i: int| 0 <= i < self.cpu(c).wake_inbox@.len() implies old(self).cpu(
                c,
            ).wake_inbox@.contains(#[trigger] self.cpu(c).wake_inbox@[i]) by {
                assert(old(self).cpu(c).wake_inbox@[i] == self.cpu(c).wake_inbox@[i]);
            }
            self.lemma_after_cpu_op(*old(self), c);
        }
    }

    /// Asks a task to stop, wherever it is, and wakes it.
    pub fn cancel_task(&mut self, task_id: TaskId, current_cpu: usize) -> (result: Result<
        Option<WakeNotice>,
        SchedulerError,
    >)
        requires
            old(self).wf(),
        ensures
            final(self).wf(),
            final(self).balance_hint == old(self).balance_hint,
            result is Ok,
            match result->Ok_0 {
                None => (forall|c: int| !#[trigger] old(self).owner(task_id, c)) && *final(self)
                    == *old(self),
                Some(notice) => exists|c: int| {
                    &&& #[trigger] old(self).owner(task_id, c)
                    &&& notice == notice_for(c as usize, current_cpu)
                    &&& final(self).only_cpu_changed(*old(self), c)
                    &&& final(self).tasks@ == old(self).tasks@.insert(
                        task_id,
                        Task {
                            wake_queued: true,
                            execution: (super::task::TaskExecution {
                                cancel_requested: true,
                                ..old(self).tasks@[task_id].execution
                            }),
                            ..old(self).tasks@[task_id]
                        },
                    )
                    &&& Scheduler::same_but_inbox(old(self).cpu(c), final(self).cpu(c))
                    &&& final(self).cpu(c).wake_inbox@ == (if old(self).tasks@[task_id].wake_queued {
                        old(self).cpu(c).wake_inbox@
                    } else {
                        old(self).cpu(c).wake_inbox@.push(task_id)
                    })
                },
            },
    {
        match self.find_owner(task_id) {
            None => Ok(None),
            Some(cpu_id) => {
                let ghost c = cpu_id as int;
                assert(self.cpu(c).task_wf(self.tasks@, task_id));
                let mut task = read_task(&self.tasks, task_id);
                task.execution.request_cancel();
                let _ = self.tasks.insert(task_id, task);
                proof {
                    let cpu = self.cpu(c);
                    assert forall|id: TaskId| #[trigger] cpu.owns(id) implies cpu.task_wf(
                        self.tasks@,
                        id,
                    ) by {
                        assert(cpu.task_wf(old(self).tasks@, id));
                    }
                    assert(cpu.queues_wf(self.tasks@));
                    assert(cpu.wf(self.tasks@)) by {
                        assert forall|id: TaskId| #[trigger] cpu.owns(id) implies
                            self.tasks@[id].state.terminal is None by {
                            assert(old(self).tasks@.dom().contains(id)) by {
                                assert(cpu.task_wf(old(self).tasks@, id));
                            }
                        }
                        assert(cpu.inbox_wf(old(self).tasks@));
                    }
                    assert forall|i: int| 0 <= i < self.cpu(c).wake_inbox@.len() implies old(self).cpu(c).wake_inbox@.contains(#[trigger] self.cpu(c).wake_inbox@[i]) by {
                        assert(old(self).cpu(c).wake_inbox@[i] == self.cpu(c).wake_inbox@[i]);
                    }
                    self.lemma_after_cpu_op(*old(self), c);
                }
                let ghost mid = *self;
                let target: usize = task.sched.cpu_id;
                assert(target == cpu_id);
                let result = self.queue_wakeup(target, task_id, current_cpu);
                match result {
                    Ok(notice) => {
                        proof {
                            assert(mid.cpu_error(target) is None);
                            assert(self.tasks@ =~= old(self).tasks@.insert(
                                task_id,
                                Task {
                                    wake_queued: true,
                                    execution: (super::task::TaskExecution {
                                        cancel_requested: true,
                                        ..old(self).tasks@[task_id].execution
                                    }),
                                    ..old(self).tasks@[task_id]
                                },
                            ));
                            assert(old(self).owner(task_id, c));
                        }
                        Ok(Some(notice))
                    },
                    Err(error) => Err(error),
                }
            },
        }
    }

    /// Editing a task that no CPU owns keeps the set in order.
    pub proof fn lemma_table_edit(&self, before: SchedulerSet, task_id: TaskId)
        requires
            before.wf(),
            self.cpus == before.cpus,
            self.tasks.wf(),
            before.tasks@.dom().contains(task_id),
            forall|c: int| #[trigger] before.installed(c) ==> !before.cpu(c).owns(task_id),
            self.tasks@ == before.tasks@.insert(task_id, self.tasks@[task_id]),
            self.tasks@[task_id].id == task_id,
            self.tasks@[task_id].state.terminal is None,
            self.tasks@[task_id].sched.exec_start == before.tasks@[task_id].sched.exec_start,
            self.tasks@[task_id].wake_queued == before.tasks@[task_id].wake_queued,
        ensures
            self.wf(),
    {
        assert forall|c: int| #[trigger] self.installed(c) implies self.cpu(c).cpu_id == c
            && self.cpu(c).wf(self.tasks@) by {
            assert(before.installed(c));
            let cpu = before.cpu(c);
            assert(self.cpu(c) == cpu);
            assert forall|id: TaskId| #[trigger] cpu.owns(id) implies self.tasks@.dom().contains(id)
                && same_but_marker(before.tasks@[id], self.tasks@[id]) by {
                assert(cpu.task_wf(before.tasks@, id));
                assert(id != task_id);
            }
            assert forall|i: int| 0 <= i < cpu.wake_inbox@.len() implies self.tasks@.dom().contains(
                #[trigger] cpu.wake_inbox@[i],
            ) && self.tasks@[cpu.wake_inbox@[i]].wake_queued by {
                assert(cpu.inbox_wf(before.tasks@));
            }
            lemma_frame(cpu, before.tasks@, self.tasks@);
        }
        assert forall|c: int, d: int, id: TaskId|
            self.installed(c) && self.installed(d) && c != d
                && #[trigger] self.cpu(c).owns(id) implies !#[trigger] self.cpu(d).owns(id) by {
            assert(before.installed(c) && before.installed(d));
            assert(before.cpu(c).owns(id));
        }
        assert forall|c: int, d: int, i: int, j: int|
            self.installed(c) && self.installed(d) && c != d && 0 <= i < self.cpu(
                c,
            ).wake_inbox@.len() && 0 <= j < self.cpu(
                d,
            ).wake_inbox@.len() implies #[trigger] self.cpu(c).wake_inbox@[i]
            != #[trigger] self.cpu(d).wake_inbox@[j] by {
            assert(before.installed(c) && before.installed(d));
            assert(before.cpu(c).wake_inbox@[i] != before.cpu(d).wake_inbox@[j]);
        }
        assert forall|id: TaskId| #[trigger]
            self.tasks@.dom().contains(id) && self.tasks@[id].sched.exec_start is Some implies exists|
            c: int,
        | #[trigger] self.installed(c) && self.cpu(c).owns(id) by {
            assert(before.tasks@.dom().contains(id));
            let c = choose|c: int| #[trigger] before.installed(c) && before.cpu(c).owns(id);
            assert(self.installed(c));
        }
    }

    /// The tasks once those of `ids` were asked to stop, wherever they are.
    pub open spec fn asked(&self, ids: Seq<TaskId>) -> Map<u64, Task> {
        Map::new(
            |id: u64| self.tasks@.dom().contains(id),
            |id: u64|
                if ids.contains(id) {
                    asked_to_stop(self.tasks@[id])
                } else {
                    self.tasks@[id]
                },
        )
    }

    /// What asking tasks to stop does: nothing but their requests changes.
    pub open spec fn asks(before: SchedulerSet, after: SchedulerSet, ids: Seq<TaskId>) -> bool {
        &&& after.cpus == before.cpus
        &&& after.balance_hint == before.balance_hint
        &&& after.tasks@ == before.asked(ids)
    }

    /// Asks tasks to stop, also those that no CPU has taken over yet. None is
    /// woken for it.
    pub fn request_cancels(&mut self, ids: &Vec<TaskId>)
        requires
            old(self).wf(),
        ensures
            final(self).wf(),
            Self::asks(*old(self), *final(self), ids@),
    {
        let ghost start = *self;
        let mut i: usize = 0;
        assert(start.asked(ids@.take(0)) =~= start.tasks@);
        while i < ids.len()
            invariant
                i <= ids@.len(),
                start.wf(),
                self.wf(),
                Self::asks(start, *self, ids@.take(i as int)),
            decreases ids@.len() - i,
        {
            let ghost before = *self;
            let id: TaskId = ids[i];
            if self.tasks.contains(id) {
                let mut task = read_task(&self.tasks, id);
                task.execution.request_cancel();
                match self.find_owner(id) {
                    Some(cpu_id) => {
                        assert(self.owner(id, cpu_id as int));
                        self.annotate(id, task.execution, task.placement);
                    },
                    None => {
                        let _ = self.tasks.insert(id, task);
                        proof {
                            assert forall|c: int| #[trigger] before.installed(c) implies
                                !before.cpu(c).owns(id) by {
                                assert(!before.owner(id, c));
                            }
                            assert(self.tasks@ =~= before.tasks@.insert(id, self.tasks@[id]));
                            self.lemma_table_edit(before, id);
                        }
                    },
                }
            }
            proof {
                let done = ids@.take(i as int);
                let more = ids@.take(i + 1);
                assert(more =~= done.push(id));
                assert forall|other: TaskId| #[trigger] more.contains(other) <==> done.contains(
                    other,
                ) || other == id by {
                    if done.contains(other) {
                        let k = choose|k: int| 0 <= k < done.len() && done[k] == other;
                        assert(more[k] == other);
                    }
                    assert(more[i as int] == id);
                    if more.contains(other) && other != id {
                        let k = choose|k: int| 0 <= k < more.len() && more[k] == other;
                        assert(done[k] == other);
                    }
                }
                assert(self.tasks@ =~= start.asked(more));
            }
            i = i + 1;
        }
        assert(ids@.take(ids@.len() as int) =~= ids@);
    }

    /// Whether some CPU owns the task.
    pub open spec fn is_owned(&self, id: TaskId) -> bool {
        exists|c: int| #[trigger] self.owner(id, c)
    }

    /// The CPU that owns the task, if one does.
    pub open spec fn home(&self, id: TaskId) -> int {
        choose|c: int| #[trigger] self.owner(id, c)
    }

    /// The tasks once wakeups were queued for `ids`.
    pub open spec fn marked(&self, ids: Seq<TaskId>) -> Map<u64, Task> {
        Map::new(
            |id: u64| self.tasks@.dom().contains(id),
            |id: u64|
                if ids.contains(id) && self.is_owned(id) {
                    Task { wake_queued: true, ..self.tasks@[id] }
                } else {
                    self.tasks@[id]
                },
        )
    }

    /// The inbox of a CPU once wakeups were queued for `ids`, one after the other:
    /// each of its tasks is listed once.
    pub open spec fn inbox_after(&self, cpu: int, ids: Seq<TaskId>) -> Seq<TaskId>
        decreases ids.len(),
    {
        if ids.len() == 0 {
            self.cpu(cpu).wake_inbox@
        } else {
            let rest = self.inbox_after(cpu, ids.drop_last());
            let id = ids.last();
            if self.owner(id, cpu) && !self.tasks@[id].wake_queued && !ids.drop_last().contains(id) {
                rest.push(id)
            } else {
                rest
            }
        }
    }

    /// A task of the CPU that no wakeup was queued for is listed afterwards.
    pub proof fn lemma_listed(&self, cpu: int, ids: Seq<TaskId>, id: TaskId)
        requires
            self.owner(id, cpu),
            !self.tasks@[id].wake_queued,
            ids.contains(id),
        ensures
            self.inbox_after(cpu, ids).contains(id),
        decreases ids.len(),
    {
        let earlier = ids.drop_last();
        let rest = self.inbox_after(cpu, earlier);
        if earlier.contains(id) {
            self.lemma_listed(cpu, earlier, id);
            let k = choose|k: int| 0 <= k < rest.len() && rest[k] == id;
            assert(rest.push(ids.last())[k] == id);
        } else {
            let k = choose|k: int| 0 <= k < ids.len() && ids[k] == id;
            if k < ids.len() - 1 {
                assert(earlier[k] == id);
            }
            assert(rest.push(id)[rest.len() as int] == id);
        }
    }

    /// How the CPUs learn of the wakeups of `ids`: each CPU that owns one of them
    /// is told.
    pub open spec fn notices(&self, ids: Seq<TaskId>, current_cpu: usize) -> Seq<WakeNotice>
        decreases ids.len(),
    {
        if ids.len() == 0 {
            Seq::empty()
        } else {
            let rest = self.notices(ids.drop_last(), current_cpu);
            if self.is_owned(ids.last()) {
                rest.push(notice_for(self.home(ids.last()) as usize, current_cpu))
            } else {
                rest
            }
        }
    }

    /// What queueing wakeups for `ids` does. Nothing but the marks of the tasks
    /// and the inboxes of their CPUs changes.
    pub open spec fn woken(before: SchedulerSet, after: SchedulerSet, ids: Seq<TaskId>) -> bool {
        &&& after.tasks@ == before.marked(ids)
        &&& after.balance_hint == before.balance_hint
        &&& after.cpus@.len() == before.cpus@.len()
        &&& forall|c: int| #[trigger] after.installed(c) <==> before.installed(c)
        &&& forall|c: int| #[trigger]
            after.installed(c) ==> {
                &&& Scheduler::same_but_inbox(before.cpu(c), after.cpu(c))
                &&& after.cpu(c).wake_inbox@ == before.inbox_after(c, ids)
            }
    }

    /// Queues a wakeup for a task on the CPU that owns it, and tells how that CPU
    /// learns of it.
    pub fn wake_task(&mut self, task_id: TaskId, current_cpu: usize) -> (notice: Option<WakeNotice>)
        requires
            old(self).wf(),
        ensures
            final(self).wf(),
            Self::woken(*old(self), *final(self), seq![task_id]),
            notice == (if old(self).is_owned(task_id) {
                Some(notice_for(old(self).home(task_id) as usize, current_cpu))
            } else {
                None
            }),
    {
        let ghost start = *self;
        proof {
            lemma_nobody_woken(start);
        }
        match self.find_owner(task_id) {
            None => {
                proof {
                    lemma_one_more_woken(start, start, start, Seq::empty(), task_id, 0);
                    assert(Seq::<TaskId>::empty().push(task_id) =~= seq![task_id]);
                }
                None
            },
            Some(cpu_id) => {
                let ghost c = cpu_id as int;
                proof {
                    assert(self.owner(task_id, c));
                    assert(self.home(task_id) == c) by {
                        self.lemma_one_home(task_id, c, self.home(task_id));
                    }
                    assert(self.cpu_error(cpu_id) is None);
                }
                match self.queue_wakeup(cpu_id, task_id, current_cpu) {
                    Ok(notice) => {
                        proof {
                            lemma_one_more_woken(start, start, *self, Seq::empty(), task_id, c);
                            assert(Seq::<TaskId>::empty().push(task_id) =~= seq![task_id]);
                        }
                        Some(notice)
                    },
                    Err(_) => None,
                }
            },
        }
    }

    /// A task has one home.
    proof fn lemma_one_home(&self, id: TaskId, c: int, d: int)
        requires
            self.wf(),
            self.owner(id, c),
            self.owner(id, d),
        ensures
            c == d,
    {
        if c != d {
            assert(self.cpu(c).owns(id) && self.cpu(d).owns(id));
        }
    }

    /// Queues wakeups for tasks, one after the other, and tells how their CPUs
    /// learn of them.
    pub fn wake_tasks(&mut self, ids: &Vec<TaskId>, current_cpu: usize) -> (notices: Vec<WakeNotice>)
        requires
            old(self).wf(),
        ensures
            final(self).wf(),
            Self::woken(*old(self), *final(self), ids@),
            notices@ == old(self).notices(ids@, current_cpu),
    {
        let ghost start = *self;
        let mut notices: Vec<WakeNotice> = Vec::new();
        let mut i: usize = 0;
        proof {
            lemma_nobody_woken(start);
            assert(ids@.take(0) =~= Seq::<TaskId>::empty());
        }
        while i < ids.len()
            invariant
                i <= ids@.len(),
                start.wf(),
                self.wf(),
                Self::woken(start, *self, ids@.take(i as int)),
                notices@ == start.notices(ids@.take(i as int), current_cpu),
            decreases ids@.len() - i,
        {
            let ghost before = *self;
            let id: TaskId = ids[i];
            let notice = self.wake_task(id, current_cpu);
            proof {
                let done = ids@.take(i as int);
                assert(ids@.take(i + 1) =~= done.push(id));
                assert(done.push(id).drop_last() =~= done);
                lemma_same_owners(start, before, done);
                let c = before.home(id);
                if before.is_owned(id) {
                    assert(before.owner(id, c));
                    assert(start.owner(id, c));
                    assert(start.is_owned(id));
                    start.lemma_one_home(id, c, start.home(id));
                } else {
                    assert(!start.is_owned(id)) by {
                        if start.is_owned(id) {
                            assert(before.owner(id, start.home(id)));
                        }
                    }
                }
                lemma_woken_step(start, before, *self, done, id, c);
            }
            if let Some(notice) = notice {
                notices.push(notice);
            }
            i = i + 1;
        }
        proof {
            assert(ids@.take(ids@.len() as int) =~= ids@);
        }
        notices
    }

    /// Handles the wakeups of one CPU.
    pub(crate) fn drain_cpu(&mut self, cpu_id: usize) -> (drained: usize)
        requires
            old(self).wf(),
            old(self).installed(cpu_id as int),
        ensures
            final(self).wf(),
            final(self).only_cpu_changed(*old(self), cpu_id as int),
            final(self).balance_hint == old(self).balance_hint,
            drained == super::scheduler::wake_count(
                old(self).cpu(cpu_id as int),
                old(self).tasks@,
                old(self).cpu(cpu_id as int).wake_inbox@,
            ),
            Scheduler::drain_effect(
                old(self).cpu(cpu_id as int),
                old(self).tasks@,
                final(self).cpu(cpu_id as int),
                final(self).tasks@,
            ),
            forall|id: TaskId| #[trigger]
                final(self).cpu(cpu_id as int).queued(final(self).tasks@, id) <==> old(self).cpu(
                    cpu_id as int,
                ).startable(old(self).tasks@, id),
    {
        let ghost c = cpu_id as int;
        let mut drained: usize = 0;
        let mut slot = self.cpus[cpu_id].take();
        match slot.as_mut() {
            Some(cpu) => {
                drained = cpu.drain_wakeups(&mut self.tasks);
            },
            None => {},
        }
        self.cpus[cpu_id] = slot;
        proof {
            self.lemma_after_cpu_op(*old(self), c);
        }
        drained
    }

    /// Lets one CPU choose its next task.
    pub(crate) fn take_next_cpu(&mut self, cpu_id: usize, now: Instant) -> (taken: Option<TaskId>)
        requires
            old(self).wf(),
            old(self).installed(cpu_id as int),
            old(self).cpu(cpu_id as int).current is None,
        ensures
            final(self).wf(),
            final(self).only_cpu_changed(*old(self), cpu_id as int),
            final(self).balance_hint == old(self).balance_hint,
            Scheduler::take_next_effect(
                old(self).cpu(cpu_id as int),
                old(self).tasks@,
                final(self).cpu(cpu_id as int),
                final(self).tasks@,
                now,
                taken,
            ),
    {
        let ghost c = cpu_id as int;
        let mut taken: Option<TaskId> = None;
        let mut slot = self.cpus[cpu_id].take();
        match slot.as_mut() {
            Some(cpu) => {
                let ghost before = *cpu;
                taken = cpu.take_next(&mut self.tasks, now);
                proof {
                    assert forall|i: int| 0 <= i < cpu.wake_inbox@.len() implies
                        before.wake_inbox@.contains(#[trigger] cpu.wake_inbox@[i]) by {
                        assert(before.wake_inbox@[i] == cpu.wake_inbox@[i]);
                    }
                    if taken is Some {
                        assert(before.task_wf(old(self).tasks@, taken->Some_0));
                    }
                }
            },
            None => {},
        }
        self.cpus[cpu_id] = slot;
        proof {
            self.lemma_after_cpu_op(*old(self), c);
        }
        taken
    }
}

proof fn lemma_nobody_woken(set: SchedulerSet)
    ensures
        SchedulerSet::woken(set, set, Seq::<TaskId>::empty()),
{
    assert(set.marked(Seq::<TaskId>::empty()) =~= set.tasks@);
}

/// Queueing wakeups leaves each task where it is.
proof fn lemma_same_owners(before: SchedulerSet, after: SchedulerSet, ids: Seq<TaskId>)
    requires
        SchedulerSet::woken(before, after, ids),
    ensures
        forall|id: TaskId, c: int| #[trigger] after.owner(id, c) <==> before.owner(id, c),
{
    assert forall|id: TaskId, c: int| #[trigger] after.owner(id, c) <==> before.owner(id, c) by {
        assert(after.installed(c) <==> before.installed(c));
    }
}

/// One more wakeup on the CPU that owns the task.
proof fn lemma_one_more_woken(
    start: SchedulerSet,
    before: SchedulerSet,
    after: SchedulerSet,
    ids: Seq<TaskId>,
    id: TaskId,
    c: int,
)
    requires
        start.wf(),
        before.wf(),
        SchedulerSet::woken(start, before, ids),
        after.balance_hint == before.balance_hint,
        if before.is_owned(id) {
            let fresh = !before.tasks@[id].wake_queued;
            &&& before.owner(id, c)
            &&& after.only_cpu_changed(before, c)
            &&& after.tasks@ == (if fresh {
                before.tasks@.insert(id, Task { wake_queued: true, ..before.tasks@[id] })
            } else {
                before.tasks@
            })
            &&& after.cpu(c).wake_inbox@ == (if fresh {
                before.cpu(c).wake_inbox@.push(id)
            } else {
                before.cpu(c).wake_inbox@
            })
            &&& Scheduler::same_but_inbox(before.cpu(c), after.cpu(c))
        } else {
            after == before
        },
    ensures
        SchedulerSet::woken(start, after, ids.push(id)),
{
    let more = ids.push(id);
    assert(more.drop_last() =~= ids);
    lemma_same_owners(start, before, ids);
    assert(start.is_owned(id) <==> before.is_owned(id)) by {
        if start.is_owned(id) {
            assert(before.owner(id, start.home(id)));
        }
        if before.is_owned(id) {
            assert(start.owner(id, before.home(id)));
        }
    }
    assert forall|other: TaskId| #[trigger] more.contains(other) <==> ids.contains(other) || other
        == id by {
        if ids.contains(other) {
            let k = choose|k: int| 0 <= k < ids.len() && ids[k] == other;
            assert(more[k] == other);
        }
        assert(more[ids.len() as int] == id);
        if more.contains(other) && other != id {
            let k = choose|k: int| 0 <= k < more.len() && more[k] == other;
            assert(ids[k] == other);
        }
    }
    if before.is_owned(id) {
        assert(start.owner(id, c));
        assert(start.cpu(c).task_wf(start.tasks@, id));
        assert forall|d: int| #[trigger] after.installed(d) <==> start.installed(d) by {
            assert(before.installed(d) <==> start.installed(d));
            if d != c && 0 <= d < before.cpus@.len() {
                assert(after.cpus@[d] == before.cpus@[d]);
            }
        }
        assert forall|d: int| #[trigger] after.installed(d) implies {
            &&& Scheduler::same_but_inbox(start.cpu(d), after.cpu(d))
            &&& after.cpu(d).wake_inbox@ == start.inbox_after(d, more)
        } by {
            assert(before.installed(d));
            if d != c {
                assert(after.cpus@[d] == before.cpus@[d]);
                if start.owner(id, d) {
                    start.lemma_one_home(id, c, d);
                }
            }
        }
        assert(after.tasks@ =~= start.marked(more));
    } else {
        assert forall|d: int| #[trigger] after.installed(d) implies after.cpu(d).wake_inbox@
            == start.inbox_after(d, more) by {
            assert(!start.owner(id, d));
        }
        assert(after.tasks@ =~= start.marked(more));
    }
}

/// One more wakeup, as [`SchedulerSet::wake_task`] states it.
proof fn lemma_woken_step(
    start: SchedulerSet,
    before: SchedulerSet,
    after: SchedulerSet,
    ids: Seq<TaskId>,
    id: TaskId,
    c: int,
)
    requires
        start.wf(),
        before.wf(),
        SchedulerSet::woken(start, before, ids),
        SchedulerSet::woken(before, after, seq![id]),
        before.is_owned(id) ==> c == before.home(id),
    ensures
        SchedulerSet::woken(start, after, ids.push(id)),
{
    let more = ids.push(id);
    assert(more.drop_last() =~= ids);
    assert(seq![id].drop_last() =~= Seq::<TaskId>::empty());
    assert(seq![id].contains(id)) by {
        assert(seq![id][0] == id);
    }
    lemma_same_owners(start, before, ids);
    assert forall|other: TaskId| #[trigger] start.is_owned(other) <==> before.is_owned(other) by {
        if start.is_owned(other) {
            assert(before.owner(other, start.home(other)));
        }
        if before.is_owned(other) {
            assert(start.owner(other, before.home(other)));
        }
    }
    assert forall|other: TaskId| #[trigger] more.contains(other) <==> ids.contains(other) || other
        == id by {
        if ids.contains(other) {
            let k = choose|k: int| 0 <= k < ids.len() && ids[k] == other;
            assert(more[k] == other);
        }
        assert(more[ids.len() as int] == id);
        if more.contains(other) && other != id {
            let k = choose|k: int| 0 <= k < more.len() && more[k] == other;
            assert(ids[k] == other);
        }
    }
    assert(after.tasks@ =~= start.marked(more));
    assert forall|d: int| #[trigger] after.installed(d) <==> start.installed(d) by {
        assert(before.installed(d) <==> start.installed(d));
    }
    assert forall|d: int| #[trigger] after.installed(d) implies {
        &&& Scheduler::same_but_inbox(start.cpu(d), after.cpu(d))
        &&& after.cpu(d).wake_inbox@ == start.inbox_after(d, more)
    } by {
        assert(before.installed(d));
        assert(before.inbox_after(d, Seq::<TaskId>::empty()) == before.cpu(d).wake_inbox@);
        if start.owner(id, d) {
            assert(before.owner(id, d));
            assert(start.cpu(d).task_wf(start.tasks@, id));
        }
    }
}

/// Filtering keeps only what was there.
proof fn lemma_filter_contains(ids: Seq<u64>, dropped: u64, id: u64)
    ensures
        without(ids, dropped).contains(id) ==> ids.contains(id) && id != dropped,
    decreases ids.len(),
{
    reveal(Seq::filter);
    if ids.len() > 0 {
        let rest = ids.drop_last();
        lemma_filter_contains(rest, dropped, id);
        let kept = without(ids, dropped);
        if kept.contains(id) {
            let i = choose|i: int| 0 <= i < kept.len() && kept[i] == id;
            if ids.last() != dropped && i == kept.len() - 1 {
                assert(ids[ids.len() - 1] == id);
            } else {
                assert(without(rest, dropped)[i] == id);
                assert(rest.contains(id));
                let k = choose|k: int| 0 <= k < rest.len() && rest[k] == id;
                assert(ids[k] == id);
            }
        }
    }
}

impl SchedulerSet {
    /// Whether CPU `cpu_id` has anything to run; a CPU without a scheduler has
    /// nothing.
    pub fn cpu_has_work(&self, cpu_id: usize) -> (work: bool)
        requires
            self.wf(),
        ensures
            work <==> self.installed(cpu_id as int) && self.cpu(cpu_id as int).has_work(),
    {
        if cpu_id >= self.cpus.len() {
            return false;
        }
        match &self.cpus[cpu_id] {
            Some(cpu) => {
                assert(self.installed(cpu_id as int));
                cpu.has_runnable_work()
            },
            None => false,
        }
    }

    /// The running task of a CPU.
    pub fn current_task_on_cpu(&self, cpu_id: usize) -> (task: Option<Task>)
        requires
            self.wf(),
        ensures
            task == (if self.installed(cpu_id as int) {
                match self.cpu(cpu_id as int).current {
                    Some(id) => Some(self.tasks@[id]),
                    None => None,
                }
            } else {
                None
            }),
    {
        if cpu_id >= self.cpus.len() {
            return None;
        }
        match &self.cpus[cpu_id] {
            Some(cpu) => {
                assert(self.installed(cpu_id as int));
                cpu.current_task(&self.tasks)
            },
            None => None,
        }
    }

    /// A task of a CPU.
    pub fn task_on_cpu(&self, cpu_id: usize, task_id: TaskId) -> (task: Option<Task>)
        requires
            self.wf(),
        ensures
            task == (if self.owner(task_id, cpu_id as int) {
                Some(self.tasks@[task_id])
            } else {
                None
            }),
    {
        if cpu_id >= self.cpus.len() {
            return None;
        }
        match &self.cpus[cpu_id] {
            Some(cpu) => {
                assert(self.installed(cpu_id as int));
                cpu.task(&self.tasks, task_id)
            },
            None => None,
        }
    }

    /// Runs the timer tick of one CPU.
    pub fn tick_cpu(&mut self, cpu_id: usize, now: Instant) -> (result: Result<bool, SchedulerError>)
        requires
            old(self).wf(),
        ensures
            final(self).wf(),
            final(self).balance_hint == old(self).balance_hint,
            match old(self).cpu_error(cpu_id) {
                Some(error) => result == Err::<bool, SchedulerError>(error) && *final(self)
                    == *old(self),
                None => result is Ok && final(self).only_cpu_changed(*old(self), cpu_id as int)
                    && Scheduler::tick_effect(
                    old(self).cpu(cpu_id as int),
                    old(self).tasks@,
                    final(self).cpu(cpu_id as int),
                    final(self).tasks@,
                    now,
                    result->Ok_0,
                ) && final(self).cpu(cpu_id as int).current == old(self).cpu(cpu_id as int).current,
            },
    {
        match self.check_cpu(cpu_id) {
            Err(error) => {
                return Err(error);
            },
            Ok(()) => {},
        }
        let ghost c = cpu_id as int;
        assert(self.installed(c));
        let mut reschedule = false;
        let mut slot = self.cpus[cpu_id].take();
        match slot.as_mut() {
            Some(cpu) => {
                let ghost before = *cpu;
                reschedule = cpu.on_tick(&mut self.tasks, now);
                proof {
                    if before.current is Some {
                        assert(before.owns(before.current->Some_0));
                        assert(before.task_wf(old(self).tasks@, before.current->Some_0));
                    }
                }
            },
            None => {},
        }
        self.cpus[cpu_id] = slot;
        proof {
            self.lemma_after_cpu_op(*old(self), c);
        }
        Ok(reschedule)
    }

    /// Saves the running task of one CPU as preempted.
    pub fn save_preempted_current_on_cpu(
        &mut self,
        cpu_id: usize,
        rsp: usize,
        now: Option<Instant>,
    ) -> (result: Result<Option<TaskId>, SchedulerError>)
        requires
            old(self).wf(),
        ensures
            final(self).wf(),
            final(self).balance_hint == old(self).balance_hint,
            match old(self).cpu_error(cpu_id) {
                Some(error) => result == Err::<Option<TaskId>, SchedulerError>(error)
                    && *final(self) == *old(self),
                None => {
                    let cpu = old(self).cpu(cpu_id as int);
                    &&& result == Ok::<Option<TaskId>, SchedulerError>(
                        cpu.trapped_task(old(self).tasks@, rsp),
                    )
                    &&& final(self).only_cpu_changed(*old(self), cpu_id as int)
                    &&& match cpu.trapped_task(old(self).tasks@, rsp) {
                        Some(id) => Scheduler::preempt_effect(
                            cpu,
                            old(self).tasks@,
                            final(self).cpu(cpu_id as int),
                            final(self).tasks@,
                            id,
                            now,
                        ),
                        None => final(self).cpu(cpu_id as int) == cpu && final(self).tasks == old(self).tasks,
                    }
                },
            },
    {
        match self.check_cpu(cpu_id) {
            Err(error) => {
                return Err(error);
            },
            Ok(()) => {},
        }
        let ghost c = cpu_id as int;
        assert(self.installed(c));
        let mut saved: Option<TaskId> = None;
        let mut slot = self.cpus[cpu_id].take();
        match slot.as_mut() {
            Some(cpu) => {
                let ghost before = *cpu;
                saved = cpu.save_preempted_current(&mut self.tasks, rsp, now);
                proof {
                    if saved is Some {
                        assert(before.owns(saved->Some_0));
                        assert(before.task_wf(old(self).tasks@, saved->Some_0));
                    }
                    assert forall|i: int| 0 <= i < cpu.wake_inbox@.len() implies
                        before.wake_inbox@.contains(#[trigger] cpu.wake_inbox@[i]) by {
                        assert(before.wake_inbox@[i] == cpu.wake_inbox@[i]);
                    }
                }
            },
            None => {},
        }
        self.cpus[cpu_id] = slot;
        proof {
            self.lemma_after_cpu_op(*old(self), c);
        }
        Ok(saved)
    }

    /// Drops a queued wakeup of `task_id` from every CPU but `cpu_id`.
    fn purge_wakeups(&mut self, cpu_id: usize, task_id: TaskId)
        requires
            old(self).wf(),
        ensures
            final(self).wf(),
            final(self).tasks == old(self).tasks,
            final(self).balance_hint == old(self).balance_hint,
            final(self).cpus@.len() == old(self).cpus@.len(),
            cpu_id < old(self).cpus@.len() ==> final(self).cpus@[cpu_id as int] == old(self).cpus@[cpu_id as int],
            forall|c: int| #[trigger] final(self).installed(c) <==> old(self).installed(c),
            forall|c: int| #[trigger]
                final(self).installed(c) && c != cpu_id ==> {
                    &&& !final(self).cpu(c).wake_inbox@.contains(task_id)
                    &&& final(self).cpu(c).wake_inbox@ == without(old(self).cpu(c).wake_inbox@, task_id)
                    &&& Scheduler::same_but_inbox(old(self).cpu(c), final(self).cpu(c))
                },
    {
        let mut i: usize = 0;
        while i < self.cpus.len()
            invariant
                i <= self.cpus@.len(),
                self.wf(),
                old(self).wf(),
                self.tasks == old(self).tasks,
                self.balance_hint == old(self).balance_hint,
                self.cpus@.len() == old(self).cpus@.len(),
                cpu_id < old(self).cpus@.len() ==> self.cpus@[cpu_id as int] == old(self).cpus@[cpu_id as int],
                forall|c: int| #[trigger] self.installed(c) <==> old(self).installed(c),
                forall|c: int| #![trigger self.cpus@[c]] i <= c < self.cpus@.len() ==> self.cpus@[c] == old(self).cpus@[c],
                forall|c: int| #[trigger]
                    self.installed(c) && c < i && c != cpu_id ==> {
                        &&& !self.cpu(c).wake_inbox@.contains(task_id)
                        &&& self.cpu(c).wake_inbox@ == without(old(self).cpu(c).wake_inbox@, task_id)
                        &&& Scheduler::same_but_inbox(old(self).cpu(c), self.cpu(c))
                    },
            decreases self.cpus@.len() - i,
        {
            let ghost before = *self;
            if i != cpu_id && self.cpus[i].is_some() {
                assert(self.installed(i as int));
                let mut slot = self.cpus[i].take();
                match slot.as_mut() {
                    Some(cpu) => {
                        let ghost prior = *cpu;
                        remove_id(&mut cpu.wake_inbox, task_id);
                        proof {
                            assert(prior == before.cpu(i as int));
                            assert forall|id: TaskId| #[trigger] cpu.owns(id) implies cpu.task_wf(
                                self.tasks@,
                                id,
                            ) by {
                                assert(prior.owns(id));
                                assert(prior.task_wf(self.tasks@, id));
                            }
                            assert forall|k: int| 0 <= k < cpu.wake_inbox@.len() implies
                                prior.wake_inbox@.contains(#[trigger] cpu.wake_inbox@[k])
                                && self.tasks@.dom().contains(cpu.wake_inbox@[k])
                                && self.tasks@[cpu.wake_inbox@[k]].wake_queued by {
                                assert(cpu.wake_inbox@.contains(cpu.wake_inbox@[k]));
                            }
                            assert forall|id: TaskId| #[trigger] cpu.owns(id) implies
                                self.tasks@[id].state.terminal is None by {
                                assert(prior.owns(id));
                            }
                            assert(cpu.wf(self.tasks@));
                        }
                    },
                    None => {},
                }
                self.cpus[i] = slot;
                proof {
                    self.lemma_after_cpu_op(before, i as int);
                    assert forall|c: int| #[trigger] self.installed(c) <==> old(self).installed(
                        c,
                    ) by {
                        assert(before.installed(c) <==> old(self).installed(c));
                        if c != i {
                            if 0 <= c < self.cpus@.len() {
                                assert(self.cpus@[c] == before.cpus@[c]);
                            }
                        }
                    }
                    assert forall|c: int| #[trigger] self.installed(c) && c < i + 1 && c
                        != cpu_id implies {
                        &&& !self.cpu(c).wake_inbox@.contains(task_id)
                        &&& self.cpu(c).wake_inbox@ == without(old(self).cpu(c).wake_inbox@, task_id)
                        &&& Scheduler::same_but_inbox(old(self).cpu(c), self.cpu(c))
                    } by {
                        if c != i {
                            assert(self.cpus@[c] == before.cpus@[c]);
                            assert(before.installed(c));
                        } else {
                            assert(before.cpus@[c] == old(self).cpus@[c]);
                        }
                    }
                }
            }
            i = i + 1;
        }
    }

    /// The other CPUs once the boundary action of the running task of `cpu` was
    /// carried out: they are as before, but none lists a task that has ended.
    pub open spec fn others_after_boundary(
        &self,
        before: SchedulerSet,
        cpu: int,
        finalized: TrapBoundaryFinalize,
    ) -> bool {
        match finalized.reaped {
            None => self.only_cpu_changed(before, cpu),
            Some(task) => {
                &&& self.cpus@.len() == before.cpus@.len()
                &&& self.installed(cpu)
                &&& forall|c: int| #[trigger] self.installed(c) <==> before.installed(c)
                &&& forall|c: int| #[trigger]
                    self.installed(c) && c != cpu ==> {
                        &&& Scheduler::same_but_inbox(before.cpu(c), self.cpu(c))
                        &&& self.cpu(c).wake_inbox@ == without(before.cpu(c).wake_inbox@, task.id)
                    }
            },
        }
    }

    /// Carries out the boundary action of the running task of one CPU.
    pub fn finalize_current_boundary_on_cpu(
        &mut self,
        cpu_id: usize,
        rsp: usize,
        action: TaskBoundaryAction,
        now: Option<Instant>,
    ) -> (result: Result<Option<TrapBoundaryFinalize>, SchedulerError>)
        requires
            old(self).wf(),
        ensures
            final(self).wf(),
            final(self).balance_hint == old(self).balance_hint,
            final(self).cpus@.len() == old(self).cpus@.len(),
            match old(self).cpu_error(cpu_id) {
                Some(error) => result == Err::<Option<TrapBoundaryFinalize>, SchedulerError>(error)
                    && *final(self) == *old(self),
                None => {
                    let cpu = old(self).cpu(cpu_id as int);
                    &&& result is Ok
                    &&& result->Ok_0 is Some <==> cpu.trapped_task(old(self).tasks@, rsp) is Some
                    &&& result->Ok_0 is None ==> *final(self) == *old(self)
                    &&& final(self).installed(cpu_id as int)
                    &&& result->Ok_0 matches Some(finalized) ==> Scheduler::boundary_effect(
                        cpu,
                        old(self).tasks@,
                        final(self).cpu(cpu_id as int),
                        final(self).tasks@,
                        action,
                        now,
                        finalized,
                    )
                    &&& result->Ok_0 matches Some(finalized) ==> final(self).others_after_boundary(
                        *old(self),
                        cpu_id as int,
                        finalized,
                    )
                },
            },
    {
        match self.check_cpu(cpu_id) {
            Err(error) => {
                return Err(error);
            },
            Ok(()) => {},
        }
        let ghost c = cpu_id as int;
        assert(self.installed(c));
        let current = self.current_task_on_cpu(cpu_id);
        let task_id: TaskId = match current {
            None => {
                return Ok(None);
            },
            Some(task) => {
                if !task.kernel_stack_contains(rsp) {
                    return Ok(None);
                }
                proof {
                    let id = self.cpu(c).current->Some_0;
                    assert(self.cpu(c).owns(id));
                    assert(self.cpu(c).task_wf(self.tasks@, id));
                }
                task.id
            },
        };
        let ends = match action {
            TaskBoundaryAction::Cancelled => true,
            TaskBoundaryAction::Outcome(outcome) => matches!(
                outcome,
                super::task::TaskPollOutcome::Exited(_)
            ),
        };
        if ends {
            self.purge_wakeups(cpu_id, task_id);
        }
        let ghost mid = *self;
        assert(self.installed(c));
        let mut finalized: Option<TrapBoundaryFinalize> = None;
        let mut slot = self.cpus[cpu_id].take();
        match slot.as_mut() {
            Some(cpu) => {
                let ghost before = *cpu;
                finalized = cpu.finalize_current_boundary(&mut self.tasks, rsp, action, now);
                proof {
                    assert(before == old(self).cpu(c));
                    assert(before.owns(task_id));
                    assert(before.task_wf(old(self).tasks@, task_id));
                    assert forall|i: int| 0 <= i < cpu.wake_inbox@.len() implies
                        before.wake_inbox@.contains(#[trigger] cpu.wake_inbox@[i]) by {
                        if ends {
                            lemma_filter_contains(before.wake_inbox@, task_id, cpu.wake_inbox@[i]);
                            assert(cpu.wake_inbox@.contains(cpu.wake_inbox@[i]));
                        } else {
                            assert(before.wake_inbox@[i] == cpu.wake_inbox@[i]);
                        }
                    }
                }
            },
            None => {},
        }
        self.cpus[cpu_id] = slot;
        proof {
            if ends {
                self.lemma_after_cpu_reap(mid, c, task_id);
            } else {
                self.lemma_after_cpu_op(mid, c);
            }
            assert forall|d: int| #[trigger] self.installed(d) <==> old(self).installed(d) by {
                assert(mid.installed(d) <==> old(self).installed(d));
                if d != c && 0 <= d < mid.cpus@.len() {
                    assert(self.cpus@[d] == mid.cpus@[d]);
                }
            }
            if ends {
                assert forall|d: int| #[trigger] self.installed(d) && d != c implies {
                    &&& Scheduler::same_but_inbox(old(self).cpu(d), self.cpu(d))
                    &&& self.cpu(d).wake_inbox@ == without(old(self).cpu(d).wake_inbox@, task_id)
                } by {
                    assert(mid.installed(d));
                    assert(self.cpus@[d] == mid.cpus@[d]);
                }
            }
        }
        Ok(finalized)
    }

    /// As [`SchedulerSet::lemma_after_cpu_op`], for an operation that takes one
    /// of the CPU's own tasks out of the table. No other inbox lists it.
    proof fn lemma_after_cpu_reap(&self, before: SchedulerSet, cpu: int, gone: TaskId)
        requires
            before.wf(),
            before.installed(cpu),
            self.only_cpu_changed(before, cpu),
            self.tasks.wf(),
            self.cpu(cpu).cpu_id == cpu,
            self.cpu(cpu).wf(self.tasks@),
            before.cpu(cpu).owns(gone),
            self.tasks@ == before.tasks@.remove(gone),
            self.cpu(cpu).owned@ == before.cpu(cpu).owned@.remove(gone),
            before.cpu(cpu).current == Some(gone),
            forall|d: int| #[trigger]
                before.installed(d) && d != cpu ==> !before.cpu(d).wake_inbox@.contains(gone),
            forall|i: int|
                0 <= i < self.cpu(cpu).wake_inbox@.len() ==> before.cpu(cpu).wake_inbox@.contains(
                    #[trigger] self.cpu(cpu).wake_inbox@[i],
                ),
        ensures
            self.wf(),
    {
        assert forall|d: int| #[trigger] self.installed(d) implies before.installed(d) by {
            if d != cpu {
                assert(self.cpus@[d] == before.cpus@[d]);
            }
        }
        assert forall|d: int| #[trigger] before.installed(d) && d != cpu implies {
            &&& self.installed(d)
            &&& self.cpu(d) == before.cpu(d)
            &&& self.cpu(d).wf(self.tasks@)
        } by {
            assert(self.cpus@[d] == before.cpus@[d]);
            let other = before.cpu(d);
            assert forall|id: TaskId| #[trigger] other.owns(id) implies self.tasks@.dom().contains(id)
                && same_but_marker(before.tasks@[id], self.tasks@[id]) by {
                assert(other.task_wf(before.tasks@, id));
                assert(!before.cpu(cpu).owns(id));
            }
            assert forall|i: int| 0 <= i < other.wake_inbox@.len() implies self.tasks@.dom().contains(
                #[trigger] other.wake_inbox@[i],
            ) && self.tasks@[other.wake_inbox@[i]].wake_queued by {
                assert(other.wake_inbox@.contains(other.wake_inbox@[i]));
            }
            lemma_frame(other, before.tasks@, self.tasks@);
        }
        assert forall|c: int, d: int, id: TaskId|
            self.installed(c) && self.installed(d) && c != d
                && #[trigger] self.cpu(c).owns(id) implies !#[trigger] self.cpu(d).owns(id) by {
            assert(before.installed(c) && before.installed(d));
            if c != cpu {
                assert(self.cpu(c) == before.cpu(c));
            }
            if d != cpu {
                assert(self.cpu(d) == before.cpu(d));
            }
            assert(before.cpu(c).owns(id));
            assert(!before.cpu(d).owns(id));
        }
        assert forall|c: int, d: int, i: int, j: int|
            self.installed(c) && self.installed(d) && c != d && 0 <= i < self.cpu(
                c,
            ).wake_inbox@.len() && 0 <= j < self.cpu(
                d,
            ).wake_inbox@.len() implies #[trigger] self.cpu(c).wake_inbox@[i]
            != #[trigger] self.cpu(d).wake_inbox@[j] by {
            assert(before.installed(c) && before.installed(d));
            self.lemma_inbox_apart(before, cpu, c, d, i, j);
        }
        assert forall|id: TaskId| #[trigger]
            self.tasks@.dom().contains(id) && self.tasks@[id].sched.exec_start is Some implies exists|
            c: int,
        | #[trigger] self.installed(c) && self.cpu(c).owns(id) by {
            assert(before.tasks@.dom().contains(id));
            let c = choose|c: int| #[trigger] before.installed(c) && before.cpu(c).owns(id);
            if c == cpu {
                assert(self.installed(cpu));
            } else {
                assert(self.installed(c));
                assert(self.cpu(c) == before.cpu(c));
            }
        }
    }
}

/// No task runs on two CPUs.
pub proof fn law_task_runs_on_one_cpu(set: SchedulerSet, first: int, second: int, id: TaskId)
    requires
        set.wf(),
        set.installed(first),
        set.installed(second),
        set.cpu(first).current == Some(id),
        set.cpu(second).current == Some(id),
    ensures
        first == second,
{
    assert(set.cpu(first).owns(id));
    assert(set.cpu(second).owns(id));
}

/// A ready task either runs or waits in a queue of the CPU that owns it, and a
/// task that is not ready does neither.
pub proof fn law_ready_task_is_not_lost(set: SchedulerSet, cpu: int, id: TaskId)
    requires
        set.wf(),
        set.owner(id, cpu),
    ensures
        set.tasks@[id].ready() <==> set.cpu(cpu).current == Some(id) || set.cpu(cpu).queued(
            set.tasks@,
            id,
        ),
{
    let scheduler = set.cpu(cpu);
    assert(scheduler.task_wf(set.tasks@, id));
}

/// A wakeup is not lost: a blocked task whose wakeup was queued can be started
/// when its CPU next chooses, and until then the CPU has work.
pub proof fn law_wakeup_is_not_lost(
    before: SchedulerSet,
    after: SchedulerSet,
    cpu: int,
    id: TaskId,
)
    requires
        before.wf(),
        after.wf(),
        before.owner(id, cpu),
        !before.tasks@[id].ready(),
        !before.tasks@[id].wake_queued,
        after.only_cpu_changed(before, cpu),
        after.tasks@ == before.tasks@.insert(
            id,
            Task { wake_queued: true, ..before.tasks@[id] },
        ),
        after.cpu(cpu).wake_inbox@ == before.cpu(cpu).wake_inbox@.push(id),
        after.cpu(cpu).owned == before.cpu(cpu).owned,
    ensures
        after.cpu(cpu).startable(after.tasks@, id),
        after.cpu(cpu).has_work(),
{
    let inbox = before.cpu(cpu).wake_inbox@;
    assert(inbox.push(id)[inbox.len() as int] == id);
    assert(after.cpu(cpu).wakes(after.tasks@, id));
}

} // verus!

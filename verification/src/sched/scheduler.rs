//! Per-CPU EEVDF scheduler.
//!
//! Tasks live in one table shared by all CPUs; a [`Scheduler`] owns some of
//! them by id. Ready tasks that are not running sit in one of two queues: the
//! eligible queue, ordered by virtual deadline, or the ineligible queue, ordered
//! by the virtual time at which they become eligible.

use super::clock::{Duration, Instant, cap_u128, saturating_mul};
use super::eevdf::{
    EevdfParams, VirtualTime, deadline_at, effective_weight, eligible_at, virtual_span,
};
use super::runqueue::{RunQueue, ascending, entry_before};
use super::task::{
    Task, TaskBoundaryAction, TaskExit, TaskId, TaskPollOutcome, TaskReadyState, TaskSchedMeta,
    TaskSchedState, TaskState,
};
use super::weights::{
    lemma_weight_frame, lemma_weight_insert, lemma_weight_split, lemma_weight_update, ready_count,
    ready_weight,
};
use crate::collections::IdTable;
use vstd::prelude::*;

verus! {

/// All tasks of the machine.
pub type TaskTable = IdTable<Task>;

/// Errors of the scheduler core.
#[derive(Debug, Clone, Copy, PartialEq, Eq, Structural)]
pub enum SchedulerError {
    /// The CPU index is outside the installed set.
    InvalidCpu(usize),
    /// The CPU exists but has no scheduler yet.
    UninitializedCpu(usize),
    /// The scheduler picked a task that owns no runnable shell.
    MissingRunnable(TaskId),
}

/// How eagerly a task is given away.
#[derive(Debug, Clone, Copy, PartialEq, Eq, Structural)]
pub enum MigrationPolicy {
    /// Only a task whose cache has cooled.
    Steal,
    /// A cooled task first, any migratable one otherwise.
    BalanceRequest,
}

/// The identifiers but one, in order.
pub open spec fn without(ids: Seq<u64>, id: u64) -> Seq<u64> {
    ids.filter(|other: u64| other != id)
}

/// `value` capped at the largest `u64`.
pub open spec fn cap_u64(value: int) -> u64 {
    if value > u64::MAX {
        u64::MAX
    } else {
        value as u64
    }
}

/// `value`, or zero where it is negative.
pub open spec fn floor_zero(value: int) -> int {
    if value < 0 {
        0
    } else {
        value
    }
}

/// Metadata with the window that belongs to the scheduler's virtual time.
pub open spec fn refreshed(vtime: VirtualTime, meta: TaskSchedMeta) -> TaskSchedMeta {
    let veligible = eligible_at(vtime, meta.vruntime);
    TaskSchedMeta {
        veligible,
        vdeadline: deadline_at(veligible, meta.slice, effective_weight(meta.weight)),
        ..meta
    }
}

/// Metadata of a task that has stopped running.
pub open spec fn stopped(meta: TaskSchedMeta) -> TaskSchedMeta {
    TaskSchedMeta { exec_start: None, exec_runtime: (Duration { nanos: 0 }), ..meta }
}

/// A task as it enters a queue of `cpu_id`.
pub open spec fn queued_task(
    cpu_id: usize,
    vtime: VirtualTime,
    task: Task,
    ready: TaskReadyState,
) -> Task {
    Task {
        state: (TaskState { sched: ready.sched_state_spec(), ..task.state }),
        sched: refreshed(vtime, (TaskSchedMeta { cpu_id, ..task.sched })),
        execution: (super::task::TaskExecution {
            ready_state: TaskReadyState::Async,
            ..task.execution
        }),
        ..task
    }
}

/// Virtual time after a ready task with the given metadata has left: the
/// distance between its eligible time and the scheduler is spread over the
/// weight that stays.
pub open spec fn departed_vtime(
    vtime: VirtualTime,
    total_weight: u64,
    meta: TaskSchedMeta,
) -> VirtualTime {
    let weight = effective_weight(meta.weight);
    let remaining = floor_zero(total_weight - weight);
    if remaining == 0 {
        vtime
    } else if vtime >= meta.veligible {
        cap_u128(vtime + cap_u128((vtime - meta.veligible) * weight) as int / remaining)
    } else {
        floor_zero(
            vtime - cap_u128((meta.veligible - vtime) * weight) as int / remaining,
        ) as u128
    }
}

/// Total weight after a ready task has left.
pub open spec fn departed_weight(total_weight: u64, meta: TaskSchedMeta) -> u64 {
    floor_zero(total_weight - effective_weight(meta.weight)) as u64
}

/// Whether a queued task may move to another CPU.
pub open spec fn migratable(
    task: Task,
    cpu_id: usize,
    now: Instant,
    threshold: Duration,
    ignore_cache_hot: bool,
) -> bool {
    &&& task.placement.migration_ready
    &&& task.placement.migration_allowed
    &&& ignore_cache_hot || !task.placement.cache_hot(cpu_id, now, threshold)
}

/// Per-CPU EEVDF scheduler state.
pub struct Scheduler {
    pub cpu_id: usize,
    pub current: Option<TaskId>,
    pub vtime: VirtualTime,
    pub total_weight: u64,
    pub last_balance: Option<Instant>,
    pub owned: IdTable<()>,
    pub eligible: RunQueue,
    pub ineligible: RunQueue,
    pub wake_inbox: Vec<TaskId>,
}

impl Scheduler {
    pub open spec fn owns(&self, id: TaskId) -> bool {
        self.owned@.dom().contains(id)
    }

    pub open spec fn in_eligible(&self, tasks: Map<u64, Task>, id: TaskId) -> bool {
        self.eligible@.contains((tasks[id].sched.vdeadline, id))
    }

    pub open spec fn in_ineligible(&self, tasks: Map<u64, Task>, id: TaskId) -> bool {
        self.ineligible@.contains((tasks[id].sched.veligible, id))
    }

    /// Whether the task waits in one of the queues.
    pub open spec fn queued(&self, tasks: Map<u64, Task>, id: TaskId) -> bool {
        self.in_eligible(tasks, id) || self.in_ineligible(tasks, id)
    }

    /// What holds of every task that the CPU owns.
    pub open spec fn task_wf(&self, tasks: Map<u64, Task>, id: TaskId) -> bool {
        &&& tasks.dom().contains(id)
        &&& tasks[id].id == id
        &&& tasks[id].sched.cpu_id == self.cpu_id
        &&& tasks[id].sched.veligible <= tasks[id].sched.vdeadline
        &&& (tasks[id].sched.exec_start is Some <==> self.current == Some(id))
        &&& self.current == Some(id) ==> tasks[id].ready()
        &&& tasks[id].ready() && self.current != Some(id) ==> self.in_eligible(tasks, id)
            != self.in_ineligible(tasks, id)
    }

    /// Structure of the scheduler: the queues hold exactly the ready tasks that
    /// are not running, each once, under the timestamps of the task table.
    pub open spec fn queues_wf(&self, tasks: Map<u64, Task>) -> bool {
        &&& self.owned.wf()
        &&& self.eligible.wf()
        &&& self.ineligible.wf()
        &&& forall|id: TaskId| #[trigger] self.owns(id) ==> self.task_wf(tasks, id)
        &&& forall|e: (u128, u64)| #[trigger]
            self.eligible@.contains(e) ==> {
                &&& self.owns(e.1)
                &&& e.0 == tasks[e.1].sched.vdeadline
                &&& tasks[e.1].ready()
                &&& self.current != Some(e.1)
            }
        &&& forall|e: (u128, u64)| #[trigger]
            self.ineligible@.contains(e) ==> {
                &&& self.owns(e.1)
                &&& e.0 == tasks[e.1].sched.veligible
                &&& tasks[e.1].ready()
                &&& self.current != Some(e.1)
            }
        &&& self.current matches Some(id) ==> self.owns(id)
    }

    /// The wake inbox lists marked tasks, each once.
    pub open spec fn inbox_wf(&self, tasks: Map<u64, Task>) -> bool {
        &&& self.wake_inbox@.no_duplicates()
        &&& forall|i: int|
            0 <= i < self.wake_inbox@.len() ==> tasks.dom().contains(
                #[trigger] self.wake_inbox@[i],
            ) && tasks[self.wake_inbox@[i]].wake_queued
    }

    /// No owned task has ended.
    pub open spec fn alive(&self, tasks: Map<u64, Task>) -> bool {
        forall|id: TaskId| #[trigger] self.owns(id) ==> tasks[id].state.terminal is None
    }

    pub open spec fn wf(&self, tasks: Map<u64, Task>) -> bool {
        &&& self.queues_wf(tasks)
        &&& self.inbox_wf(tasks)
        &&& self.alive(tasks)
    }

    /// The tracked weight is the sum over the ready tasks. It can drift only
    /// where that sum exceeds what a `u64` holds.
    pub open spec fn weight_exact(&self, tasks: Map<u64, Task>) -> bool {
        self.total_weight == ready_weight(self.owned@.dom(), tasks)
    }

    /// Every task in the eligible queue has reached its eligible time.
    pub open spec fn eligible_reached(&self, tasks: Map<u64, Task>) -> bool {
        forall|e: (u128, u64)| #[trigger]
            self.eligible@.contains(e) ==> tasks[e.1].sched.veligible <= self.vtime
    }

    /// An empty scheduler for one CPU.
    pub fn new(cpu_id: usize) -> (scheduler: Self)
        ensures
            scheduler.cpu_id == cpu_id,
            scheduler.current is None,
            scheduler.vtime == 0,
            scheduler.total_weight == 0,
            scheduler.last_balance is None,
            scheduler.owned@ == Map::<u64, ()>::empty(),
            scheduler.eligible@ == Set::<(u128, u64)>::empty(),
            scheduler.ineligible@ == Set::<(u128, u64)>::empty(),
            scheduler.wake_inbox@ == Seq::<u64>::empty(),
            forall|tasks: Map<u64, Task>| #[trigger] scheduler.wf(tasks),
            forall|tasks: Map<u64, Task>| #[trigger] scheduler.weight_exact(tasks),
            forall|tasks: Map<u64, Task>| #[trigger] scheduler.eligible_reached(tasks),
    {
        Scheduler {
            cpu_id,
            current: None,
            vtime: 0,
            total_weight: 0,
            last_balance: None,
            owned: IdTable::new(),
            eligible: RunQueue::new(),
            ineligible: RunQueue::new(),
            wake_inbox: Vec::new(),
        }
    }

    /// The running task.
    pub fn current(&self) -> (current: Option<TaskId>)
        ensures
            current == self.current,
    {
        self.current
    }

    /// Tracked weight of the ready tasks.
    pub fn total_weight(&self) -> (weight: u64)
        ensures
            weight == self.total_weight,
    {
        self.total_weight
    }

    /// Whether the CPU may try to balance again: it never did, the clock went
    /// back, or `interval` has passed.
    pub fn should_rebalance(&self, now: Instant, interval: Duration) -> (should: bool)
        ensures
            should == (match self.last_balance {
                None => true,
                Some(last) => now.nanos < last.nanos || now.nanos - last.nanos >= interval.nanos,
            }),
    {
        match self.last_balance {
            None => true,
            Some(last) => now.nanos < last.nanos || now.duration_since(last).nanos
                >= interval.nanos,
        }
    }

    /// Records a balance attempt.
    pub fn mark_rebalanced(&mut self, now: Instant)
        ensures
            *final(self) == (Scheduler { last_balance: Some(now), ..*old(self) }),
    {
        self.last_balance = Some(now);
    }

    /// The task `task_id`, if this CPU owns it.
    pub fn task(&self, tasks: &TaskTable, task_id: TaskId) -> (task: Option<Task>)
        requires
            tasks.wf(),
            self.queues_wf(tasks@),
        ensures
            task == (if self.owns(task_id) {
                Some(tasks@[task_id])
            } else {
                None
            }),
    {
        if self.owned.contains(task_id) {
            assert(self.owns(task_id));
            Some(read_task(tasks, task_id))
        } else {
            None
        }
    }

    /// The running task.
    pub fn current_task(&self, tasks: &TaskTable) -> (task: Option<Task>)
        requires
            tasks.wf(),
            self.queues_wf(tasks@),
        ensures
            task == (match self.current {
                Some(id) => Some(tasks@[id]),
                None => None,
            }),
    {
        match self.current {
            Some(id) => self.task(tasks, id),
            None => None,
        }
    }

    /// Whether the CPU has anything to run or to wake.
    pub fn has_runnable_work(&self) -> (work: bool)
        requires
            self.eligible.wf(),
            self.ineligible.wf(),
        ensures
            work == self.has_work(),
    {
        self.current.is_some() || !self.eligible.is_empty() || !self.ineligible.is_empty()
            || self.wake_inbox.len() > 0
    }

    pub open spec fn has_work(&self) -> bool {
        ||| self.current is Some
        ||| self.eligible@ != Set::<(u128, u64)>::empty()
        ||| self.ineligible@ != Set::<(u128, u64)>::empty()
        ||| self.wake_inbox@.len() > 0
    }

    fn add_runnable_weight(&mut self, meta: TaskSchedMeta)
        ensures
            *final(self) == (Scheduler {
                total_weight: cap_u64(old(self).total_weight + effective_weight(meta.weight)),
                ..*old(self)
            }),
    {
        let weight: u64 = if meta.weight == 0 {
            1
        } else {
            meta.weight
        };
        self.total_weight = self.total_weight.saturating_add(weight);
    }

    fn sub_runnable_weight(&mut self, meta: TaskSchedMeta)
        ensures
            *final(self) == (Scheduler {
                total_weight: departed_weight(old(self).total_weight, meta),
                ..*old(self)
            }),
    {
        let weight: u64 = if meta.weight == 0 {
            1
        } else {
            meta.weight
        };
        self.total_weight = self.total_weight.saturating_sub(weight);
    }

    fn adjust_vtime_for_departure(&mut self, meta: TaskSchedMeta)
        ensures
            *final(self) == (Scheduler {
                vtime: departed_vtime(old(self).vtime, old(self).total_weight, meta),
                ..*old(self)
            }),
    {
        let weight: u64 = if meta.weight == 0 {
            1
        } else {
            meta.weight
        };
        let remaining: u64 = self.total_weight.saturating_sub(weight);
        if remaining == 0 {
            return;
        }
        if self.vtime >= meta.veligible {
            let correction: u128 = saturating_mul(self.vtime - meta.veligible, weight as u128) / (
            remaining as u128);
            self.vtime = self.vtime.saturating_add(correction);
        } else {
            let correction: u128 = saturating_mul(meta.veligible - self.vtime, weight as u128) / (
            remaining as u128);
            self.vtime = self.vtime.saturating_sub(correction);
        }
    }

    /// The metadata with its window recomputed.
    fn refresh_deadlines(&self, meta: TaskSchedMeta) -> (fresh: TaskSchedMeta)
        ensures
            fresh == refreshed(self.vtime, meta),
            fresh.veligible <= fresh.vdeadline,
    {
        let weight: u64 = if meta.weight == 0 {
            1
        } else {
            meta.weight
        };
        let params = EevdfParams { weight, slice: meta.slice };
        let veligible: u128 = params.eligible(self.vtime, meta.vruntime);
        let vdeadline: u128 = params.deadline_from_eligible(veligible);
        TaskSchedMeta { veligible, vdeadline, ..meta }
    }
}

impl Scheduler {
    /// `queues_wf`, leaving open the one owned task `hole`, which is neither
    /// queued nor running.
    pub open spec fn queues_wf_except(&self, tasks: Map<u64, Task>, hole: TaskId) -> bool {
        &&& self.owned.wf()
        &&& self.eligible.wf()
        &&& self.ineligible.wf()
        &&& forall|id: TaskId| #[trigger]
            self.owns(id) && id != hole ==> self.task_wf(tasks, id)
        &&& forall|e: (u128, u64)| #[trigger]
            self.eligible@.contains(e) ==> {
                &&& self.owns(e.1)
                &&& e.1 != hole
                &&& e.0 == tasks[e.1].sched.vdeadline
                &&& tasks[e.1].ready()
                &&& self.current != Some(e.1)
            }
        &&& forall|e: (u128, u64)| #[trigger]
            self.ineligible@.contains(e) ==> {
                &&& self.owns(e.1)
                &&& e.1 != hole
                &&& e.0 == tasks[e.1].sched.veligible
                &&& tasks[e.1].ready()
                &&& self.current != Some(e.1)
            }
        &&& self.current matches Some(id) ==> self.owns(id)
        &&& self.owns(hole)
        &&& tasks.dom().contains(hole)
        &&& tasks[hole].id == hole
        &&& tasks[hole].sched.exec_start is None
        &&& self.current != Some(hole)
    }

    /// Puts an owned task that is neither queued nor running into its queue.
    fn insert_runnable(&mut self, tasks: &mut TaskTable, task_id: TaskId, ready: TaskReadyState)
        requires
            old(tasks).wf(),
            old(self).queues_wf_except(old(tasks)@, task_id),
        ensures
            final(tasks).wf(),
            final(self).queues_wf(final(tasks)@),
            final(tasks)@ == old(tasks)@.insert(
                task_id,
                queued_task(old(self).cpu_id, old(self).vtime, old(tasks)@[task_id], ready),
            ),
            final(self).total_weight == (if old(tasks)@[task_id].ready() {
                old(self).total_weight
            } else {
                cap_u64(old(self).total_weight + old(tasks)@[task_id].weight())
            }),
            final(self).in_eligible(final(tasks)@, task_id) <==> final(tasks)@[task_id].sched.veligible <= old(self).vtime,
            final(self).in_ineligible(final(tasks)@, task_id) <==> final(tasks)@[task_id].sched.veligible > old(self).vtime,
            forall|e: (u128, u64)|
                e.1 != task_id ==> (#[trigger] final(self).eligible@.contains(e) <==> old(self).eligible@.contains(e)),
            forall|e: (u128, u64)|
                e.1 != task_id ==> (#[trigger] final(self).ineligible@.contains(e) <==> old(self).ineligible@.contains(e)),
            final(self).cpu_id == old(self).cpu_id,
            final(self).current == old(self).current,
            final(self).vtime == old(self).vtime,
            final(self).last_balance == old(self).last_balance,
            final(self).owned == old(self).owned,
            final(self).wake_inbox == old(self).wake_inbox,
    {
        let mut task = read_task(tasks, task_id);
        task.sched.cpu_id = self.cpu_id;
        task.sched = self.refresh_deadlines(task.sched);
        if !task.state.sched.is_ready() {
            self.add_runnable_weight(task.sched);
        }
        task.state.sched = ready.sched_state();
        task.execution.set_ready(TaskReadyState::Async);
        let _ = tasks.insert(task_id, task);
        if task.sched.veligible <= self.vtime {
            self.eligible.insert((task.sched.vdeadline, task_id));
        } else {
            self.ineligible.insert((task.sched.veligible, task_id));
        }
        proof {
            assert forall|id: TaskId| #[trigger] self.owns(id) implies self.task_wf(
                tasks@,
                id,
            ) by {
                if id != task_id {
                    assert(old(self).owns(id));
                    assert(old(self).task_wf(old(tasks)@, id));
                }
            }
        }
    }

    /// Moves every task whose eligible time has come to the eligible queue.
    fn promote_eligible(&mut self, tasks: &TaskTable)
        requires
            tasks.wf(),
            old(self).queues_wf(tasks@),
        ensures
            final(self).queues_wf(tasks@),
            forall|e: (u128, u64)| #[trigger]
                final(self).ineligible@.contains(e) <==> old(self).ineligible@.contains(e) && e.0
                    > old(self).vtime,
            forall|e: (u128, u64)| #[trigger]
                final(self).eligible@.contains(e) <==> old(self).eligible@.contains(e) || (
                old(self).in_ineligible(tasks@, e.1) && tasks@[e.1].sched.veligible <= old(self).vtime && e.0 == tasks@[e.1].sched.vdeadline),
            old(self).eligible_reached(tasks@) ==> final(self).eligible_reached(tasks@),
            final(self).cpu_id == old(self).cpu_id,
            final(self).current == old(self).current,
            final(self).vtime == old(self).vtime,
            final(self).total_weight == old(self).total_weight,
            final(self).last_balance == old(self).last_balance,
            final(self).owned == old(self).owned,
            final(self).wake_inbox == old(self).wake_inbox,
    {
        loop
            invariant
                tasks.wf(),
                self.queues_wf(tasks@),
                forall|e: (u128, u64)| #[trigger]
                    self.ineligible@.contains(e) ==> old(self).ineligible@.contains(e),
                forall|e: (u128, u64)| #[trigger]
                    old(self).ineligible@.contains(e) && e.0 > self.vtime
                        ==> self.ineligible@.contains(e),
                forall|e: (u128, u64)| #[trigger]
                    self.eligible@.contains(e) ==> old(self).eligible@.contains(e) || (old(self).in_ineligible(tasks@, e.1) && tasks@[e.1].sched.veligible <= self.vtime
                        && e.0 == tasks@[e.1].sched.vdeadline),
                forall|e: (u128, u64)| #[trigger]
                    old(self).eligible@.contains(e) ==> self.eligible@.contains(e),
                forall|e: (u128, u64)| #[trigger]
                    old(self).ineligible@.contains(e) ==> self.ineligible@.contains(e)
                        || self.in_eligible(tasks@, e.1),
                old(self).queues_wf(tasks@),
                self.cpu_id == old(self).cpu_id,
                self.current == old(self).current,
                self.vtime == old(self).vtime,
                self.total_weight == old(self).total_weight,
                self.last_balance == old(self).last_balance,
                self.owned == old(self).owned,
                self.wake_inbox == old(self).wake_inbox,
            ensures
                forall|e: (u128, u64)| #[trigger]
                    self.ineligible@.contains(e) ==> e.0 > self.vtime,
            decreases self.ineligible.order().len(),
        {
            let front = self.ineligible.front();
            match front {
                None => {
                    break;
                },
                Some(entry) => {
                    if entry.0 > self.vtime {
                        break;
                    }
                    proof {
                        self.ineligible.lemma_order();
                    }
                    let ghost before = *self;
                    let _ = self.ineligible.pop_front();
                    proof {
                        self.ineligible.lemma_order();
                        assert(self.owns(entry.1));
                        assert(before.task_wf(tasks@, entry.1));
                        assert(before.in_ineligible(tasks@, entry.1));
                    }
                    let task = read_task(tasks, entry.1);
                    self.eligible.insert((task.sched.vdeadline, entry.1));
                    proof {
                        assert forall|id: TaskId| #[trigger] self.owns(id) implies self.task_wf(
                            tasks@,
                            id,
                        ) by {
                            assert(before.owns(id));
                            assert(before.task_wf(tasks@, id));
                        }
                    }
                },
            }
        }
    }
}

impl Scheduler {
    /// The tracked weight stays exact through an operation, as long as the
    /// sum of the ready weights can be represented.
    pub open spec fn keeps_weight(
        before: Scheduler,
        tasks_before: Map<u64, Task>,
        after: Scheduler,
        tasks_after: Map<u64, Task>,
    ) -> bool {
        before.weight_exact(tasks_before) && ready_weight(after.owned@.dom(), tasks_after)
            <= u64::MAX ==> after.weight_exact(tasks_after)
    }

    /// Whether admission puts the task into a queue.
    pub open spec fn admits_runnable(task: Task) -> bool {
        task.execution.runnable || task.ready()
    }

    /// The task as admission leaves it.
    pub open spec fn admitted(&self, task: Task) -> Task {
        if Self::admits_runnable(task) {
            queued_task(
                self.cpu_id,
                self.vtime,
                task,
                if task.state.sched is PreemptReady {
                    TaskReadyState::Preempt
                } else {
                    TaskReadyState::Async
                },
            )
        } else {
            Task {
                sched: refreshed(
                    self.vtime,
                    (TaskSchedMeta { cpu_id: self.cpu_id, ..task.sched }),
                ),
                ..task
            }
        }
    }

    /// Nothing but the wake inbox differs.
    pub open spec fn same_but_inbox(before: Scheduler, after: Scheduler) -> bool {
        Scheduler { wake_inbox: before.wake_inbox, ..after } == before
    }

    /// What the CPU is after a shell that was never runnable has left it. A task
    /// that it does not own leaves the inbox as it is.
    pub open spec fn withdrawn(before: Scheduler, after: Scheduler, task_id: TaskId) -> bool {
        &&& Scheduler { wake_inbox: before.wake_inbox, owned: before.owned, ..after } == before
        &&& after.wake_inbox@ == (if before.owns(task_id) {
            without(before.wake_inbox@, task_id)
        } else {
            before.wake_inbox@
        })
    }

    /// What taking over a task does that another CPU owned, or none.
    pub open spec fn admit_effect(
        before: Scheduler,
        tasks_before: Map<u64, Task>,
        after: Scheduler,
        tasks_after: Map<u64, Task>,
        task_id: TaskId,
    ) -> bool {
        let task = tasks_before[task_id];
        &&& tasks_after == tasks_before.insert(task_id, before.admitted(task))
        &&& after.owned@ == before.owned@.insert(task_id, ())
        &&& after.total_weight == (if Self::admits_runnable(task) {
            cap_u64(before.total_weight + task.weight())
        } else {
            before.total_weight
        })
        &&& after.in_eligible(tasks_after, task_id) <==> Self::admits_runnable(task)
            && tasks_after[task_id].sched.veligible <= before.vtime
        &&& after.in_ineligible(tasks_after, task_id) <==> Self::admits_runnable(task)
            && tasks_after[task_id].sched.veligible > before.vtime
        &&& forall|e: (u128, u64)|
            e.1 != task_id ==> (#[trigger] after.eligible@.contains(e)
                <==> before.eligible@.contains(e))
        &&& forall|e: (u128, u64)|
            e.1 != task_id ==> (#[trigger] after.ineligible@.contains(e)
                <==> before.ineligible@.contains(e))
        &&& after.cpu_id == before.cpu_id
        &&& after.current == before.current
        &&& after.vtime == before.vtime
        &&& after.last_balance == before.last_balance
        &&& after.wake_inbox == before.wake_inbox
    }

    /// Takes a task over from the table and queues it if it can run.
    pub fn admit_task(&mut self, tasks: &mut TaskTable, task_id: TaskId) -> (admitted: TaskId)
        requires
            old(tasks).wf(),
            old(self).wf(old(tasks)@),
            old(tasks)@.dom().contains(task_id),
            old(tasks)@[task_id].id == task_id,
            old(self).owns(task_id) || old(tasks)@[task_id].sched.exec_start is None,
            old(tasks)@[task_id].state.terminal is None,
        ensures
            admitted == task_id,
            final(tasks).wf(),
            final(self).wf(final(tasks)@),
            old(self).owns(task_id) ==> *final(self) == *old(self) && *final(tasks) == *old(tasks),
            !old(self).owns(task_id) ==> Self::admit_effect(
                *old(self),
                old(tasks)@,
                *final(self),
                final(tasks)@,
                task_id,
            ),
            Self::keeps_weight(*old(self), old(tasks)@, *final(self), final(tasks)@),
            old(self).eligible_reached(old(tasks)@) ==> final(self).eligible_reached(final(tasks)@),
    {
        if self.owned.contains(task_id) {
            return task_id;
        }
        let mut task = read_task(tasks, task_id);
        let runnable = task.execution.runnable || task.state.sched.is_ready();
        let reason = match task.state.sched {
            TaskSchedState::PreemptReady => TaskReadyState::Preempt,
            _ => TaskReadyState::Async,
        };
        task.sched.cpu_id = self.cpu_id;
        task.sched = self.refresh_deadlines(task.sched);
        let _ = tasks.insert(task_id, task);
        let _ = self.owned.insert(task_id, ());
        proof {
            assert(!old(self).owns(task_id));
            assert forall|id: TaskId| #[trigger] self.owns(id) && id != task_id implies
                self.task_wf(tasks@, id) by {
                assert(old(self).owns(id));
                assert(old(self).task_wf(old(tasks)@, id));
            }
            old(self).owned.lemma_order();
            self.owned.lemma_order();
            assert(self.owned@.dom() =~= old(self).owned@.dom().insert(task_id));
            lemma_weight_frame(old(self).owned@.dom(), old(tasks)@, tasks@);
            lemma_weight_insert(old(self).owned@.dom(), tasks@, task_id);
        }
        if runnable {
            let ghost mid = *self;
            let ghost mid_tasks = tasks@;
            if task.state.sched.is_ready() {
                self.add_runnable_weight(task.sched);
            }
            proof {
                assert forall|id: TaskId| #[trigger] self.owns(id) && id != task_id implies
                    self.task_wf(tasks@, id) by {
                    assert(mid.owns(id));
                    assert(mid.task_wf(tasks@, id));
                }
                assert(forall|e: (u128, u64)| #[trigger]
                    self.eligible@.contains(e) ==> old(self).owns(e.1));
                assert(forall|e: (u128, u64)| #[trigger]
                    self.ineligible@.contains(e) ==> old(self).owns(e.1));
                assert(self.current matches Some(id) ==> old(self).owns(id));
            }
            self.insert_runnable(tasks, task_id, reason);
            proof {
                assert(self.owned@.dom() =~= mid.owned@.dom());
                lemma_weight_update(self.owned@.dom(), mid_tasks, task_id, tasks@[task_id]);
                assert(tasks@ =~= mid_tasks.insert(task_id, tasks@[task_id]));
                assert(tasks@ =~= old(tasks)@.insert(task_id, old(self).admitted(old(tasks)@[task_id])));
            }
        } else {
            proof {
                assert(self.task_wf(tasks@, task_id));
            }
        }
        proof {
            assert forall|i: int| 0 <= i < self.wake_inbox@.len() implies tasks@.dom().contains(
                #[trigger] self.wake_inbox@[i],
            ) && tasks@[self.wake_inbox@[i]].wake_queued by {
                assert(old(self).wake_inbox@[i] == self.wake_inbox@[i]);
            }
            assert forall|id: TaskId| #[trigger] self.owns(id) implies tasks@[id].state.terminal
                is None by {
                if id != task_id {
                    assert(old(self).owns(id));
                }
            }
        }
        task_id
    }

    /// Queues a wakeup for local processing, unless one is queued already.
    pub fn enqueue_wakeup(&mut self, tasks: &mut TaskTable, task_id: TaskId)
        requires
            old(tasks).wf(),
            old(self).wf(old(tasks)@),
        ensures
            final(tasks).wf(),
            final(self).wf(final(tasks)@),
            ({
                let fresh = old(self).owns(task_id) && !old(tasks)@[task_id].wake_queued;
                &&& final(tasks)@ == (if fresh {
                    old(tasks)@.insert(
                        task_id,
                        Task { wake_queued: true, ..old(tasks)@[task_id] },
                    )
                } else {
                    old(tasks)@
                })
                &&& final(self).wake_inbox@ == (if fresh {
                    old(self).wake_inbox@.push(task_id)
                } else {
                    old(self).wake_inbox@
                })
            }),
            final(self).eligible == old(self).eligible,
            final(self).ineligible == old(self).ineligible,
            final(self).total_weight == old(self).total_weight,
            Self::keeps_weight(*old(self), old(tasks)@, *final(self), final(tasks)@),
            old(self).eligible_reached(old(tasks)@) ==> final(self).eligible_reached(final(tasks)@),
            final(self).cpu_id == old(self).cpu_id,
            final(self).current == old(self).current,
            final(self).vtime == old(self).vtime,
            final(self).last_balance == old(self).last_balance,
            final(self).owned == old(self).owned,
    {
        if !self.owned.contains(task_id) {
            return;
        }
        assert(self.owns(task_id));
        let mut task = read_task(tasks, task_id);
        if !task.try_mark_wake_queued() {
            return;
        }
        let _ = tasks.insert(task_id, task);
        self.wake_inbox.push(task_id);
        proof {
            assert forall|id: TaskId| #[trigger] self.owns(id) implies self.task_wf(tasks@, id) by {
                assert(old(self).owns(id));
                assert(old(self).task_wf(old(tasks)@, id));
            }
            assert forall|i: int| 0 <= i < self.wake_inbox@.len() implies tasks@.dom().contains(
                #[trigger] self.wake_inbox@[i],
            ) && tasks@[self.wake_inbox@[i]].wake_queued by {
                if i < old(self).wake_inbox@.len() {
                    assert(old(self).wake_inbox@[i] == self.wake_inbox@[i]);
                }
            }
            self.owned.lemma_order();
            lemma_weight_frame(self.owned@.dom(), old(tasks)@, tasks@);
        }
    }

    /// Takes a task out of the table: one that has ended, or a shell that has
    /// never been runnable.
    pub fn remove_task(&mut self, tasks: &mut TaskTable, task_id: TaskId) -> (removed: Option<Task>)
        requires
            old(tasks).wf(),
            old(self).queues_wf(old(tasks)@),
            old(self).inbox_wf(old(tasks)@),
            old(self).owns(task_id) ==> !old(tasks)@[task_id].ready(),
            forall|id: TaskId| #[trigger]
                old(self).owns(id) && id != task_id ==> old(tasks)@[id].state.terminal is None,
        ensures
            final(tasks).wf(),
            final(self).wf(final(tasks)@),
            match removed {
                Some(task) => {
                    &&& old(self).owns(task_id)
                    &&& task == (Task { wake_queued: false, ..old(tasks)@[task_id] })
                    &&& final(tasks)@ == old(tasks)@.remove(task_id)
                    &&& final(self).owned@ == old(self).owned@.remove(task_id)
                },
                None => {
                    &&& !old(self).owns(task_id)
                    &&& *final(tasks) == *old(tasks)
                    &&& *final(self) == *old(self)
                },
            },
            Self::withdrawn(*old(self), *final(self), task_id),
            old(self).weight_exact(old(tasks)@) ==> final(self).weight_exact(final(tasks)@),
            old(self).eligible_reached(old(tasks)@) ==> final(self).eligible_reached(final(tasks)@),
    {
        if !self.owned.contains(task_id) {
            return None;
        }
        assert(self.owns(task_id));
        let mut task = read_task(tasks, task_id);
        let _ = task.clear_wake_queued();
        let _ = tasks.remove(task_id);
        let _ = self.owned.remove(task_id);
        remove_id(&mut self.wake_inbox, task_id);
        proof {
            assert forall|id: TaskId| #[trigger] self.owns(id) implies self.task_wf(tasks@, id) by {
                assert(old(self).owns(id));
                assert(old(self).task_wf(old(tasks)@, id));
            }
            assert forall|i: int| 0 <= i < self.wake_inbox@.len() implies tasks@.dom().contains(
                #[trigger] self.wake_inbox@[i],
            ) && tasks@[self.wake_inbox@[i]].wake_queued by {
                assert(self.wake_inbox@.contains(self.wake_inbox@[i]));
            }
            assert forall|e: (u128, u64)| #[trigger] self.eligible@.contains(e) implies {
                &&& self.owns(e.1)
                &&& e.0 == tasks@[e.1].sched.vdeadline
                &&& tasks@[e.1].ready()
                &&& self.current != Some(e.1)
            } by {
                assert(old(self).eligible@.contains(e));
            }
            assert forall|id: TaskId| #[trigger] self.owns(id) implies tasks@[id].state.terminal
                is None by {
                assert(old(self).owns(id));
            }
            old(self).owned.lemma_order();
            self.owned.lemma_order();
            assert(self.owned@.dom() =~= old(self).owned@.dom().remove(task_id));
            lemma_weight_split(old(self).owned@.dom(), old(tasks)@, task_id);
            lemma_weight_frame(self.owned@.dom(), old(tasks)@, tasks@);
        }
        Some(task)
    }
}

/// Drops `id` from the list; the rest keeps its order.
pub fn remove_id(ids: &mut Vec<u64>, id: u64)
    requires
        old(ids)@.no_duplicates(),
    ensures
        final(ids)@ == without(old(ids)@, id),
        final(ids)@.no_duplicates(),
        forall|other: u64|
            final(ids)@.contains(other) <==> old(ids)@.contains(other) && other != id,
{
    let mut i: usize = 0;
    while i < ids.len() && ids[i] != id
        invariant
            i <= ids@.len(),
            ids@ == old(ids)@,
            forall|j: int| 0 <= j < i ==> ids@[j] != id,
        decreases ids@.len() - i,
    {
        i = i + 1;
    }
    proof {
        lemma_filter_out(ids@, id, i as int);
    }
    if i < ids.len() {
        let _ = ids.remove(i);
    }
    proof {
        assert forall|other: u64|
            ids@.contains(other) <==> old(ids)@.contains(other) && other != id by {
            if i < old(ids)@.len() {
                if old(ids)@.contains(other) && other != id {
                    let j = choose|j: int| 0 <= j < old(ids)@.len() && old(ids)@[j] == other;
                    if j < i {
                        assert(ids@[j] == other);
                    } else {
                        assert(ids@[j - 1] == other);
                    }
                }
                if ids@.contains(other) {
                    let j = choose|j: int| 0 <= j < ids@.len() && ids@[j] == other;
                    if j < i {
                        assert(old(ids)@[j] == other);
                    } else {
                        assert(old(ids)@[j + 1] == other);
                    }
                }
            }
        }
    }
}

/// Filtering one value out of a duplicate-free sequence removes its position.
/// Leaving one identifier out takes away at most one.
pub proof fn lemma_filter_out(ids: Seq<u64>, id: u64, at: int)
    requires
        ids.no_duplicates(),
        0 <= at <= ids.len(),
        forall|j: int| 0 <= j < at ==> ids[j] != id,
        at < ids.len() ==> ids[at] == id,
    ensures
        without(ids, id) == (if at < ids.len() {
            ids.remove(at)
        } else {
            ids
        }),
    decreases ids.len(),
{
    let keep = |other: u64| other != id;
    reveal(Seq::filter);
    if ids.len() > 0 {
        let rest = ids.drop_last();
        if at == ids.len() {
            lemma_filter_out(rest, id, at - 1);
            assert(ids =~= rest.push(ids.last()));
        } else if at == ids.len() - 1 {
            lemma_filter_out(rest, id, at);
            assert(ids.remove(at) =~= rest);
        } else {
            lemma_filter_out(rest, id, at);
            assert(ids.last() != id);
            assert(ids.remove(at) =~= rest.remove(at).push(ids.last()));
        }
    }
}

impl Scheduler {
    /// Whether the task could run at virtual time `vtime`.
    pub open spec fn reachable(
        &self,
        tasks: Map<u64, Task>,
        id: TaskId,
        vtime: VirtualTime,
    ) -> bool {
        self.in_eligible(tasks, id) || (self.in_ineligible(tasks, id) && tasks[id].sched.veligible
            <= vtime)
    }

    /// The EEVDF choice: of the tasks that can run at virtual time `vtime`, the
    /// one with the earliest deadline. Virtual time moves only where no task
    /// could run, and then to the earliest eligible time.
    pub open spec fn is_choice(
        &self,
        tasks: Map<u64, Task>,
        id: TaskId,
        vtime: VirtualTime,
    ) -> bool {
        &&& self.reachable(tasks, id, vtime)
        &&& forall|other: TaskId| #[trigger]
            self.reachable(tasks, other, vtime) && other != id ==> entry_before(
                (tasks[id].sched.vdeadline, id),
                (tasks[other].sched.vdeadline, other),
            )
        &&& (exists|other: TaskId| self.reachable(tasks, other, self.vtime)) ==> vtime
            == self.vtime
        &&& (forall|other: TaskId| !self.reachable(tasks, other, self.vtime)) ==> {
            &&& vtime == tasks[id].sched.veligible
            &&& vtime > self.vtime
            &&& forall|other: TaskId| #[trigger]
                self.in_ineligible(tasks, other) ==> vtime <= tasks[other].sched.veligible
        }
    }

    /// Takes the next task out of its queue.
    fn pick_next(&mut self, tasks: &TaskTable) -> (picked: Option<TaskId>)
        requires
            tasks.wf(),
            old(self).queues_wf(tasks@),
            old(self).current is None,
        ensures
            match picked {
                Some(id) => {
                    &&& old(self).is_choice(tasks@, id, final(self).vtime)
                    &&& final(self).queues_wf_except(tasks@, id)
                    &&& tasks@[id].ready()
                    &&& old(self).owns(id)
                    &&& forall|other: TaskId|
                        other != id ==> (#[trigger] final(self).in_eligible(tasks@, other) <==> old(self).reachable(tasks@, other, final(self).vtime))
                    &&& forall|other: TaskId|
                        other != id ==> (#[trigger] final(self).in_ineligible(tasks@, other)
                            <==> old(self).in_ineligible(tasks@, other)
                            && tasks@[other].sched.veligible > final(self).vtime)
                },
                None => {
                    &&& old(self).eligible@ == Set::<(u128, u64)>::empty()
                    &&& old(self).ineligible@ == Set::<(u128, u64)>::empty()
                    &&& final(self).eligible@ == old(self).eligible@
                    &&& final(self).ineligible@ == old(self).ineligible@
                    &&& final(self).vtime == old(self).vtime
                    &&& final(self).queues_wf(tasks@)
                },
            },
            old(self).eligible_reached(tasks@) ==> final(self).eligible_reached(tasks@),
            final(self).vtime >= old(self).vtime,
            final(self).cpu_id == old(self).cpu_id,
            final(self).current == old(self).current,
            final(self).total_weight == old(self).total_weight,
            final(self).last_balance == old(self).last_balance,
            final(self).owned == old(self).owned,
            final(self).wake_inbox == old(self).wake_inbox,
    {
        self.promote_eligible(tasks);
        let ghost first = *self;
        proof {
            assert forall|id: TaskId| #[trigger] first.in_eligible(tasks@, id) <==> old(self).reachable(tasks@, id, old(self).vtime) by {
                if first.in_eligible(tasks@, id) {
                    assert(first.eligible@.contains((tasks@[id].sched.vdeadline, id)));
                }
            }
        }
        if self.eligible.is_empty() {
            match self.ineligible.front() {
                Some(entry) => {
                    proof {
                        assert(old(self).ineligible@.contains(entry));
                        assert forall|id: TaskId| !old(self).reachable(tasks@, id, old(self).vtime)
                            by {
                            assert(!first.in_eligible(tasks@, id));
                        }
                        assert forall|other: TaskId| #[trigger]
                            old(self).in_ineligible(tasks@, other) implies entry.0
                            <= tasks@[other].sched.veligible by {
                            let e = (tasks@[other].sched.veligible, other);
                            assert(!old(self).reachable(tasks@, other, old(self).vtime));
                            assert(first.ineligible@.contains(e));
                            if e != entry {
                                assert(entry_before(entry, e));
                            }
                        }
                    }
                    if entry.0 > self.vtime {
                        self.vtime = entry.0;
                    }
                    proof {
                        assert forall|id: TaskId| #[trigger] self.owns(id) implies self.task_wf(
                            tasks@,
                            id,
                        ) by {
                            assert(first.owns(id));
                            assert(first.task_wf(tasks@, id));
                        }
                    }
                    let ghost jumped = *self;
                    self.promote_eligible(tasks);
                    proof {
                        assert(jumped.in_ineligible(tasks@, entry.1));
                        assert(self.in_eligible(tasks@, entry.1));
                    }
                },
                None => {},
            }
        }
        proof {
            assert forall|id: TaskId| #[trigger] self.in_eligible(tasks@, id) <==> old(self).reachable(tasks@, id, self.vtime) by {
                let e = (tasks@[id].sched.vdeadline, id);
                if self.eligible@.contains(e) {
                } else if old(self).reachable(tasks@, id, self.vtime) {
                    if old(self).in_ineligible(tasks@, id) {
                        assert(old(self).ineligible@.contains((tasks@[id].sched.veligible, id)));
                    }
                }
            }
            assert forall|id: TaskId| #[trigger] self.in_ineligible(tasks@, id) <==> old(self).in_ineligible(tasks@, id) && tasks@[id].sched.veligible > self.vtime by {
                let e = (tasks@[id].sched.veligible, id);
                if self.ineligible@.contains(e) {
                }
            }
        }
        let ghost ready = *self;
        match self.eligible.pop_front() {
            Some(entry) => {
                let id: TaskId = entry.1;
                proof {
                    assert(ready.eligible@.contains(entry));
                    assert(ready.owns(id));
                    assert(ready.task_wf(tasks@, id));
                    assert(ready.in_eligible(tasks@, id));
                    assert forall|other: TaskId| #[trigger] self.owns(other) && other != id implies
                        self.task_wf(tasks@, other) by {
                        assert(ready.owns(other));
                        assert(ready.task_wf(tasks@, other));
                    }
                    assert forall|other: TaskId| #[trigger]
                        old(self).reachable(tasks@, other, self.vtime) && other
                            != id implies entry_before(
                        (tasks@[id].sched.vdeadline, id),
                        (tasks@[other].sched.vdeadline, other),
                    ) by {
                        assert(ready.in_eligible(tasks@, other));
                    }
                    assert forall|other: TaskId| other != id implies (#[trigger] self.in_eligible(
                        tasks@,
                        other,
                    ) <==> old(self).reachable(tasks@, other, self.vtime)) by {
                        assert(ready.in_eligible(tasks@, other) <==> old(self).reachable(
                            tasks@,
                            other,
                            self.vtime,
                        ));
                    }
                    assert forall|other: TaskId| other != id implies (#[trigger] self.in_ineligible(
                        tasks@,
                        other,
                    ) <==> old(self).in_ineligible(tasks@, other) && tasks@[other].sched.veligible
                        > self.vtime) by {
                        assert(ready.in_ineligible(tasks@, other) <==> old(self).in_ineligible(
                            tasks@,
                            other,
                        ) && tasks@[other].sched.veligible > self.vtime);
                    }
                    if exists|other: TaskId| old(self).reachable(tasks@, other, old(self).vtime) {
                        let other = choose|other: TaskId|
                            old(self).reachable(tasks@, other, old(self).vtime);
                        assert(first.in_eligible(tasks@, other));
                    } else {
                        assert(!old(self).reachable(tasks@, id, old(self).vtime));
                        assert(old(self).in_ineligible(tasks@, id));
                    }
                }
                Some(id)
            },
            None => {
                proof {
                    assert(old(self).eligible@ =~= Set::<(u128, u64)>::empty()) by {
                        assert forall|e: (u128, u64)| !old(self).eligible@.contains(e) by {
                            if old(self).eligible@.contains(e) {
                                assert(first.eligible@.contains(e));
                            }
                        }
                    }
                    assert(old(self).ineligible@ =~= Set::<(u128, u64)>::empty()) by {
                        assert forall|e: (u128, u64)| !old(self).ineligible@.contains(e) by {
                            if old(self).ineligible@.contains(e) {
                                assert(old(self).owns(e.1));
                                assert(first.ineligible@.contains(e) || first.in_eligible(
                                    tasks@,
                                    e.1,
                                ));
                            }
                        }
                    }
                    assert(self.ineligible@ =~= Set::<(u128, u64)>::empty());
                    assert forall|id: TaskId| #[trigger] self.owns(id) implies self.task_wf(
                        tasks@,
                        id,
                    ) by {
                        assert(ready.owns(id));
                        assert(ready.task_wf(tasks@, id));
                    }
                }
                None
            },
        }
    }

    /// What choosing the next task does. Tasks that become eligible on the way
    /// change the queue.
    pub open spec fn take_next_effect(
        before: Scheduler,
        tasks_before: Map<u64, Task>,
        after: Scheduler,
        tasks_after: Map<u64, Task>,
        now: Instant,
        taken: Option<TaskId>,
    ) -> bool {
        &&& match taken {
                Some(id) => {
                    &&& before.owns(id)
                    &&& before.is_choice(tasks_before, id, after.vtime)
                    &&& after.current == Some(id)
                    &&& tasks_after == tasks_before.insert(
                        id,
                        Task {
                            sched: (TaskSchedMeta {
                                exec_start: Some(now),
                                exec_runtime: (Duration { nanos: 0 }),
                                ..tasks_before[id].sched
                            }),
                            ..tasks_before[id]
                        },
                    )
                    &&& !after.queued(tasks_after, id)
                    &&& forall|other: TaskId|
                        other != id ==> (#[trigger] after.in_eligible(tasks_after, other)
                            <==> before.reachable(tasks_before, other, after.vtime))
                    &&& forall|other: TaskId|
                        other != id ==> (#[trigger] after.in_ineligible(tasks_after, other)
                            <==> before.in_ineligible(tasks_before, other) && tasks_before[other].sched.veligible > after.vtime)
                },
                None => {
                    &&& before.eligible@ == Set::<(u128, u64)>::empty()
                    &&& before.ineligible@ == Set::<(u128, u64)>::empty()
                    &&& after.eligible@ == before.eligible@
                    &&& after.ineligible@ == before.ineligible@
                    &&& after.vtime == before.vtime
                    &&& after.current is None
                    &&& tasks_after == tasks_before
                },
            }
        &&& after.total_weight == before.total_weight
        &&& after.cpu_id == before.cpu_id
        &&& after.last_balance == before.last_balance
        &&& after.owned == before.owned
        &&& after.wake_inbox == before.wake_inbox
    }

    /// Selects the next task and stamps the start of its run.
    pub fn take_next(&mut self, tasks: &mut TaskTable, now: Instant) -> (taken: Option<TaskId>)
        requires
            old(tasks).wf(),
            old(self).wf(old(tasks)@),
            old(self).current is None,
        ensures
            final(tasks).wf(),
            final(self).wf(final(tasks)@),
            Self::take_next_effect(
                *old(self),
                old(tasks)@,
                *final(self),
                final(tasks)@,
                now,
                taken,
            ),
            old(self).weight_exact(old(tasks)@) ==> final(self).weight_exact(final(tasks)@),
            old(self).eligible_reached(old(tasks)@) ==> final(self).eligible_reached(final(tasks)@),
    {
        match self.pick_next(tasks) {
            None => {
                proof {
                    assert forall|id: TaskId| #[trigger] self.owns(id) implies tasks@[id].state.terminal
                        is None by {
                        assert(old(self).owns(id));
                    }
                }
                None
            },
            Some(id) => {
                let ghost picked = *self;
                assert(old(self).task_wf(tasks@, id));
                let mut task = read_task(tasks, id);
                task.sched.exec_start = Some(now);
                task.sched.exec_runtime = Duration { nanos: 0 };
                let _ = tasks.insert(id, task);
                self.current = Some(id);
                proof {
                    assert forall|other: TaskId| #[trigger] self.owns(other) implies self.task_wf(
                        tasks@,
                        other,
                    ) by {
                        if other != id {
                            assert(picked.owns(other));
                            assert(picked.task_wf(old(tasks)@, other));
                        }
                    }
                    assert forall|other: TaskId| #[trigger] self.owns(other) implies
                        tasks@[other].state.terminal is None by {
                        assert(old(self).owns(other));
                    }
                    assert forall|other: TaskId| other != id implies (#[trigger] self.in_eligible(
                        tasks@,
                        other,
                    ) <==> old(self).reachable(old(tasks)@, other, self.vtime)) by {
                        assert(picked.in_eligible(old(tasks)@, other) <==> old(self).reachable(
                            old(tasks)@,
                            other,
                            self.vtime,
                        ));
                    }
                    assert forall|other: TaskId| other != id implies (#[trigger] self.in_ineligible(
                        tasks@,
                        other,
                    ) <==> old(self).in_ineligible(old(tasks)@, other) && old(tasks)@[other].sched.veligible > self.vtime) by {
                        assert(picked.in_ineligible(old(tasks)@, other) <==> old(self).in_ineligible(old(tasks)@, other) && old(tasks)@[other].sched.veligible
                            > self.vtime);
                    }
                    assert forall|i: int| 0 <= i < self.wake_inbox@.len() implies
                        tasks@.dom().contains(#[trigger] self.wake_inbox@[i])
                        && tasks@[self.wake_inbox@[i]].wake_queued by {
                        assert(old(self).wake_inbox@[i] == self.wake_inbox@[i]);
                    }
                    self.owned.lemma_order();
                    lemma_weight_frame(self.owned@.dom(), old(tasks)@, tasks@);
                }
                Some(id)
            },
        }
    }
}

/// Run that is due to be charged to the running task.
pub open spec fn due_runtime(task: Task, now: Option<Instant>) -> Option<Duration> {
    match (now, task.sched.exec_start) {
        (Some(at), Some(start)) => if at.nanos > start.nanos {
            Some(Duration { nanos: (at.nanos - start.nanos) as u128 })
        } else {
            None
        },
        _ => None,
    }
}

/// Virtual time after a run of `runtime` on a CPU with the given weight.
pub open spec fn charged_vtime(
    vtime: VirtualTime,
    total_weight: u64,
    runtime: Duration,
) -> VirtualTime {
    cap_u128(vtime + virtual_span(runtime, effective_weight(total_weight)))
}

/// Metadata of the running task after it has been charged for `runtime`, with
/// its window at the new virtual time.
pub open spec fn charged_meta(
    vtime: VirtualTime,
    meta: TaskSchedMeta,
    runtime: Duration,
    now: Instant,
) -> TaskSchedMeta {
    refreshed(
        vtime,
        TaskSchedMeta {
            vruntime: cap_u128(meta.vruntime + virtual_span(runtime, effective_weight(meta.weight))),
            exec_runtime: (Duration { nanos: cap_u128(meta.exec_runtime.nanos + runtime.nanos) }),
            exec_start: Some(now),
            ..meta
        },
    )
}

/// Virtual time after whatever is due has been charged.
pub open spec fn settled_vtime(
    vtime: VirtualTime,
    total_weight: u64,
    task: Task,
    now: Option<Instant>,
) -> VirtualTime {
    match due_runtime(task, now) {
        Some(runtime) => charged_vtime(vtime, total_weight, runtime),
        None => vtime,
    }
}

/// The running task after whatever is due has been charged.
pub open spec fn settled_task(
    vtime: VirtualTime,
    total_weight: u64,
    task: Task,
    now: Option<Instant>,
) -> Task {
    match due_runtime(task, now) {
        Some(runtime) => Task {
            sched: charged_meta(
                charged_vtime(vtime, total_weight, runtime),
                task.sched,
                runtime,
                now->Some_0,
            ),
            ..task
        },
        None => task,
    }
}

/// The task with the place and time of its stop recorded.
pub open spec fn stop_recorded(task: Task, cpu_id: usize, now: Option<Instant>) -> Task {
    match now {
        Some(at) => Task {
            placement: (super::task::TaskPlacement {
                last_cpu: cpu_id,
                last_stop_nanos: super::task::nanos_u64(at.nanos),
                ..task.placement
            }),
            ..task
        },
        None => task,
    }
}

impl Scheduler {
    /// Puts the running task back into a queue.
    fn requeue_current_with(&mut self, tasks: &mut TaskTable, ready: TaskReadyState) -> (requeued:
        Option<TaskId>)
        requires
            old(tasks).wf(),
            old(self).wf(old(tasks)@),
        ensures
            final(tasks).wf(),
            final(self).wf(final(tasks)@),
            requeued == old(self).current,
            match old(self).current {
                None => *final(self) == *old(self) && *final(tasks) == *old(tasks),
                Some(id) => {
                    let task = old(tasks)@[id];
                    &&& final(tasks)@ == old(tasks)@.insert(
                        id,
                        queued_task(
                            old(self).cpu_id,
                            old(self).vtime,
                            Task { sched: stopped(task.sched), ..task },
                            ready,
                        ),
                    )
                    &&& final(self).current is None
                    &&& final(self).in_eligible(final(tasks)@, id) <==> final(tasks)@[id].sched.veligible <= old(self).vtime
                    &&& final(self).in_ineligible(final(tasks)@, id) <==> final(tasks)@[id].sched.veligible > old(self).vtime
                    &&& forall|e: (u128, u64)|
                        e.1 != id ==> (#[trigger] final(self).eligible@.contains(e) <==> old(self).eligible@.contains(e))
                    &&& forall|e: (u128, u64)|
                        e.1 != id ==> (#[trigger] final(self).ineligible@.contains(e) <==> old(self).ineligible@.contains(e))
                },
            },
            final(self).total_weight == old(self).total_weight,
            old(self).weight_exact(old(tasks)@) ==> final(self).weight_exact(final(tasks)@),
            old(self).eligible_reached(old(tasks)@) ==> final(self).eligible_reached(final(tasks)@),
            final(self).cpu_id == old(self).cpu_id,
            final(self).vtime == old(self).vtime,
            final(self).last_balance == old(self).last_balance,
            final(self).owned == old(self).owned,
            final(self).wake_inbox == old(self).wake_inbox,
    {
        match self.current {
            None => None,
            Some(id) => {
                assert(self.owns(id) && self.task_wf(tasks@, id));
                let mut task = read_task(tasks, id);
                task.sched.exec_start = None;
                task.sched.exec_runtime = Duration { nanos: 0 };
                let _ = tasks.insert(id, task);
                self.current = None;
                proof {
                    assert forall|other: TaskId| #[trigger] self.owns(other) && other != id implies
                        self.task_wf(tasks@, other) by {
                        assert(old(self).owns(other));
                        assert(old(self).task_wf(old(tasks)@, other));
                    }
                    assert(forall|e: (u128, u64)| #[trigger]
                        self.eligible@.contains(e) ==> old(self).eligible@.contains(e));
                    assert(forall|e: (u128, u64)| #[trigger]
                        self.ineligible@.contains(e) ==> old(self).ineligible@.contains(e));
                }
                self.insert_runnable(tasks, id, ready);
                proof {
                    self.owned.lemma_order();
                    lemma_weight_frame(self.owned@.dom(), old(tasks)@, tasks@);
                    assert(tasks@ =~= old(tasks)@.insert(id, tasks@[id]));
                    assert forall|i: int| 0 <= i < self.wake_inbox@.len() implies
                        tasks@.dom().contains(#[trigger] self.wake_inbox@[i])
                        && tasks@[self.wake_inbox@[i]].wake_queued by {
                        assert(old(self).wake_inbox@[i] == self.wake_inbox@[i]);
                    }
                    assert forall|other: TaskId| #[trigger] self.owns(other) implies
                        tasks@[other].state.terminal is None by {
                        assert(old(self).owns(other));
                    }
                }
                Some(id)
            },
        }
    }

    /// Takes the running task off the CPU into the blocked state with the given
    /// terminal result.
    fn stop_current(&mut self, tasks: &mut TaskTable, terminal: Option<TaskExit>) -> (stopped_task:
        Option<TaskId>)
        requires
            old(tasks).wf(),
            old(self).wf(old(tasks)@),
        ensures
            final(tasks).wf(),
            final(self).queues_wf(final(tasks)@),
            final(self).inbox_wf(final(tasks)@),
            forall|id: TaskId| #[trigger]
                final(self).owns(id) && old(self).current != Some(id) ==> final(tasks)@[id].state.terminal is None,
            terminal is None ==> final(self).wf(final(tasks)@),
            stopped_task == old(self).current,
            match old(self).current {
                None => *final(self) == *old(self) && *final(tasks) == *old(tasks),
                Some(id) => {
                    let task = old(tasks)@[id];
                    &&& final(tasks)@ == old(tasks)@.insert(
                        id,
                        Task {
                            sched: stopped(task.sched),
                            state: (TaskState { sched: TaskSchedState::Blocked, terminal }),
                            ..task
                        },
                    )
                    &&& final(self).current is None
                    &&& final(self).vtime == departed_vtime(
                        old(self).vtime,
                        old(self).total_weight,
                        task.sched,
                    )
                    &&& final(self).total_weight == departed_weight(
                        old(self).total_weight,
                        task.sched,
                    )
                    &&& old(self).eligible_reached(old(tasks)@) && task.sched.veligible <= old(self).vtime ==> final(self).eligible_reached(final(tasks)@)
                },
            },
            old(self).weight_exact(old(tasks)@) ==> final(self).weight_exact(final(tasks)@),
            final(self).eligible == old(self).eligible,
            final(self).ineligible == old(self).ineligible,
            final(self).cpu_id == old(self).cpu_id,
            final(self).last_balance == old(self).last_balance,
            final(self).owned == old(self).owned,
            final(self).wake_inbox == old(self).wake_inbox,
    {
        match self.current {
            None => None,
            Some(id) => {
                assert(self.owns(id) && self.task_wf(tasks@, id));
                let mut task = read_task(tasks, id);
                task.sched.exec_start = None;
                task.sched.exec_runtime = Duration { nanos: 0 };
                self.adjust_vtime_for_departure(task.sched);
                self.sub_runnable_weight(task.sched);
                task.state = TaskState { sched: TaskSchedState::Blocked, terminal };
                let _ = tasks.insert(id, task);
                self.current = None;
                proof {
                    assert forall|other: TaskId| #[trigger] self.owns(other) implies self.task_wf(
                        tasks@,
                        other,
                    ) by {
                        assert(old(self).owns(other));
                        assert(old(self).task_wf(old(tasks)@, other));
                    }
                    assert(forall|e: (u128, u64)| #[trigger]
                        self.eligible@.contains(e) ==> old(self).eligible@.contains(e));
                    assert(forall|e: (u128, u64)| #[trigger]
                        self.ineligible@.contains(e) ==> old(self).ineligible@.contains(e));
                    assert forall|i: int| 0 <= i < self.wake_inbox@.len() implies
                        tasks@.dom().contains(#[trigger] self.wake_inbox@[i])
                        && tasks@[self.wake_inbox@[i]].wake_queued by {
                        assert(old(self).wake_inbox@[i] == self.wake_inbox@[i]);
                    }
                    assert forall|other: TaskId| #[trigger] self.owns(other) && other != id implies
                        tasks@[other].state.terminal is None by {
                        assert(old(self).owns(other));
                    }
                    self.owned.lemma_order();
                    lemma_weight_update(self.owned@.dom(), old(tasks)@, id, task);
                    let remaining = floor_zero(
                        old(self).total_weight - effective_weight(task.sched.weight),
                    );
                    if remaining > 0 && old(self).vtime >= task.sched.veligible {
                        let work = cap_u128(
                            (old(self).vtime - task.sched.veligible) * effective_weight(
                                task.sched.weight,
                            ),
                        ) as int;
                        assert(work / remaining >= 0) by (nonlinear_arith)
                            requires
                                work >= 0,
                                remaining > 0,
                        ;
                    }
                }
                Some(id)
            },
        }
    }

    /// Charges a run to the running task and advances virtual time.
    fn account_current_runtime(&mut self, tasks: &mut TaskTable, runtime: Duration, now: Instant)
        requires
            old(tasks).wf(),
            old(self).wf(old(tasks)@),
            old(self).current is Some,
        ensures
            final(tasks).wf(),
            final(self).wf(final(tasks)@),
            ({
                let id = old(self).current->Some_0;
                let task = old(tasks)@[id];
                let vtime = charged_vtime(old(self).vtime, old(self).total_weight, runtime);
                &&& final(self).vtime == vtime
                &&& final(tasks)@ == old(tasks)@.insert(
                    id,
                    Task { sched: charged_meta(vtime, task.sched, runtime, now), ..task },
                )
            }),
            old(self).weight_exact(old(tasks)@) ==> final(self).weight_exact(final(tasks)@),
            old(self).eligible_reached(old(tasks)@) ==> final(self).eligible_reached(final(tasks)@),
            *final(self) == (Scheduler { vtime: final(self).vtime, ..*old(self) }),
    {
        let id: TaskId = self.current.unwrap();
        assert(self.owns(id) && self.task_wf(tasks@, id));
        let mut task = read_task(tasks, id);
        let weight: u64 = if task.sched.weight == 0 {
            1
        } else {
            task.sched.weight
        };
        let total: u64 = if self.total_weight == 0 {
            1
        } else {
            self.total_weight
        };
        let params = EevdfParams { weight, slice: task.sched.slice };
        let task_delta: u128 = params.runtime_to_virtual(runtime);
        let sched_delta: u128 = EevdfParams::scheduler_runtime_to_virtual(runtime, total);
        task.sched.vruntime = task.sched.vruntime.saturating_add(task_delta);
        task.sched.exec_runtime = task.sched.exec_runtime.saturating_add(runtime);
        task.sched.exec_start = Some(now);
        self.vtime = self.vtime.saturating_add(sched_delta);
        task.sched = self.refresh_deadlines(task.sched);
        let _ = tasks.insert(id, task);
        proof {
            assert forall|other: TaskId| #[trigger] self.owns(other) implies self.task_wf(
                tasks@,
                other,
            ) by {
                assert(old(self).owns(other));
                assert(old(self).task_wf(old(tasks)@, other));
            }
            assert forall|other: TaskId| #[trigger] self.owns(other) implies
                tasks@[other].state.terminal is None by {
                assert(old(self).owns(other));
            }
            self.owned.lemma_order();
            lemma_weight_frame(self.owned@.dom(), old(tasks)@, tasks@);
        }
    }

    /// Charges whatever the running task has run since its last charge.
    fn account_trap_runtime(&mut self, tasks: &mut TaskTable, now: Option<Instant>) -> (charged:
        bool)
        requires
            old(tasks).wf(),
            old(self).wf(old(tasks)@),
            old(self).current is Some,
        ensures
            final(tasks).wf(),
            final(self).wf(final(tasks)@),
            ({
                let id = old(self).current->Some_0;
                let task = old(tasks)@[id];
                &&& charged <==> due_runtime(task, now) is Some
                &&& final(self).vtime == settled_vtime(
                    old(self).vtime,
                    old(self).total_weight,
                    task,
                    now,
                )
                &&& final(tasks)@ == old(tasks)@.insert(
                    id,
                    settled_task(old(self).vtime, old(self).total_weight, task, now),
                )
            }),
            old(self).weight_exact(old(tasks)@) ==> final(self).weight_exact(final(tasks)@),
            old(self).eligible_reached(old(tasks)@) ==> final(self).eligible_reached(final(tasks)@),
            *final(self) == (Scheduler { vtime: final(self).vtime, ..*old(self) }),
    {
        let id: TaskId = self.current.unwrap();
        assert(self.owns(id) && self.task_wf(tasks@, id));
        let task = read_task(tasks, id);
        assert(tasks@.insert(id, task) =~= tasks@);
        match (now, task.sched.exec_start) {
            (Some(at), Some(start)) => {
                if at.nanos > start.nanos {
                    self.account_current_runtime(tasks, at.duration_since(start), at);
                    return true;
                }
                false
            },
            _ => false,
        }
    }

    /// Whether the running task should give way: to a task that can run and has
    /// an earlier deadline, or to any that can run once its slice is used up.
    pub open spec fn should_yield(&self, tasks: Map<u64, Task>) -> bool {
        match self.current {
            None => false,
            Some(id) => {
                let current = tasks[id].sched;
                ||| exists|other: TaskId| #[trigger]
                    self.reachable(tasks, other, self.vtime) && tasks[other].sched.vdeadline
                        < current.vdeadline
                ||| current.exec_runtime.nanos >= current.slice.nanos && exists|other: TaskId|
                    #[trigger] self.reachable(tasks, other, self.vtime)
            },
        }
    }

    fn should_preempt_current(&mut self, tasks: &TaskTable) -> (preempt: bool)
        requires
            tasks.wf(),
            old(self).wf(tasks@),
        ensures
            preempt == old(self).should_yield(tasks@),
            final(self).wf(tasks@),
            old(self).current is None ==> *final(self) == *old(self),
            old(self).current is Some ==> {
                &&& forall|id: TaskId| #[trigger]
                    final(self).in_eligible(tasks@, id) <==> old(self).reachable(
                        tasks@,
                        id,
                        old(self).vtime,
                    )
                &&& forall|id: TaskId| #[trigger]
                    final(self).in_ineligible(tasks@, id) <==> old(self).in_ineligible(tasks@, id)
                        && tasks@[id].sched.veligible > old(self).vtime
            },
            old(self).eligible_reached(tasks@) ==> final(self).eligible_reached(tasks@),
            final(self).cpu_id == old(self).cpu_id,
            final(self).current == old(self).current,
            final(self).vtime == old(self).vtime,
            final(self).total_weight == old(self).total_weight,
            final(self).last_balance == old(self).last_balance,
            final(self).owned == old(self).owned,
            final(self).wake_inbox == old(self).wake_inbox,
    {
        match self.current {
            None => false,
            Some(id) => {
                assert(self.owns(id) && self.task_wf(tasks@, id));
                let current = read_task(tasks, id).sched;
                self.promote_eligible(tasks);
                proof {
                    assert forall|other: TaskId| #[trigger] self.in_eligible(tasks@, other)
                        <==> old(self).reachable(tasks@, other, old(self).vtime) by {
                        if self.in_eligible(tasks@, other) {
                            assert(self.eligible@.contains((tasks@[other].sched.vdeadline, other)));
                        }
                    }
                    assert forall|other: TaskId| #[trigger] self.owns(other) implies
                        tasks@[other].state.terminal is None by {
                        assert(old(self).owns(other));
                    }
                    assert(self.inbox_wf(tasks@));
                }
                match self.eligible.front() {
                    None => {
                        proof {
                            assert forall|other: TaskId| !old(self).reachable(
                                tasks@,
                                other,
                                old(self).vtime,
                            ) by {
                                assert(!self.in_eligible(tasks@, other));
                            }
                        }
                        false
                    },
                    Some(contender) => {
                        proof {
                            assert(self.in_eligible(tasks@, contender.1));
                            assert(old(self).reachable(tasks@, contender.1, old(self).vtime));
                            assert forall|other: TaskId| #[trigger]
                                old(self).reachable(tasks@, other, old(self).vtime) implies contender.0
                                <= tasks@[other].sched.vdeadline by {
                                assert(self.in_eligible(tasks@, other));
                            }
                        }
                        contender.0 < current.vdeadline || current.exec_runtime.nanos
                            >= current.slice.nanos
                    },
                }
            },
        }
    }
}

/// What a trap boundary of the running task left behind.
#[derive(Debug, Clone, Copy, PartialEq, Eq, Structural)]
pub struct TrapBoundaryFinalize {
    /// The task, if it has ended.
    pub reaped: Option<Task>,
    /// The task, if it may be migrated once its stack is no longer in use.
    pub migration_ready: Option<TaskId>,
}

impl Scheduler {
    /// The running task, if the trap happened on its kernel stack.
    pub open spec fn trapped_task(&self, tasks: Map<u64, Task>, rsp: usize) -> Option<TaskId> {
        match self.current {
            Some(id) => if tasks[id].kernel_stack.covers(rsp as int) {
                Some(id)
            } else {
                None
            },
            None => None,
        }
    }

    fn current_task_from_trap(&self, tasks: &TaskTable, rsp: usize) -> (task_id: Option<TaskId>)
        requires
            tasks.wf(),
            self.wf(tasks@),
        ensures
            task_id == self.trapped_task(tasks@, rsp),
    {
        match self.current {
            None => None,
            Some(id) => {
                assert(self.owns(id) && self.task_wf(tasks@, id));
                if read_task(tasks, id).kernel_stack_contains(rsp) {
                    Some(id)
                } else {
                    None
                }
            },
        }
    }

    /// The running task after its last charge and with its stop recorded.
    pub open spec fn parting_task(&self, task: Task, now: Option<Instant>) -> Task {
        stop_recorded(
            settled_task(self.vtime, self.total_weight, task, now),
            self.cpu_id,
            now,
        )
    }

    /// Virtual time after the last charge of the running task.
    pub open spec fn parting_vtime(&self, task: Task, now: Option<Instant>) -> VirtualTime {
        settled_vtime(self.vtime, self.total_weight, task, now)
    }

    /// Charges the running task and records where and when it stopped.
    fn part_current(&mut self, tasks: &mut TaskTable, now: Option<Instant>)
        requires
            old(tasks).wf(),
            old(self).wf(old(tasks)@),
            old(self).current is Some,
        ensures
            final(tasks).wf(),
            final(self).wf(final(tasks)@),
            ({
                let id = old(self).current->Some_0;
                let task = old(tasks)@[id];
                &&& final(self).vtime == old(self).parting_vtime(task, now)
                &&& final(tasks)@ == old(tasks)@.insert(id, old(self).parting_task(task, now))
            }),
            old(self).weight_exact(old(tasks)@) ==> final(self).weight_exact(final(tasks)@),
            old(self).eligible_reached(old(tasks)@) ==> final(self).eligible_reached(final(tasks)@),
            *final(self) == (Scheduler { vtime: final(self).vtime, ..*old(self) }),
    {
        let id: TaskId = self.current.unwrap();
        let _ = self.account_trap_runtime(tasks, now);
        assert(self.owns(id) && self.task_wf(tasks@, id));
        let ghost charged = tasks@;
        match now {
            Some(at) => {
                let mut task = read_task(tasks, id);
                task.placement.record_stop(self.cpu_id, at);
                let _ = tasks.insert(id, task);
                proof {
                    assert forall|other: TaskId| #[trigger] self.owns(other) implies self.task_wf(
                        tasks@,
                        other,
                    ) by {
                        assert(self.task_wf(charged, other));
                    }
                    assert forall|other: TaskId| #[trigger] self.owns(other) implies
                        tasks@[other].state.terminal is None by {
                        assert(charged[other].state.terminal is None);
                    }
                    self.owned.lemma_order();
                    lemma_weight_frame(self.owned@.dom(), charged, tasks@);
                    assert(self.inbox_wf(tasks@));
                }
            },
            None => {},
        }
        assert(tasks@ =~= old(tasks)@.insert(id, old(self).parting_task(old(tasks)@[id], now)));
    }

    /// What a boundary action does to the CPU and to the task table.
    pub open spec fn boundary_effect(
        before: Scheduler,
        tasks_before: Map<u64, Task>,
        after: Scheduler,
        tasks_after: Map<u64, Task>,
        action: TaskBoundaryAction,
        now: Option<Instant>,
        result: TrapBoundaryFinalize,
    ) -> bool {
        let id = before.current->Some_0;
        let task = tasks_before[id];
        let parted = before.parting_task(task, now);
        let vtime = before.parting_vtime(task, now);
        &&& after.current is None
        &&& after.cpu_id == before.cpu_id
        &&& after.last_balance == before.last_balance
        &&& match action {
            TaskBoundaryAction::Outcome(TaskPollOutcome::Ready) => {
                &&& result == (TrapBoundaryFinalize {
                    reaped: None,
                    migration_ready: Some(id),
                })
                &&& tasks_after == tasks_before.insert(
                    id,
                    queued_task(
                        before.cpu_id,
                        vtime,
                        Task { sched: stopped(parted.sched), ..parted },
                        parted.execution.ready_state,
                    ),
                )
                &&& after.in_eligible(tasks_after, id) <==> tasks_after[id].sched.veligible <= vtime
                &&& after.in_ineligible(tasks_after, id) <==> tasks_after[id].sched.veligible
                    > vtime
                &&& after.vtime == vtime
                &&& after.total_weight == before.total_weight
                &&& after.owned == before.owned
            },
            TaskBoundaryAction::Outcome(TaskPollOutcome::Blocked) => {
                &&& result == (TrapBoundaryFinalize { reaped: None, migration_ready: None })
                &&& tasks_after == tasks_before.insert(
                    id,
                    Task {
                        sched: stopped(parted.sched),
                        state: (TaskState {
                            sched: TaskSchedState::Blocked,
                            terminal: None,
                        }),
                        ..parted
                    },
                )
                &&& after.vtime == departed_vtime(
                    vtime,
                    before.total_weight,
                    parted.sched,
                )
                &&& after.total_weight == departed_weight(
                    before.total_weight,
                    parted.sched,
                )
                &&& after.owned == before.owned
            },
            _ => {
                let exit = match action {
                    TaskBoundaryAction::Outcome(TaskPollOutcome::Exited(exit)) => exit,
                    _ => TaskExit::Cancelled,
                };
                &&& result == (TrapBoundaryFinalize {
                    reaped: Some(
                        Task {
                            sched: stopped(parted.sched),
                            state: (TaskState {
                                sched: TaskSchedState::Blocked,
                                terminal: Some(exit),
                            }),
                            wake_queued: false,
                            ..parted
                        },
                    ),
                    migration_ready: None,
                })
                &&& tasks_after == tasks_before.remove(id)
                &&& after.vtime == departed_vtime(
                    vtime,
                    before.total_weight,
                    parted.sched,
                )
                &&& after.total_weight == departed_weight(
                    before.total_weight,
                    parted.sched,
                )
                &&& after.owned@ == before.owned@.remove(id)
            },
        }
        &&& forall|e: (u128, u64)|
            e.1 != id ==> (#[trigger] after.eligible@.contains(e) <==> before.eligible@.contains(e))
        &&& forall|e: (u128, u64)|
            e.1 != id ==> (#[trigger] after.ineligible@.contains(e) <==> before.ineligible@.contains(e))
        &&& after.wake_inbox@ == (if result.reaped is Some {
            without(before.wake_inbox@, id)
        } else {
            before.wake_inbox@
        })
    }

    /// Carries out the boundary action that the running task has published.
    pub fn finalize_current_boundary(
        &mut self,
        tasks: &mut TaskTable,
        rsp: usize,
        action: TaskBoundaryAction,
        now: Option<Instant>,
    ) -> (finalized: Option<TrapBoundaryFinalize>)
        requires
            old(tasks).wf(),
            old(self).wf(old(tasks)@),
        ensures
            final(tasks).wf(),
            final(self).wf(final(tasks)@),
            finalized is Some <==> old(self).trapped_task(old(tasks)@, rsp) is Some,
            finalized is None ==> *final(self) == *old(self) && *final(tasks) == *old(tasks),
            finalized matches Some(result) ==> Self::boundary_effect(
                *old(self),
                old(tasks)@,
                *final(self),
                final(tasks)@,
                action,
                now,
                result,
            ),
            old(self).weight_exact(old(tasks)@) ==> final(self).weight_exact(final(tasks)@),
            final(self).cpu_id == old(self).cpu_id,
            final(self).last_balance == old(self).last_balance,
    {
        match self.current_task_from_trap(tasks, rsp) {
            None => {
                return None;
            },
            Some(_) => {},
        }
        let id: TaskId = self.current.unwrap();
        assert(self.owns(id) && self.task_wf(tasks@, id));
        self.part_current(tasks, now);
        assert(self.owns(id) && self.task_wf(tasks@, id));
        match action {
            TaskBoundaryAction::Outcome(TaskPollOutcome::Ready) => {
                let reason = read_task(tasks, id).execution.ready_state;
                let _ = self.requeue_current_with(tasks, reason);
                assert(tasks@ =~= old(tasks)@.insert(id, tasks@[id]));
                Some(TrapBoundaryFinalize { reaped: None, migration_ready: Some(id) })
            },
            TaskBoundaryAction::Outcome(TaskPollOutcome::Blocked) => {
                let _ = self.stop_current(tasks, None);
                assert(tasks@ =~= old(tasks)@.insert(id, tasks@[id]));
                Some(TrapBoundaryFinalize { reaped: None, migration_ready: None })
            },
            TaskBoundaryAction::Outcome(TaskPollOutcome::Exited(exit)) => {
                let _ = self.stop_current(tasks, Some(exit));
                let reaped = self.remove_task(tasks, id);
                assert(tasks@ =~= old(tasks)@.remove(id));
                Some(TrapBoundaryFinalize { reaped, migration_ready: None })
            },
            TaskBoundaryAction::Cancelled => {
                let _ = self.stop_current(tasks, Some(TaskExit::Cancelled));
                let reaped = self.remove_task(tasks, id);
                assert(tasks@ =~= old(tasks)@.remove(id));
                Some(TrapBoundaryFinalize { reaped, migration_ready: None })
            },
        }
    }

    /// What the preemption of task `id` does to the CPU and to the task table.
    pub open spec fn preempt_effect(
        before: Scheduler,
        tasks_before: Map<u64, Task>,
        after: Scheduler,
        tasks_after: Map<u64, Task>,
        id: TaskId,
        now: Option<Instant>,
    ) -> bool {
        let task = tasks_before[id];
        let parted = before.parting_task(task, now);
        let vtime = before.parting_vtime(task, now);
        &&& after.current is None
        &&& after.cpu_id == before.cpu_id
        &&& after.last_balance == before.last_balance
        &&& after.total_weight == before.total_weight
        &&& after.owned == before.owned
        &&& after.wake_inbox == before.wake_inbox
        &&& tasks_after == tasks_before.insert(
            id,
            queued_task(
                before.cpu_id,
                vtime,
                Task { sched: stopped(parted.sched), ..parted },
                TaskReadyState::Preempt,
            ),
        )
        &&& after.in_eligible(tasks_after, id) <==> tasks_after[id].sched.veligible <= vtime
        &&& after.in_ineligible(tasks_after, id) <==> tasks_after[id].sched.veligible > vtime
        &&& after.vtime == vtime
        &&& forall|e: (u128, u64)|
            e.1 != id ==> (#[trigger] after.eligible@.contains(e) <==> before.eligible@.contains(e))
        &&& forall|e: (u128, u64)|
            e.1 != id ==> (#[trigger] after.ineligible@.contains(e) <==> before.ineligible@.contains(e))
    }

    /// Requeues the running task as preempted.
    pub fn save_preempted_current(
        &mut self,
        tasks: &mut TaskTable,
        rsp: usize,
        now: Option<Instant>,
    ) -> (saved: Option<TaskId>)
        requires
            old(tasks).wf(),
            old(self).wf(old(tasks)@),
        ensures
            final(tasks).wf(),
            final(self).wf(final(tasks)@),
            saved == old(self).trapped_task(old(tasks)@, rsp),
            saved is None ==> *final(self) == *old(self) && *final(tasks) == *old(tasks),
            saved matches Some(id) ==> Self::preempt_effect(
                *old(self),
                old(tasks)@,
                *final(self),
                final(tasks)@,
                id,
                now,
            ),
            final(self).total_weight == old(self).total_weight,
            old(self).weight_exact(old(tasks)@) ==> final(self).weight_exact(final(tasks)@),
            old(self).eligible_reached(old(tasks)@) ==> final(self).eligible_reached(final(tasks)@),
            final(self).cpu_id == old(self).cpu_id,
            final(self).last_balance == old(self).last_balance,
            final(self).owned == old(self).owned,
            final(self).wake_inbox == old(self).wake_inbox,
    {
        match self.current_task_from_trap(tasks, rsp) {
            None => None,
            Some(id) => {
                assert(self.owns(id) && self.task_wf(tasks@, id));
                self.part_current(tasks, now);
                let requeued = self.requeue_current_with(tasks, TaskReadyState::Preempt);
                assert(tasks@ =~= old(tasks)@.insert(id, tasks@[id]));
                requeued
            },
        }
    }
}

/// The tasks of `ids` that a wakeup makes ready, and their weight.
pub open spec fn wake_weight(scheduler: Scheduler, tasks: Map<u64, Task>, ids: Seq<u64>) -> nat
    decreases ids.len(),
{
    if ids.len() == 0 {
        0
    } else {
        wake_weight(scheduler, tasks, ids.drop_last()) + (if scheduler.wakes(tasks, ids.last()) {
            tasks[ids.last()].weight() as nat
        } else {
            0
        })
    }
}

/// Number of tasks of `ids` that a wakeup makes ready.
pub open spec fn wake_count(scheduler: Scheduler, tasks: Map<u64, Task>, ids: Seq<u64>) -> nat
    decreases ids.len(),
{
    if ids.len() == 0 {
        0
    } else {
        wake_count(scheduler, tasks, ids.drop_last()) + (if scheduler.wakes(tasks, ids.last()) {
            1nat
        } else {
            0
        })
    }
}

impl Scheduler {
    /// Whether a wakeup makes the task ready.
    pub open spec fn wakes(&self, tasks: Map<u64, Task>, id: TaskId) -> bool {
        self.owns(id) && !tasks[id].ready()
    }

    /// Whether the task can be run once the queued wakeups have been handled.
    pub open spec fn startable(&self, tasks: Map<u64, Task>, id: TaskId) -> bool {
        self.queued(tasks, id) || (self.wake_inbox@.contains(id) && self.wakes(tasks, id))
    }

    /// The task after its wakeup has been taken out of the inbox.
    pub open spec fn woken_task(&self, tasks: Map<u64, Task>, id: TaskId) -> Task {
        let task = tasks[id];
        if self.wakes(tasks, id) {
            queued_task(
                self.cpu_id,
                self.vtime,
                Task {
                    wake_queued: false,
                    placement: (super::task::TaskPlacement {
                        migration_ready: task.placement.migration_ready || task.placement.started,
                        ..task.placement
                    }),
                    ..task
                },
                task.execution.ready_state,
            )
        } else {
            Task { wake_queued: false, ..task }
        }
    }

    /// The task table after the wakeups of `ids` have been handled.
    pub open spec fn after_wakeups(&self, tasks: Map<u64, Task>, ids: Seq<u64>) -> Map<u64, Task> {
        Map::new(
            |id: u64| tasks.dom().contains(id),
            |id: u64|
                if ids.contains(id) {
                    self.woken_task(tasks, id)
                } else {
                    tasks[id]
                },
        )
    }

    /// Applies one wakeup: a blocked task of this CPU becomes ready.
    fn activate_wakeup_task(&mut self, tasks: &mut TaskTable, task_id: TaskId) -> (activated: bool)
        requires
            old(tasks).wf(),
            old(self).queues_wf(old(tasks)@),
            old(self).alive(old(tasks)@),
            old(tasks)@.dom().contains(task_id),
            !old(tasks)@[task_id].wake_queued,
        ensures
            final(tasks).wf(),
            final(self).queues_wf(final(tasks)@),
            final(self).alive(final(tasks)@),
            activated == old(self).wakes(old(tasks)@, task_id),
            final(tasks)@ == old(tasks)@.insert(task_id, old(self).woken_task(old(tasks)@, task_id)),
            final(self).total_weight == (if activated {
                cap_u64(old(self).total_weight + old(tasks)@[task_id].weight())
            } else {
                old(self).total_weight
            }),
            activated ==> {
                &&& final(self).in_eligible(final(tasks)@, task_id) <==> final(tasks)@[task_id].sched.veligible <= old(self).vtime
                &&& final(self).in_ineligible(final(tasks)@, task_id) <==> final(tasks)@[task_id].sched.veligible > old(self).vtime
            },
            !activated ==> final(self).eligible == old(self).eligible && final(self).ineligible
                == old(self).ineligible,
            forall|e: (u128, u64)|
                e.1 != task_id ==> (#[trigger] final(self).eligible@.contains(e) <==> old(self).eligible@.contains(e)),
            forall|e: (u128, u64)|
                e.1 != task_id ==> (#[trigger] final(self).ineligible@.contains(e) <==> old(self).ineligible@.contains(e)),
            final(self).cpu_id == old(self).cpu_id,
            final(self).current == old(self).current,
            final(self).vtime == old(self).vtime,
            final(self).last_balance == old(self).last_balance,
            final(self).owned == old(self).owned,
            final(self).wake_inbox == old(self).wake_inbox,
    {
        let mut task = read_task(tasks, task_id);
        if !self.owned.contains(task_id) || task.state.sched.is_ready() {
            assert(tasks@ =~= old(tasks)@.insert(task_id, task));
            assert(task == (Task { wake_queued: false, ..task }));
            return false;
        }
        assert(self.owns(task_id) && self.task_wf(tasks@, task_id));
        let reason = task.execution.take_ready();
        if task.placement.started {
            task.placement.set_migration_ready(true);
        }
        let _ = tasks.insert(task_id, task);
        proof {
            assert forall|id: TaskId| #[trigger] self.owns(id) && id != task_id implies self.task_wf(
                tasks@,
                id,
            ) by {
                assert(old(self).owns(id));
                assert(old(self).task_wf(old(tasks)@, id));
            }
        }
        self.insert_runnable(tasks, task_id, reason);
        proof {
            assert(tasks@ =~= old(tasks)@.insert(task_id, tasks@[task_id]));
            assert forall|id: TaskId| #[trigger] self.owns(id) implies tasks@[id].state.terminal
                is None by {
                assert(old(self).owns(id));
            }
        }
        true
    }

    /// What handling the queued wakeups does: every listed task that is blocked
    /// here enters a queue, and all marks are gone.
    pub open spec fn drain_effect(
        before: Scheduler,
        tasks_before: Map<u64, Task>,
        after: Scheduler,
        tasks_after: Map<u64, Task>,
    ) -> bool {
        let inbox = before.wake_inbox@;
        &&& after.wake_inbox@ == Seq::<u64>::empty()
        &&& tasks_after == before.after_wakeups(tasks_before, inbox)
        &&& after.total_weight == cap_u64(
            before.total_weight + wake_weight(before, tasks_before, inbox),
        )
        &&& forall|id: TaskId|
            #![trigger after.in_eligible(tasks_after, id)]
            #![trigger before.in_eligible(tasks_before, id)]
            after.in_eligible(tasks_after, id) <==> (before.in_eligible(tasks_before, id) || (
            inbox.contains(id) && before.wakes(tasks_before, id)
                && tasks_after[id].sched.veligible <= before.vtime))
        &&& forall|id: TaskId|
            #![trigger after.in_ineligible(tasks_after, id)]
            #![trigger before.in_ineligible(tasks_before, id)]
            after.in_ineligible(tasks_after, id) <==> (before.in_ineligible(tasks_before, id) || (
            inbox.contains(id) && before.wakes(tasks_before, id)
                && tasks_after[id].sched.veligible > before.vtime))
        &&& after.cpu_id == before.cpu_id
        &&& after.current == before.current
        &&& after.vtime == before.vtime
        &&& after.last_balance == before.last_balance
        &&& after.owned == before.owned
    }

    /// Handles every queued wakeup in order and tells how many tasks became
    /// ready.
    pub fn drain_wakeups(&mut self, tasks: &mut TaskTable) -> (drained: usize)
        requires
            old(tasks).wf(),
            old(self).wf(old(tasks)@),
        ensures
            final(tasks).wf(),
            final(self).wf(final(tasks)@),
            drained == wake_count(*old(self), old(tasks)@, old(self).wake_inbox@),
            Self::drain_effect(*old(self), old(tasks)@, *final(self), final(tasks)@),
            Self::keeps_weight(*old(self), old(tasks)@, *final(self), final(tasks)@),
            old(self).eligible_reached(old(tasks)@) ==> final(self).eligible_reached(final(tasks)@),
    {
        let ghost inbox = self.wake_inbox@;
        let pending: usize = self.wake_inbox.len();
        let mut drained: usize = 0;
        let ghost mut n: int = 0;
        proof {
            assert(inbox.take(0) =~= Seq::<u64>::empty());
            assert(inbox.skip(0) =~= inbox);
            assert(tasks@ =~= old(self).after_wakeups(old(tasks)@, inbox.take(0)));
        }
        while self.wake_inbox.len() > 0
            invariant
                0 <= n <= inbox.len(),
                inbox == old(self).wake_inbox@,
                inbox.len() == pending,
                old(tasks).wf(),
                old(self).wf(old(tasks)@),
                self.wake_inbox@ == inbox.skip(n),
                tasks.wf(),
                self.queues_wf(tasks@),
                self.alive(tasks@),
                tasks@ == old(self).after_wakeups(old(tasks)@, inbox.take(n)),
                drained == wake_count(*old(self), old(tasks)@, inbox.take(n)),
                drained <= n,
                self.total_weight == cap_u64(
                    old(self).total_weight + wake_weight(*old(self), old(tasks)@, inbox.take(n)),
                ),
                ready_weight(self.owned@.dom(), tasks@) == ready_weight(
                    self.owned@.dom(),
                    old(tasks)@,
                ) + wake_weight(*old(self), old(tasks)@, inbox.take(n)),
                forall|id: TaskId|
                    #![trigger self.in_eligible(tasks@, id)]
                    #![trigger old(self).in_eligible(old(tasks)@, id)]
                    self.in_eligible(tasks@, id) <==> (old(self).in_eligible(old(tasks)@, id) || (
                    inbox.take(n).contains(id) && old(self).wakes(old(tasks)@, id)
                        && tasks@[id].sched.veligible <= old(self).vtime)),
                forall|id: TaskId|
                    #![trigger self.in_ineligible(tasks@, id)]
                    #![trigger old(self).in_ineligible(old(tasks)@, id)]
                    self.in_ineligible(tasks@, id) <==> (old(self).in_ineligible(old(tasks)@, id)
                        || (inbox.take(n).contains(id) && old(self).wakes(old(tasks)@, id)
                        && tasks@[id].sched.veligible > old(self).vtime)),
                self.cpu_id == old(self).cpu_id,
                self.current == old(self).current,
                self.vtime == old(self).vtime,
                self.last_balance == old(self).last_balance,
                self.owned == old(self).owned,
            decreases self.wake_inbox@.len(),
        {
            let ghost before = *self;
            let ghost before_tasks = tasks@;
            let id: TaskId = self.wake_inbox.remove(0);
            proof {
                assert(id == inbox[n]);
                assert(old(self).wake_inbox@[n] == id);
                assert(!inbox.take(n).contains(id));
                assert(inbox.take(n + 1) =~= inbox.take(n).push(id));
                assert(inbox.take(n + 1).drop_last() =~= inbox.take(n));
                assert(inbox.skip(n).remove(0) =~= inbox.skip(n + 1));
                assert(tasks@[id] == old(tasks)@[id]);
            }
            let mut task = read_task(tasks, id);
            let _ = task.clear_wake_queued();
            let _ = tasks.insert(id, task);
            proof {
                assert forall|other: TaskId| #[trigger] self.owns(other) implies self.task_wf(
                    tasks@,
                    other,
                ) by {
                    assert(before.owns(other));
                    assert(before.task_wf(before_tasks, other));
                }
                assert forall|other: TaskId| #[trigger] self.owns(other) implies
                    tasks@[other].state.terminal is None by {
                    assert(before.owns(other));
                }
            }
            let activated = self.activate_wakeup_task(tasks, id);
            if activated {
                drained = drained + 1;
            }
            proof {
                assert(activated == old(self).wakes(old(tasks)@, id));
                self.owned.lemma_order();
                if self.owned@.dom().contains(id) {
                    lemma_weight_update(self.owned@.dom(), before_tasks, id, tasks@[id]);
                } else {
                    lemma_weight_frame(self.owned@.dom(), before_tasks, tasks@);
                }
                assert(tasks@ =~= before_tasks.insert(id, tasks@[id]));
                assert(tasks@ =~= old(self).after_wakeups(old(tasks)@, inbox.take(n + 1))) by {
                    assert(inbox.take(n + 1).contains(id)) by {
                        assert(inbox.take(n + 1)[n] == id);
                    }
                    assert forall|other: u64| other != id implies (inbox.take(n + 1).contains(other)
                        <==> inbox.take(n).contains(other)) by {
                        if inbox.take(n).contains(other) {
                            let j = choose|j: int|
                                0 <= j < inbox.take(n).len() && inbox.take(n)[j] == other;
                            assert(inbox.take(n + 1)[j] == other);
                        }
                    }
                }
                assert forall|other: TaskId| #[trigger] self.in_eligible(tasks@, other) <==> (old(self).in_eligible(old(tasks)@, other) || (inbox.take(n + 1).contains(other) && old(self).wakes(old(tasks)@, other) && tasks@[other].sched.veligible <= old(self).vtime)) by {
                    if other != id {
                        assert(before.in_eligible(before_tasks, other) <==> self.in_eligible(
                            tasks@,
                            other,
                        ));
                        if inbox.take(n).contains(other) {
                            let j = choose|j: int|
                                0 <= j < inbox.take(n).len() && inbox.take(n)[j] == other;
                            assert(inbox.take(n + 1)[j] == other);
                        }
                    } else {
                        assert(inbox.take(n + 1)[n] == id);
                        assert(before.in_eligible(before_tasks, id) <==> old(self).in_eligible(
                            old(tasks)@,
                            id,
                        ));
                    }
                }
                assert forall|other: TaskId| #[trigger] self.in_ineligible(tasks@, other) <==> (old(self).in_ineligible(old(tasks)@, other) || (inbox.take(n + 1).contains(other) && old(self).wakes(old(tasks)@, other) && tasks@[other].sched.veligible > old(self).vtime)) by {
                    if other != id {
                        assert(before.in_ineligible(before_tasks, other) <==> self.in_ineligible(
                            tasks@,
                            other,
                        ));
                        if inbox.take(n).contains(other) {
                            let j = choose|j: int|
                                0 <= j < inbox.take(n).len() && inbox.take(n)[j] == other;
                            assert(inbox.take(n + 1)[j] == other);
                        }
                    } else {
                        assert(inbox.take(n + 1)[n] == id);
                        assert(before.in_ineligible(before_tasks, id) <==> old(self).in_ineligible(
                            old(tasks)@,
                            id,
                        ));
                    }
                }
                n = n + 1;
            }
        }
        proof {
            assert(n == inbox.len());
            assert(inbox.take(n) =~= inbox);
            assert(self.wake_inbox@ =~= Seq::<u64>::empty());
            if old(self).eligible_reached(old(tasks)@) {
                assert forall|e: (u128, u64)| #[trigger] self.eligible@.contains(e) implies
                    tasks@[e.1].sched.veligible <= self.vtime by {
                    assert(self.in_eligible(tasks@, e.1));
                    if old(self).in_eligible(old(tasks)@, e.1) {
                        assert(old(self).owns(e.1));
                        assert(old(self).eligible@.contains(
                            (old(tasks)@[e.1].sched.vdeadline, e.1),
                        ));
                    }
                }
            }
        }
        drained
    }
}

impl Scheduler {
    /// What a timer tick does to the CPU and to the task table.
    pub open spec fn tick_effect(
        before: Scheduler,
        tasks_before: Map<u64, Task>,
        after: Scheduler,
        tasks_after: Map<u64, Task>,
        now: Instant,
        reschedule: bool,
    ) -> bool {
        let inbox = before.wake_inbox@;
        let woken = before.after_wakeups(tasks_before, inbox);
        let weight = cap_u64(
            before.total_weight + wake_weight(before, tasks_before, inbox),
        );
        let drained = wake_count(before, tasks_before, inbox);
        &&& after.total_weight == weight
        &&& after.wake_inbox@ == Seq::<u64>::empty()
        &&& after.cpu_id == before.cpu_id
        &&& after.current == before.current
        &&& after.last_balance == before.last_balance
        &&& after.owned == before.owned
        &&& match before.current {
            None => {
                &&& after.vtime == before.vtime
                &&& tasks_after == woken
                &&& reschedule <==> drained > 0
            },
            Some(id) => {
                &&& after.vtime == settled_vtime(
                    before.vtime,
                    weight,
                    woken[id],
                    Some(now),
                )
                &&& tasks_after == woken.insert(
                    id,
                    settled_task(before.vtime, weight, woken[id], Some(now)),
                )
                &&& reschedule <==> (due_runtime(woken[id], Some(now)) is Some || drained
                    > 0) && after.should_yield(tasks_after)
            },
        }
        &&& forall|id: TaskId| #[trigger]
            after.in_eligible(tasks_after, id) <==> before.drained_eligible(tasks_before, id) || (
            before.drained_ineligible(tasks_before, id) && before.settles(tasks_before, now)
                && woken[id].sched.veligible <= after.vtime)
        &&& forall|id: TaskId| #[trigger]
            after.in_ineligible(tasks_after, id) <==> before.drained_ineligible(tasks_before, id)
                && !(before.settles(tasks_before, now) && woken[id].sched.veligible <= after.vtime)
    }

    /// Whether the task is in the eligible queue once the wakeups are handled.
    pub open spec fn drained_eligible(&self, tasks: Map<u64, Task>, id: TaskId) -> bool {
        self.in_eligible(tasks, id) || (self.wake_inbox@.contains(id) && self.wakes(tasks, id)
            && self.after_wakeups(tasks, self.wake_inbox@)[id].sched.veligible <= self.vtime)
    }

    /// Whether the task is in the other queue once the wakeups are handled.
    pub open spec fn drained_ineligible(&self, tasks: Map<u64, Task>, id: TaskId) -> bool {
        self.in_ineligible(tasks, id) || (self.wake_inbox@.contains(id) && self.wakes(tasks, id)
            && self.after_wakeups(tasks, self.wake_inbox@)[id].sched.veligible > self.vtime)
    }

    /// Whether a tick looks for tasks that have become eligible: where it charges
    /// the running task, or something woke beside it.
    pub open spec fn settles(&self, tasks: Map<u64, Task>, now: Instant) -> bool {
        let woken = self.after_wakeups(tasks, self.wake_inbox@);
        self.current matches Some(id) && (due_runtime(woken[id], Some(now)) is Some || wake_count(
            *self,
            tasks,
            self.wake_inbox@,
        ) > 0)
    }

    /// Charges the running task for a timer tick, handles wakeups, and tells
    /// whether the CPU should reschedule.
    pub fn on_tick(&mut self, tasks: &mut TaskTable, now: Instant) -> (reschedule: bool)
        requires
            old(tasks).wf(),
            old(self).wf(old(tasks)@),
        ensures
            final(tasks).wf(),
            final(self).wf(final(tasks)@),
            Self::tick_effect(
                *old(self),
                old(tasks)@,
                *final(self),
                final(tasks)@,
                now,
                reschedule,
            ),
            Self::keeps_weight(*old(self), old(tasks)@, *final(self), final(tasks)@),
            old(self).eligible_reached(old(tasks)@) ==> final(self).eligible_reached(final(tasks)@),
    {
        let drained: usize = self.drain_wakeups(tasks);
        let ghost woken = *self;
        let ghost woken_tasks = tasks@;
        if self.current.is_none() {
            return drained > 0;
        }
        let charged = self.account_trap_runtime(tasks, Some(now));
        let ghost charged_state = *self;
        let ghost id = self.current->Some_0;
        proof {
            assert(woken.owns(id));
            assert forall|other: TaskId| #[trigger] self.queued(tasks@, other) <==> woken.queued(
                woken_tasks,
                other,
            ) by {
                assert(woken.task_wf(woken_tasks, id));
                if other == id {
                    assert(!self.in_eligible(tasks@, id));
                    assert(!self.in_ineligible(tasks@, id));
                    assert(!woken.in_eligible(woken_tasks, id));
                    assert(!woken.in_ineligible(woken_tasks, id));
                }
            }
            self.owned.lemma_order();
            lemma_weight_frame(self.owned@.dom(), woken_tasks, tasks@);
        }
        if charged || drained > 0 {
            let preempt = self.should_preempt_current(tasks);
            proof {
                assert forall|other: TaskId| #[trigger] self.reachable(tasks@, other, self.vtime)
                    <==> charged_state.reachable(tasks@, other, self.vtime) by {
                    assert(self.in_eligible(tasks@, other) <==> charged_state.reachable(
                        tasks@,
                        other,
                        self.vtime,
                    ));
                    assert(self.in_ineligible(tasks@, other) <==> charged_state.in_ineligible(
                        tasks@,
                        other,
                    ) && tasks@[other].sched.veligible > self.vtime);
                }
                assert(self.should_yield(tasks@) == charged_state.should_yield(tasks@)) by {
                    let current = tasks@[id].sched;
                    if charged_state.should_yield(tasks@) {
                        let other = choose|other: TaskId| #[trigger]
                            charged_state.reachable(tasks@, other, self.vtime) && (
                            tasks@[other].sched.vdeadline < current.vdeadline
                                || current.exec_runtime.nanos >= current.slice.nanos);
                        assert(self.reachable(tasks@, other, self.vtime));
                    }
                    if self.should_yield(tasks@) {
                        let other = choose|other: TaskId| #[trigger]
                            self.reachable(tasks@, other, self.vtime) && (
                            tasks@[other].sched.vdeadline < current.vdeadline
                                || current.exec_runtime.nanos >= current.slice.nanos);
                        assert(charged_state.reachable(tasks@, other, self.vtime));
                    }
                }
            }
            return preempt;
        }
        false
    }

    pub open spec fn in_queue(&self, tasks: Map<u64, Task>, id: TaskId, eligible: bool) -> bool {
        if eligible {
            self.in_eligible(tasks, id)
        } else {
            self.in_ineligible(tasks, id)
        }
    }

    pub open spec fn queue_key(&self, tasks: Map<u64, Task>, id: TaskId, eligible: bool) -> (
        u128,
        u64,
    ) {
        if eligible {
            (tasks[id].sched.vdeadline, id)
        } else {
            (tasks[id].sched.veligible, id)
        }
    }

    /// Whether the task is in the given queue and may move.
    pub open spec fn candidate(
        &self,
        tasks: Map<u64, Task>,
        id: TaskId,
        eligible: bool,
        now: Instant,
        threshold: Duration,
        ignore_cache_hot: bool,
    ) -> bool {
        self.in_queue(tasks, id, eligible) && migratable(
            tasks[id],
            self.cpu_id,
            now,
            threshold,
            ignore_cache_hot,
        )
    }

    /// Whether the task is the first of its queue that may move.
    pub open spec fn first_candidate(
        &self,
        tasks: Map<u64, Task>,
        id: TaskId,
        eligible: bool,
        now: Instant,
        threshold: Duration,
        ignore_cache_hot: bool,
    ) -> bool {
        &&& self.candidate(tasks, id, eligible, now, threshold, ignore_cache_hot)
        &&& forall|other: TaskId| #[trigger]
            self.candidate(tasks, other, eligible, now, threshold, ignore_cache_hot) && other != id
                ==> entry_before(
                self.queue_key(tasks, id, eligible),
                self.queue_key(tasks, other, eligible),
            )
    }

    /// Whether the given queue holds a task that may move.
    pub open spec fn has_candidate(
        &self,
        tasks: Map<u64, Task>,
        eligible: bool,
        now: Instant,
        threshold: Duration,
        ignore_cache_hot: bool,
    ) -> bool {
        exists|id: TaskId| #[trigger]
            self.candidate(tasks, id, eligible, now, threshold, ignore_cache_hot)
    }

    /// The choice of a task to give away: cooled tasks of the eligible queue
    /// come first, then cooled tasks of the ineligible queue, and only where
    /// the policy asks for it the same again without regard to caches.
    pub open spec fn migration_choice(
        &self,
        tasks: Map<u64, Task>,
        id: TaskId,
        now: Instant,
        threshold: Duration,
        policy: MigrationPolicy,
    ) -> bool {
        if self.has_candidate(tasks, true, now, threshold, false) {
            self.first_candidate(tasks, id, true, now, threshold, false)
        } else if self.has_candidate(tasks, false, now, threshold, false) {
            self.first_candidate(tasks, id, false, now, threshold, false)
        } else {
            policy is BalanceRequest && if self.has_candidate(tasks, true, now, threshold, true) {
                self.first_candidate(tasks, id, true, now, threshold, true)
            } else {
                self.first_candidate(tasks, id, false, now, threshold, true)
            }
        }
    }

    /// Position of the first task of a queue that may move.
    fn find_migratable(
        &self,
        tasks: &TaskTable,
        eligible: bool,
        now: Instant,
        threshold: Duration,
        ignore_cache_hot: bool,
    ) -> (found: Option<usize>)
        requires
            tasks.wf(),
            self.wf(tasks@),
        ensures
            found is Some <==> self.has_candidate(tasks@, eligible, now, threshold, ignore_cache_hot),
            found matches Some(position) ==> {
                let order = if eligible {
                    self.eligible.order()
                } else {
                    self.ineligible.order()
                };
                &&& position < order.len()
                &&& order[position as int] == self.queue_key(
                    tasks@,
                    order[position as int].1,
                    eligible,
                )
                &&& self.first_candidate(
                    tasks@,
                    order[position as int].1,
                    eligible,
                    now,
                    threshold,
                    ignore_cache_hot,
                )
            },
    {
        let ghost order = if eligible {
            self.eligible.order()
        } else {
            self.ineligible.order()
        };
        proof {
            self.eligible.lemma_order();
            self.ineligible.lemma_order();
        }
        let count: usize = if eligible {
            self.eligible.len()
        } else {
            self.ineligible.len()
        };
        let mut position: usize = 0;
        while position < count
            invariant
                position <= count,
                count == order.len(),
                order == (if eligible {
                    self.eligible.order()
                } else {
                    self.ineligible.order()
                }),
                tasks.wf(),
                self.wf(tasks@),
                ascending(order),
                forall|i: int|
                    0 <= i < order.len() ==> self.in_queue(tasks@, (#[trigger] order[i]).1, eligible)
                        && order[i] == self.queue_key(tasks@, order[i].1, eligible),
                forall|i: int|
                    0 <= i < position ==> !migratable(
                        tasks@[(#[trigger] order[i]).1],
                        self.cpu_id,
                        now,
                        threshold,
                        ignore_cache_hot,
                    ),
                forall|id: TaskId| #[trigger]
                    self.in_queue(tasks@, id, eligible) ==> order.contains(
                        self.queue_key(tasks@, id, eligible),
                    ),
            decreases count - position,
        {
            let entry = if eligible {
                self.eligible.entry_at(position)
            } else {
                self.ineligible.entry_at(position)
            };
            assert(self.owns(entry.1) && self.task_wf(tasks@, entry.1));
            let task = read_task(tasks, entry.1);
            if task.placement.migration_ready && task.placement.migration_allowed && (
            ignore_cache_hot || !task.placement.is_cache_hot_on(self.cpu_id, now, threshold)) {
                proof {
                    let id = entry.1;
                    assert(order[position as int] == entry);
                    assert(self.candidate(tasks@, id, eligible, now, threshold, ignore_cache_hot));
                    assert forall|other: TaskId| #[trigger]
                        self.candidate(tasks@, other, eligible, now, threshold, ignore_cache_hot)
                            && other != id implies entry_before(
                        self.queue_key(tasks@, id, eligible),
                        self.queue_key(tasks@, other, eligible),
                    ) by {
                        let key = self.queue_key(tasks@, other, eligible);
                        assert(self.in_queue(tasks@, other, eligible));
                        let i = choose|i: int| 0 <= i < order.len() && order[i] == key;
                        assert(order[i].1 == other);
                        if i < position {
                            assert(!migratable(
                                tasks@[order[i].1],
                                self.cpu_id,
                                now,
                                threshold,
                                ignore_cache_hot,
                            ));
                        } else {
                            assert(i != position);
                            assert(entry_before(order[position as int], order[i]));
                        }
                    }
                }
                return Some(position);
            }
            position = position + 1;
        }
        proof {
            if self.has_candidate(tasks@, eligible, now, threshold, ignore_cache_hot) {
                let id = choose|id: TaskId| #[trigger]
                    self.candidate(tasks@, id, eligible, now, threshold, ignore_cache_hot);
                assert(self.in_queue(tasks@, id, eligible));
                let key = self.queue_key(tasks@, id, eligible);
                let i = choose|i: int| 0 <= i < order.len() && order[i] == key;
                assert(order[i].1 == id);
            }
        }
        None
    }

    /// What giving task `id` away does to the CPU and to the task table.
    pub open spec fn migration_effect(
        before: Scheduler,
        tasks_before: Map<u64, Task>,
        after: Scheduler,
        tasks_after: Map<u64, Task>,
        id: TaskId,
        now: Instant,
        cache_hot_threshold: Duration,
        policy: MigrationPolicy,
    ) -> bool {
        let task = tasks_before[id];
        &&& before.owns(id)
        &&& before.current != Some(id)
        &&& before.migration_choice(
            tasks_before,
            id,
            now,
            cache_hot_threshold,
            policy,
        )
        &&& tasks_after == tasks_before.insert(
            id,
            Task { sched: stopped(task.sched), ..task },
        )
        &&& after.owned@ == before.owned@.remove(id)
        &&& after.cpu_id == before.cpu_id
        &&& after.current == before.current
        &&& after.wake_inbox == before.wake_inbox
        &&& after.vtime == departed_vtime(
            before.vtime,
            before.total_weight,
            task.sched,
        )
        &&& after.total_weight == departed_weight(
            before.total_weight,
            task.sched,
        )
        &&& forall|e: (u128, u64)| #[trigger]
            after.eligible@.contains(e) <==> before.eligible@.contains(e)
                && e.1 != id
        &&& forall|e: (u128, u64)| #[trigger]
            after.ineligible@.contains(e) <==> before.ineligible@.contains(e)
                && e.1 != id
        }

    /// Takes a ready task off this CPU so that another can admit it.
    pub fn take_migratable(
        &mut self,
        tasks: &mut TaskTable,
        now: Instant,
        cache_hot_threshold: Duration,
        policy: MigrationPolicy,
    ) -> (taken: Option<TaskId>)
        requires
            old(tasks).wf(),
            old(self).wf(old(tasks)@),
        ensures
            final(tasks).wf(),
            final(self).wf(final(tasks)@),
            taken is Some <==> exists|id: TaskId| #[trigger]
                old(self).migration_choice(old(tasks)@, id, now, cache_hot_threshold, policy),
            match taken {
                None => *final(self) == *old(self) && *final(tasks) == *old(tasks),
                Some(id) => Self::migration_effect(
                    *old(self),
                    old(tasks)@,
                    *final(self),
                    final(tasks)@,
                    id,
                    now,
                    cache_hot_threshold,
                    policy,
                ),
            },
            old(self).weight_exact(old(tasks)@) ==> final(self).weight_exact(final(tasks)@),
            final(self).cpu_id == old(self).cpu_id,
            final(self).current == old(self).current,
            final(self).last_balance == old(self).last_balance,
            final(self).wake_inbox == old(self).wake_inbox,
    {
        let relax = matches!(policy, MigrationPolicy::BalanceRequest);
        let mut eligible = true;
        let mut ignore = false;
        let mut found = self.find_migratable(tasks, true, now, cache_hot_threshold, false);
        if found.is_none() {
            eligible = false;
            found = self.find_migratable(tasks, false, now, cache_hot_threshold, false);
        }
        if found.is_none() && relax {
            eligible = true;
            ignore = true;
            found = self.find_migratable(tasks, true, now, cache_hot_threshold, true);
            if found.is_none() {
                eligible = false;
                found = self.find_migratable(tasks, false, now, cache_hot_threshold, true);
            }
        }
        let position: usize = match found {
            None => {
                return None;
            },
            Some(position) => position,
        };
        let ghost order = if eligible {
            self.eligible.order()
        } else {
            self.ineligible.order()
        };
        let ghost picked = order[position as int].1;
        proof {
            assert(self.first_candidate(
                tasks@,
                picked,
                eligible,
                now,
                cache_hot_threshold,
                ignore,
            ));
            assert(self.migration_choice(tasks@, picked, now, cache_hot_threshold, policy));
            assert(self.in_queue(tasks@, picked, eligible));
            assert(self.owns(picked) && self.task_wf(tasks@, picked));
        }
        let entry = if eligible {
            self.eligible.remove_at(position)
        } else {
            self.ineligible.remove_at(position)
        };
        let id: TaskId = entry.1;
        let mut task = read_task(tasks, id);
        let _ = self.owned.remove(id);
        self.adjust_vtime_for_departure(task.sched);
        self.sub_runnable_weight(task.sched);
        task.sched.exec_start = None;
        task.sched.exec_runtime = Duration { nanos: 0 };
        let _ = tasks.insert(id, task);
        proof {
            assert forall|other: TaskId| #[trigger] self.owns(other) implies self.task_wf(
                tasks@,
                other,
            ) by {
                assert(old(self).owns(other));
                assert(old(self).task_wf(old(tasks)@, other));
            }
            assert forall|other: TaskId| #[trigger] self.owns(other) implies
                tasks@[other].state.terminal is None by {
                assert(old(self).owns(other));
            }
            assert forall|e: (u128, u64)| #[trigger] self.eligible@.contains(e) <==> old(self).eligible@.contains(e) && e.1 != id by {
                if old(self).eligible@.contains(e) && e.1 == id {
                    assert(old(self).in_eligible(old(tasks)@, id));
                }
            }
            assert forall|e: (u128, u64)| #[trigger] self.ineligible@.contains(e) <==> old(self).ineligible@.contains(e) && e.1 != id by {
                if old(self).ineligible@.contains(e) && e.1 == id {
                    assert(old(self).in_ineligible(old(tasks)@, id));
                }
            }
            assert forall|i: int| 0 <= i < self.wake_inbox@.len() implies tasks@.dom().contains(
                #[trigger] self.wake_inbox@[i],
            ) && tasks@[self.wake_inbox@[i]].wake_queued by {
                assert(old(self).wake_inbox@[i] == self.wake_inbox@[i]);
            }
            old(self).owned.lemma_order();
            self.owned.lemma_order();
            assert(self.owned@.dom() =~= old(self).owned@.dom().remove(id));
            lemma_weight_split(old(self).owned@.dom(), old(tasks)@, id);
            lemma_weight_frame(self.owned@.dom(), old(tasks)@, tasks@);
        }
        Some(id)
    }

    /// Number of ready tasks of this CPU.
    pub fn runnable_task_count(&self, tasks: &TaskTable) -> (count: usize)
        requires
            tasks.wf(),
            self.wf(tasks@),
        ensures
            count == ready_count(self.owned@.dom(), tasks@),
    {
        let mut count: usize = 0;
        let mut i: usize = 0;
        let ghost ids = self.owned.order();
        let ghost mut seen: Set<u64> = Set::empty();
        proof {
            self.owned.lemma_order();
        }
        while i < self.owned.len()
            invariant
                i <= ids.len(),
                ids == self.owned.order(),
                ids.no_duplicates(),
                self.owned.wf(),
                tasks.wf(),
                self.wf(tasks@),
                seen.finite(),
                count == seen.len(),
                count <= i,
                forall|id: u64| #[trigger]
                    seen.contains(id) <==> ids.take(i as int).contains(id) && tasks@[id].ready(),
            decreases ids.len() - i,
        {
            let id: u64 = self.owned.key_at(i);
            assert(self.owns(id));
            assert(self.task_wf(tasks@, id));
            proof {
                assert(ids.take(i + 1) =~= ids.take(i as int).push(id));
                assert(!ids.take(i as int).contains(id));
                assert forall|other: u64|
                    ids.take(i + 1).contains(other) <==> ids.take(i as int).contains(other) || other
                        == id by {
                    if ids.take(i as int).contains(other) {
                        let j = choose|j: int|
                            0 <= j < ids.take(i as int).len() && ids.take(i as int)[j] == other;
                        assert(ids.take(i + 1)[j] == other);
                    }
                    if other == id {
                        assert(ids.take(i + 1)[i as int] == id);
                    }
                }
                if tasks@[id].ready() {
                    seen = seen.insert(id);
                }
            }
            if read_task(tasks, id).state.sched.is_ready() {
                count = count + 1;
            }
            i = i + 1;
        }
        proof {
            self.owned.lemma_order();
            assert(ids.take(i as int) =~= ids);
            assert(seen =~= self.owned@.dom().filter(|id: u64| tasks@[id].ready()));
        }
        count
    }
}

/// The task stored under `task_id`.
pub fn read_task(tasks: &TaskTable, task_id: TaskId) -> (task: Task)
    requires
        tasks.wf(),
        tasks@.dom().contains(task_id),
    ensures
        task == tasks@[task_id],
{
    *tasks.get(task_id).unwrap()
}

} // verus!

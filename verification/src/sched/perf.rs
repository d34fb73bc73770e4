//! Diagnostics of one CPU scheduler: a snapshot of its state and an audit of
//! its bookkeeping.

use super::cpus::SchedulerSet;
use super::eevdf::VirtualTime;
use super::runqueue::RunQueue;
use super::scheduler::{Scheduler, TaskTable, cap_u64, read_task};
use super::task::{Task, TaskId};
use super::weights::{lemma_weight_insert, ready_weight};
use vstd::prelude::*;

verus! {

/// Snapshot of one CPU scheduler.
#[derive(Debug, Clone, Copy, PartialEq, Eq, Structural)]
pub struct SchedulerCpuDebugSnapshot {
    pub cpu_id: usize,
    pub current: Option<TaskId>,
    pub vtime: VirtualTime,
    pub total_weight: u64,
    pub task_count: usize,
    pub runnable_count: usize,
    pub blocked_count: usize,
    pub terminal_count: usize,
    pub eligible_count: usize,
    pub ineligible_count: usize,
    pub promotable_ineligible_count: usize,
    pub wake_inbox_len: usize,
    pub min_vruntime: Option<VirtualTime>,
    pub max_vruntime: Option<VirtualTime>,
    pub min_vdeadline: Option<VirtualTime>,
    pub max_vdeadline: Option<VirtualTime>,
    pub min_vruntime_delta: i128,
    pub max_vruntime_delta: i128,
}

impl SchedulerCpuDebugSnapshot {
    /// Whether the snapshot shows this scheduler.
    pub open spec fn describes(&self, scheduler: Scheduler, tasks: Map<u64, Task>) -> bool {
        let ids = scheduler.owned.order();
        &&& self.cpu_id == scheduler.cpu_id
        &&& self.current == scheduler.current
        &&& self.vtime == scheduler.vtime
        &&& self.total_weight == scheduler.total_weight
        &&& self.task_count == ids.len()
        &&& self.runnable_count == count_tasks(ids, tasks, |task: Task| task.ready())
        &&& self.blocked_count == self.task_count - self.runnable_count
        &&& self.terminal_count == count_tasks(
            ids,
            tasks,
            |task: Task| task.state.terminal is Some,
        )
        &&& self.eligible_count == scheduler.eligible@.len()
        &&& self.ineligible_count == scheduler.ineligible@.len()
        &&& self.promotable_ineligible_count == count_due(
            scheduler.ineligible.order(),
            scheduler.vtime,
        )
        &&& self.wake_inbox_len == scheduler.wake_inbox@.len()
        &&& is_least(vruntimes(ids, tasks), as_int(self.min_vruntime))
        &&& is_greatest(vruntimes(ids, tasks), as_int(self.max_vruntime))
        &&& is_least(vdeadlines(ids, tasks), as_int(self.min_vdeadline))
        &&& is_greatest(vdeadlines(ids, tasks), as_int(self.max_vdeadline))
        &&& self.task_count == 0 ==> self.min_vruntime_delta == 0 && self.max_vruntime_delta == 0
        &&& self.task_count > 0 ==> is_least(
            deltas(ids, tasks, scheduler.vtime),
            Some(self.min_vruntime_delta as int),
        ) && is_greatest(
            deltas(ids, tasks, scheduler.vtime),
            Some(self.max_vruntime_delta as int),
        )
    }
}

/// Signed distance `lhs - rhs`, held within what an `i128` can negate.
pub open spec fn virtual_delta(lhs: VirtualTime, rhs: VirtualTime) -> int {
    let distance = lhs - rhs;
    if distance > i128::MAX {
        i128::MAX as int
    } else if distance < -i128::MAX {
        -i128::MAX
    } else {
        distance
    }
}

/// Whether `bound` is the least (or greatest) of the values, and `None` where
/// there are none.
pub open spec fn is_least(values: Seq<int>, bound: Option<int>) -> bool {
    match bound {
        None => values.len() == 0,
        Some(b) => values.contains(b) && forall|i: int| 0 <= i < values.len() ==> b <= #[trigger] values[i],
    }
}

pub open spec fn is_greatest(values: Seq<int>, bound: Option<int>) -> bool {
    match bound {
        None => values.len() == 0,
        Some(b) => values.contains(b) && forall|i: int| 0 <= i < values.len() ==> #[trigger] values[i] <= b,
    }
}

/// Number of entries of `ids` whose task satisfies the predicate.
pub open spec fn count_tasks(
    ids: Seq<u64>,
    tasks: Map<u64, Task>,
    pred: spec_fn(Task) -> bool,
) -> nat
    decreases ids.len(),
{
    if ids.len() == 0 {
        0
    } else {
        count_tasks(ids.drop_last(), tasks, pred) + (if pred(tasks[ids.last()]) {
            1nat
        } else {
            0
        })
    }
}

/// The vruntimes of the tasks, in walking order.
pub open spec fn vruntimes(ids: Seq<u64>, tasks: Map<u64, Task>) -> Seq<int> {
    ids.map_values(|id: u64| tasks[id].sched.vruntime as int)
}

pub open spec fn vdeadlines(ids: Seq<u64>, tasks: Map<u64, Task>) -> Seq<int> {
    ids.map_values(|id: u64| tasks[id].sched.vdeadline as int)
}

pub open spec fn deltas(ids: Seq<u64>, tasks: Map<u64, Task>, vtime: VirtualTime) -> Seq<int> {
    ids.map_values(|id: u64| virtual_delta(vtime, tasks[id].sched.vruntime))
}

pub open spec fn as_int(value: Option<u128>) -> Option<int> {
    match value {
        Some(v) => Some(v as int),
        None => None,
    }
}

/// Number of entries of `entries` whose timestamp is not after `vtime`.
pub open spec fn count_due(entries: Seq<(u128, u64)>, vtime: VirtualTime) -> nat
    decreases entries.len(),
{
    if entries.len() == 0 {
        0
    } else {
        count_due(entries.drop_last(), vtime) + (if entries.last().0 <= vtime {
            1nat
        } else {
            0
        })
    }
}

fn saturating_virtual_delta(lhs: VirtualTime, rhs: VirtualTime) -> (delta: i128)
    ensures
        delta == virtual_delta(lhs, rhs),
{
    let limit: u128 = i128::MAX as u128;
    if lhs >= rhs {
        let distance: u128 = lhs - rhs;
        if distance > limit {
            i128::MAX
        } else {
            distance as i128
        }
    } else {
        let distance: u128 = rhs - lhs;
        if distance > limit {
            -i128::MAX
        } else {
            -(distance as i128)
        }
    }
}

fn lower(bound: Option<u128>, value: u128) -> (next: Option<u128>)
    ensures
        next == (match bound {
            Some(b) => if value < b {
                Some(value)
            } else {
                Some(b)
            },
            None => Some(value),
        }),
{
    match bound {
        Some(b) => if value < b {
            Some(value)
        } else {
            Some(b)
        },
        None => Some(value),
    }
}

fn upper(bound: Option<u128>, value: u128) -> (next: Option<u128>)
    ensures
        next == (match bound {
            Some(b) => if value > b {
                Some(value)
            } else {
                Some(b)
            },
            None => Some(value),
        }),
{
    match bound {
        Some(b) => if value > b {
            Some(value)
        } else {
            Some(b)
        },
        None => Some(value),
    }
}

/// Extending a sequence by one value moves its bounds as expected.
proof fn lemma_bounds_push(values: Seq<int>, least: Option<int>, greatest: Option<int>, value: int)
    requires
        is_least(values, least),
        is_greatest(values, greatest),
    ensures
        is_least(
            values.push(value),
            match least {
                Some(b) => Some(if value < b {
                    value
                } else {
                    b
                }),
                None => Some(value),
            },
        ),
        is_greatest(
            values.push(value),
            match greatest {
                Some(b) => Some(if value > b {
                    value
                } else {
                    b
                }),
                None => Some(value),
            },
        ),
{
    let after = values.push(value);
    assert(after[values.len() as int] == value);
    if values.len() > 0 {
        let l = choose|i: int| 0 <= i < values.len() && values[i] == least->Some_0;
        let g = choose|i: int| 0 <= i < values.len() && values[i] == greatest->Some_0;
        assert(after[l] == values[l]);
        assert(after[g] == values[g]);
    }
    assert forall|i: int| 0 <= i < values.len() implies after[i] == #[trigger] values[i] by {}
}

impl Scheduler {
    /// Builds a diagnostic snapshot of the scheduler. Tasks that have ended are
    /// counted, too.
    pub fn debug_snapshot(&self, tasks: &TaskTable) -> (snapshot: SchedulerCpuDebugSnapshot)
        requires
            tasks.wf(),
            self.queues_wf(tasks@),
        ensures
            snapshot.describes(*self, tasks@),
    {
        let count: usize = self.owned.len();
        let ghost ids = self.owned.order();
        let ghost ready = |task: Task| task.ready();
        let ghost ended = |task: Task| task.state.terminal is Some;
        let mut runnable: usize = 0;
        let mut terminal: usize = 0;
        let mut min_vruntime: Option<u128> = None;
        let mut max_vruntime: Option<u128> = None;
        let mut min_vdeadline: Option<u128> = None;
        let mut max_vdeadline: Option<u128> = None;
        let mut min_delta: Option<i128> = None;
        let mut max_delta: Option<i128> = None;
        let mut i: usize = 0;
        proof {
            assert(ids.take(0) =~= Seq::<u64>::empty());
        }
        while i < count
            invariant
                i <= count,
                count == ids.len(),
                ids == self.owned.order(),
                tasks.wf(),
                self.queues_wf(tasks@),
                ready == (|task: Task| task.ready()),
                ended == (|task: Task| task.state.terminal is Some),
                terminal == count_tasks(ids.take(i as int), tasks@, ended),
                terminal <= i,
                runnable == count_tasks(ids.take(i as int), tasks@, ready),
                runnable <= i,
                is_least(vruntimes(ids.take(i as int), tasks@), as_int(min_vruntime)),
                is_greatest(vruntimes(ids.take(i as int), tasks@), as_int(max_vruntime)),
                is_least(vdeadlines(ids.take(i as int), tasks@), as_int(min_vdeadline)),
                is_greatest(vdeadlines(ids.take(i as int), tasks@), as_int(max_vdeadline)),
                min_delta is Some <==> i > 0,
                max_delta is Some <==> i > 0,
                is_least(
                    deltas(ids.take(i as int), tasks@, self.vtime),
                    match min_delta {
                        Some(d) => Some(d as int),
                        None => None,
                    },
                ),
                is_greatest(
                    deltas(ids.take(i as int), tasks@, self.vtime),
                    match max_delta {
                        Some(d) => Some(d as int),
                        None => None,
                    },
                ),
            decreases count - i,
        {
            let id: u64 = self.owned.key_at(i);
            assert(self.owns(id));
            assert(self.task_wf(tasks@, id));
            let task = read_task(tasks, id);
            let delta: i128 = saturating_virtual_delta(self.vtime, task.sched.vruntime);
            proof {
                let part = ids.take(i as int);
                let next = ids.take(i + 1);
                assert(next =~= part.push(id));
                assert(next.drop_last() =~= part);
                assert(vruntimes(next, tasks@) =~= vruntimes(part, tasks@).push(
                    task.sched.vruntime as int,
                ));
                assert(vdeadlines(next, tasks@) =~= vdeadlines(part, tasks@).push(
                    task.sched.vdeadline as int,
                ));
                assert(deltas(next, tasks@, self.vtime) =~= deltas(part, tasks@, self.vtime).push(
                    delta as int,
                ));
                lemma_bounds_push(
                    vruntimes(part, tasks@),
                    as_int(min_vruntime),
                    as_int(max_vruntime),
                    task.sched.vruntime as int,
                );
                lemma_bounds_push(
                    vdeadlines(part, tasks@),
                    as_int(min_vdeadline),
                    as_int(max_vdeadline),
                    task.sched.vdeadline as int,
                );
                lemma_bounds_push(
                    deltas(part, tasks@, self.vtime),
                    match min_delta {
                        Some(d) => Some(d as int),
                        None => None,
                    },
                    match max_delta {
                        Some(d) => Some(d as int),
                        None => None,
                    },
                    delta as int,
                );
            }
            if task.state.sched.is_ready() {
                runnable = runnable + 1;
            }
            if task.state.terminal.is_some() {
                terminal = terminal + 1;
            }
            min_vruntime = lower(min_vruntime, task.sched.vruntime);
            max_vruntime = upper(max_vruntime, task.sched.vruntime);
            min_vdeadline = lower(min_vdeadline, task.sched.vdeadline);
            max_vdeadline = upper(max_vdeadline, task.sched.vdeadline);
            min_delta = match min_delta {
                Some(d) => if delta < d {
                    Some(delta)
                } else {
                    Some(d)
                },
                None => Some(delta),
            };
            max_delta = match max_delta {
                Some(d) => if delta > d {
                    Some(delta)
                } else {
                    Some(d)
                },
                None => Some(delta),
            };
            i = i + 1;
        }
        proof {
            assert(ids.take(i as int) =~= ids);
        }
        let promotable: usize = self.promotable_count();
        SchedulerCpuDebugSnapshot {
            cpu_id: self.cpu_id,
            current: self.current,
            vtime: self.vtime,
            total_weight: self.total_weight,
            task_count: count,
            runnable_count: runnable,
            blocked_count: count - runnable,
            terminal_count: terminal,
            eligible_count: self.eligible.len(),
            ineligible_count: self.ineligible.len(),
            promotable_ineligible_count: promotable,
            wake_inbox_len: self.wake_inbox.len(),
            min_vruntime,
            max_vruntime,
            min_vdeadline,
            max_vdeadline,
            min_vruntime_delta: match min_delta {
                Some(d) => d,
                None => 0,
            },
            max_vruntime_delta: match max_delta {
                Some(d) => d,
                None => 0,
            },
        }
    }

    /// Number of ineligible tasks whose eligible time has come.
    fn promotable_count(&self) -> (count: usize)
        requires
            self.ineligible.wf(),
        ensures
            count == count_due(self.ineligible.order(), self.vtime),
    {
        let ghost entries = self.ineligible.order();
        let total: usize = self.ineligible.len();
        let mut count: usize = 0;
        let mut i: usize = 0;
        proof {
            assert(entries.take(0) =~= Seq::<(u128, u64)>::empty());
        }
        while i < total
            invariant
                i <= total,
                total == entries.len(),
                entries == self.ineligible.order(),
                self.ineligible.wf(),
                count <= i,
                count == count_due(entries.take(i as int), self.vtime),
            decreases total - i,
        {
            let entry = self.ineligible.entry_at(i);
            proof {
                assert(entries.take(i + 1) =~= entries.take(i as int).push(entry));
                assert(entries.take(i + 1).drop_last() =~= entries.take(i as int));
            }
            if entry.0 <= self.vtime {
                count = count + 1;
            }
            i = i + 1;
        }
        proof {
            assert(entries.take(i as int) =~= entries);
        }
        count
    }
}

/// Whether some entry of the queue names the task.
pub open spec fn names(entries: Seq<(u128, u64)>, id: TaskId) -> bool {
    exists|i: int| 0 <= i < entries.len() && (#[trigger] entries[i]).1 == id
}

impl Scheduler {
    /// What the audit demands of one queued task.
    pub open spec fn queued_ok(&self, tasks: Map<u64, Task>, id: TaskId) -> bool {
        &&& tasks[id].ready()
        &&& self.current != Some(id)
        &&& tasks[id].sched.veligible <= tasks[id].sched.vdeadline
    }

    /// What the audit demands of one owned task.
    pub open spec fn owned_ok(&self, tasks: Map<u64, Task>, id: TaskId) -> bool {
        let task = tasks[id];
        let in_eligible = names(self.eligible.order(), id);
        let in_ineligible = names(self.ineligible.order(), id);
        &&& task.sched.cpu_id == self.cpu_id
        &&& task.sched.veligible <= task.sched.vdeadline
        &&& if task.ready() {
            if self.current == Some(id) {
                !in_eligible && !in_ineligible && task.sched.exec_start is Some
                    && task.state.terminal is None
            } else {
                in_eligible != in_ineligible && task.sched.exec_start is None
            }
        } else {
            !in_eligible && !in_ineligible && task.sched.exec_start is None
        }
    }

    /// The bookkeeping that the scheduler is meant to keep between any two of
    /// its operations.
    pub open spec fn audit_ok(&self, tasks: Map<u64, Task>) -> bool {
        let eligible = self.eligible.order();
        let ineligible = self.ineligible.order();
        &&& forall|i: int, j: int|
            0 <= i < j < eligible.len() ==> (#[trigger] eligible[i]).1 != (
            #[trigger] eligible[j]).1
        &&& forall|i: int, j: int|
            0 <= i < j < ineligible.len() ==> (#[trigger] ineligible[i]).1 != (
            #[trigger] ineligible[j]).1
        &&& forall|i: int|
            0 <= i < eligible.len() ==> self.queued_ok(tasks, (#[trigger] eligible[i]).1)
                && tasks[eligible[i].1].sched.veligible <= self.vtime
        &&& forall|i: int|
            0 <= i < ineligible.len() ==> self.queued_ok(tasks, (#[trigger] ineligible[i]).1)
                && !names(eligible, ineligible[i].1)
        &&& forall|i: int|
            0 <= i < self.owned.order().len() ==> self.owned_ok(
                tasks,
                #[trigger] self.owned.order()[i],
            )
        &&& self.total_weight == cap_u64(ready_weight(self.owned@.dom(), tasks) as int)
    }

    /// Between any two operations the audit holds: its clauses follow from the
    /// invariant that every operation keeps, an exact weight, and an eligible
    /// queue that has been reached by virtual time.
    pub proof fn law_audit_holds(&self, tasks: Map<u64, Task>)
        requires
            self.wf(tasks),
            self.weight_exact(tasks),
            self.eligible_reached(tasks),
        ensures
            self.audit_ok(tasks),
    {
        self.eligible.lemma_order();
        self.ineligible.lemma_order();
        self.owned.lemma_order();
        let eligible = self.eligible.order();
        let ineligible = self.ineligible.order();
        assert forall|id: TaskId| #[trigger] self.owns(id) implies (names(eligible, id)
            <==> self.in_eligible(tasks, id)) && (names(ineligible, id) <==> self.in_ineligible(
            tasks,
            id,
        )) by {
            if names(eligible, id) {
                let i = choose|i: int| 0 <= i < eligible.len() && (#[trigger] eligible[i]).1 == id;
                assert(self.eligible@.contains(eligible[i]));
            }
            if self.in_eligible(tasks, id) {
                let e = (tasks[id].sched.vdeadline, id);
                assert(eligible.contains(e));
                let i = choose|i: int| 0 <= i < eligible.len() && eligible[i] == e;
                assert(eligible[i].1 == id);
            }
            if names(ineligible, id) {
                let i = choose|i: int|
                    0 <= i < ineligible.len() && (#[trigger] ineligible[i]).1 == id;
                assert(self.ineligible@.contains(ineligible[i]));
            }
            if self.in_ineligible(tasks, id) {
                let e = (tasks[id].sched.veligible, id);
                assert(ineligible.contains(e));
                let i = choose|i: int| 0 <= i < ineligible.len() && ineligible[i] == e;
                assert(ineligible[i].1 == id);
            }
        }
        assert forall|i: int, j: int| 0 <= i < j < eligible.len() implies (
        #[trigger] eligible[i]).1 != (#[trigger] eligible[j]).1 by {
            assert(self.eligible@.contains(eligible[i]));
            assert(self.eligible@.contains(eligible[j]));
        }
        assert forall|i: int, j: int| 0 <= i < j < ineligible.len() implies (
        #[trigger] ineligible[i]).1 != (#[trigger] ineligible[j]).1 by {
            assert(self.ineligible@.contains(ineligible[i]));
            assert(self.ineligible@.contains(ineligible[j]));
        }
        assert forall|i: int| 0 <= i < eligible.len() implies self.queued_ok(
            tasks,
            (#[trigger] eligible[i]).1,
        ) && tasks[eligible[i].1].sched.veligible <= self.vtime by {
            assert(self.eligible@.contains(eligible[i]));
            assert(self.owns(eligible[i].1));
            assert(self.task_wf(tasks, eligible[i].1));
        }
        assert forall|i: int| 0 <= i < ineligible.len() implies self.queued_ok(
            tasks,
            (#[trigger] ineligible[i]).1,
        ) && !names(eligible, ineligible[i].1) by {
            let id = ineligible[i].1;
            assert(self.ineligible@.contains(ineligible[i]));
            assert(self.owns(id));
            assert(self.task_wf(tasks, id));
            assert(self.in_ineligible(tasks, id));
        }
        assert forall|i: int| 0 <= i < self.owned.order().len() implies self.owned_ok(
            tasks,
            #[trigger] self.owned.order()[i],
        ) by {
            let id = self.owned.order()[i];
            assert(self.owned.order().contains(id));
            assert(self.owns(id));
            assert(self.task_wf(tasks, id));
            if !tasks[id].ready() {
                assert(!self.in_eligible(tasks, id));
                assert(!self.in_ineligible(tasks, id));
            }
            if self.current == Some(id) {
                assert(!self.in_eligible(tasks, id));
                assert(!self.in_ineligible(tasks, id));
            }
        }
    }

    fn queue_names(queue: &RunQueue, id: TaskId, limit: usize) -> (found: bool)
        requires
            queue.wf(),
            limit <= queue.order().len(),
        ensures
            found == names(queue.order().take(limit as int), id),
    {
        let ghost entries = queue.order().take(limit as int);
        let mut i: usize = 0;
        while i < limit
            invariant
                i <= limit,
                limit <= queue.order().len(),
                queue.wf(),
                entries == queue.order().take(limit as int),
                forall|j: int| 0 <= j < i ==> (#[trigger] entries[j]).1 != id,
            decreases limit - i,
        {
            let entry = queue.entry_at(i);
            assert(entries[i as int] == entry);
            if entry.1 == id {
                return true;
            }
            i = i + 1;
        }
        false
    }

    fn audit_eligible(&self, tasks: &TaskTable) -> (ok: bool)
        requires
            tasks.wf(),
            self.eligible.wf(),
            forall|i: int|
                0 <= i < self.eligible.order().len() ==> tasks@.dom().contains(
                    (#[trigger] self.eligible.order()[i]).1,
                ),
        ensures
            ok <==> {
                let eligible = self.eligible.order();
                &&& forall|i: int, j: int|
                    0 <= i < j < eligible.len() ==> (#[trigger] eligible[i]).1 != (
                    #[trigger] eligible[j]).1
                &&& forall|i: int|
                    0 <= i < eligible.len() ==> self.queued_ok(tasks@, (#[trigger] eligible[i]).1)
                        && tasks@[eligible[i].1].sched.veligible <= self.vtime
            },
    {
        let ghost eligible = self.eligible.order();
        let count: usize = self.eligible.len();
        let mut i: usize = 0;
        while i < count
            invariant
                i <= count,
                count == eligible.len(),
                eligible == self.eligible.order(),
                tasks.wf(),
                self.eligible.wf(),
                forall|i: int|
                    0 <= i < self.eligible.order().len() ==> tasks@.dom().contains(
                        (#[trigger] self.eligible.order()[i]).1,
                    ),
                forall|a: int, b: int|
                    0 <= a < b < i ==> (#[trigger] eligible[a]).1 != (#[trigger] eligible[b]).1,
                forall|a: int|
                    0 <= a < i ==> self.queued_ok(tasks@, (#[trigger] eligible[a]).1)
                        && tasks@[eligible[a].1].sched.veligible <= self.vtime,
            decreases count - i,
        {
            let id: u64 = self.eligible.entry_at(i).1;
            assert(eligible[i as int].1 == id);
            let task = read_task(tasks, id);
            let repeated = Self::queue_names(&self.eligible, id, i);
            proof {
                let part = eligible.take(i as int);
                if repeated {
                    let a = choose|a: int| 0 <= a < part.len() && (#[trigger] part[a]).1 == id;
                    assert(eligible[a].1 == id);
                } else {
                    assert forall|a: int| 0 <= a < i implies (#[trigger] eligible[a]).1 != id by {
                        assert(part[a] == eligible[a]);
                    }
                }
            }
            if repeated || !task.state.sched.is_ready() || self.current == Some(id)
                || task.sched.veligible > task.sched.vdeadline || task.sched.veligible
                > self.vtime {
                return false;
            }
            i = i + 1;
        }
        true
    }

    fn audit_ineligible(&self, tasks: &TaskTable) -> (ok: bool)
        requires
            tasks.wf(),
            self.eligible.wf(),
            self.ineligible.wf(),
            forall|i: int|
                0 <= i < self.ineligible.order().len() ==> tasks@.dom().contains(
                    (#[trigger] self.ineligible.order()[i]).1,
                ),
        ensures
            ok <==> {
                let eligible = self.eligible.order();
                let ineligible = self.ineligible.order();
                &&& forall|i: int, j: int|
                    0 <= i < j < ineligible.len() ==> (#[trigger] ineligible[i]).1 != (
                    #[trigger] ineligible[j]).1
                &&& forall|i: int|
                    0 <= i < ineligible.len() ==> self.queued_ok(
                        tasks@,
                        (#[trigger] ineligible[i]).1,
                    ) && !names(eligible, ineligible[i].1)
            },
    {
        let ghost eligible = self.eligible.order();
        let ghost ineligible = self.ineligible.order();
        let count: usize = self.ineligible.len();
        let eligible_count: usize = self.eligible.len();
        assert(eligible.take(eligible_count as int) =~= eligible);
        let mut i: usize = 0;
        while i < count
            invariant
                i <= count,
                count == ineligible.len(),
                ineligible == self.ineligible.order(),
                eligible == self.eligible.order(),
                eligible_count == eligible.len(),
                eligible.take(eligible_count as int) == eligible,
                tasks.wf(),
                self.eligible.wf(),
                self.ineligible.wf(),
                forall|i: int|
                    0 <= i < self.ineligible.order().len() ==> tasks@.dom().contains(
                        (#[trigger] self.ineligible.order()[i]).1,
                    ),
                forall|a: int, b: int|
                    0 <= a < b < i ==> (#[trigger] ineligible[a]).1 != (#[trigger] ineligible[b]).1,
                forall|a: int|
                    0 <= a < i ==> self.queued_ok(tasks@, (#[trigger] ineligible[a]).1) && !names(
                        eligible,
                        ineligible[a].1,
                    ),
            decreases count - i,
        {
            let id: u64 = self.ineligible.entry_at(i).1;
            assert(ineligible[i as int].1 == id);
            let task = read_task(tasks, id);
            let repeated = Self::queue_names(&self.ineligible, id, i);
            let shared = Self::queue_names(&self.eligible, id, eligible_count);
            proof {
                let part = ineligible.take(i as int);
                if repeated {
                    let a = choose|a: int| 0 <= a < part.len() && (#[trigger] part[a]).1 == id;
                    assert(ineligible[a].1 == id);
                } else {
                    assert forall|a: int| 0 <= a < i implies (#[trigger] ineligible[a]).1 != id by {
                        assert(part[a] == ineligible[a]);
                    }
                }
            }
            if repeated || shared || !task.state.sched.is_ready() || self.current == Some(id)
                || task.sched.veligible > task.sched.vdeadline {
                return false;
            }
            i = i + 1;
        }
        true
    }

    fn audit_task(&self, tasks: &TaskTable, id: TaskId) -> (ok: bool)
        requires
            tasks.wf(),
            self.eligible.wf(),
            self.ineligible.wf(),
            tasks@.dom().contains(id),
        ensures
            ok == self.owned_ok(tasks@, id),
    {
        let task = read_task(tasks, id);
        let eligible_count: usize = self.eligible.len();
        let ineligible_count: usize = self.ineligible.len();
        assert(self.eligible.order().take(eligible_count as int) =~= self.eligible.order());
        assert(self.ineligible.order().take(ineligible_count as int) =~= self.ineligible.order());
        let in_eligible = Self::queue_names(&self.eligible, id, eligible_count);
        let in_ineligible = Self::queue_names(&self.ineligible, id, ineligible_count);
        if task.sched.cpu_id != self.cpu_id || task.sched.veligible > task.sched.vdeadline {
            return false;
        }
        if task.state.sched.is_ready() {
            if self.current == Some(id) {
                !in_eligible && !in_ineligible && task.sched.exec_start.is_some()
                    && task.state.terminal.is_none()
            } else {
                in_eligible != in_ineligible && task.sched.exec_start.is_none()
            }
        } else {
            !in_eligible && !in_ineligible && task.sched.exec_start.is_none()
        }
    }

    /// Checks the bookkeeping of the scheduler, clause by clause.
    pub fn debug_verify(&self, tasks: &TaskTable) -> (ok: bool)
        requires
            tasks.wf(),
            self.owned.wf(),
            self.eligible.wf(),
            self.ineligible.wf(),
            forall|i: int|
                0 <= i < self.eligible.order().len() ==> tasks@.dom().contains(
                    (#[trigger] self.eligible.order()[i]).1,
                ),
            forall|i: int|
                0 <= i < self.ineligible.order().len() ==> tasks@.dom().contains(
                    (#[trigger] self.ineligible.order()[i]).1,
                ),
            forall|i: int|
                0 <= i < self.owned.order().len() ==> tasks@.dom().contains(
                    #[trigger] self.owned.order()[i],
                ),
        ensures
            ok == self.audit_ok(tasks@),
    {
        if !self.audit_eligible(tasks) || !self.audit_ineligible(tasks) {
            return false;
        }
        let ghost ids = self.owned.order();
        let count: usize = self.owned.len();
        let mut weight: u64 = 0;
        let mut i: usize = 0;
        proof {
            self.owned.lemma_order();
            assert(ids.take(0).to_set() =~= Set::<u64>::empty());
        }
        while i < count
            invariant
                i <= count,
                count == ids.len(),
                ids == self.owned.order(),
                ids.no_duplicates(),
                tasks.wf(),
                self.owned.wf(),
                self.eligible.wf(),
                self.ineligible.wf(),
                forall|i: int|
                    0 <= i < self.owned.order().len() ==> tasks@.dom().contains(
                        #[trigger] self.owned.order()[i],
                    ),
                forall|a: int| 0 <= a < i ==> self.owned_ok(tasks@, #[trigger] ids[a]),
                ids.take(i as int).to_set().finite(),
                weight == cap_u64(ready_weight(ids.take(i as int).to_set(), tasks@) as int),
            decreases count - i,
        {
            let id: u64 = self.owned.key_at(i);
            assert(ids[i as int] == id);
            if !self.audit_task(tasks, id) {
                return false;
            }
            let task = read_task(tasks, id);
            proof {
                let part = ids.take(i as int);
                let next = ids.take(i + 1);
                assert(next =~= part.push(id));
                assert(next.to_set() =~= part.to_set().insert(id)) by {
                    assert forall|other: u64| part.to_set().insert(id).contains(other) implies
                        next.to_set().contains(other) by {
                        if other == id {
                            assert(next[i as int] == id);
                        } else {
                            let j = choose|j: int| 0 <= j < part.len() && part[j] == other;
                            assert(next[j] == other);
                        }
                    }
                }
                assert(!part.to_set().contains(id));
                lemma_weight_insert(part.to_set(), tasks@, id);
            }
            if task.state.sched.is_ready() {
                let own: u64 = if task.sched.weight == 0 {
                    1
                } else {
                    task.sched.weight
                };
                weight = weight.saturating_add(own);
            }
            i = i + 1;
        }
        proof {
            assert(ids.take(i as int) =~= ids);
        }
        weight == self.total_weight
    }
}

/// The CPUs below `count` that have a scheduler, in ascending order.
pub open spec fn installed_cpus(set: SchedulerSet, count: nat) -> Seq<int>
    decreases count,
{
    if count == 0 {
        Seq::empty()
    } else {
        let lower = installed_cpus(set, (count - 1) as nat);
        if set.installed(count - 1) {
            lower.push(count - 1)
        } else {
            lower
        }
    }
}

impl SchedulerSet {
    /// A snapshot of each CPU that has a scheduler, in ascending order.
    pub fn debug_snapshots(&self) -> (snapshots: Vec<SchedulerCpuDebugSnapshot>)
        requires
            self.wf(),
        ensures
            ({
                let cpus = installed_cpus(*self, self.cpus@.len());
                &&& snapshots@.len() == cpus.len()
                &&& forall|i: int|
                    0 <= i < cpus.len() ==> (#[trigger] snapshots@[i]).describes(
                        self.cpu(cpus[i]),
                        self.tasks@,
                    )
            }),
    {
        let mut snapshots: Vec<SchedulerCpuDebugSnapshot> = Vec::new();
        let mut i: usize = 0;
        while i < self.cpus.len()
            invariant
                i <= self.cpus@.len(),
                self.wf(),
                snapshots@.len() == installed_cpus(*self, i as nat).len(),
                forall|k: int|
                    0 <= k < snapshots@.len() ==> (#[trigger] snapshots@[k]).describes(
                        self.cpu(installed_cpus(*self, i as nat)[k]),
                        self.tasks@,
                    ),
            decreases self.cpus@.len() - i,
        {
            match &self.cpus[i] {
                Some(cpu) => {
                    assert(self.installed(i as int));
                    snapshots.push(cpu.debug_snapshot(&self.tasks));
                },
                None => {},
            }
            i = i + 1;
        }
        snapshots
    }
}

proof fn lemma_count_is_filter(entries: Seq<(u128, u64)>, vtime: VirtualTime)
    ensures
        count_due(entries, vtime) == entries.filter(|e: (u128, u64)| e.0 <= vtime).len(),
    decreases entries.len(),
{
    reveal(Seq::filter);
    if entries.len() > 0 {
        lemma_count_is_filter(entries.drop_last(), vtime);
    }
}

proof fn lemma_tasks_are_filter(ids: Seq<u64>, tasks: Map<u64, Task>, pred: spec_fn(Task) -> bool)
    ensures
        count_tasks(ids, tasks, pred) == ids.filter(|id: u64| pred(tasks[id])).len(),
    decreases ids.len(),
{
    reveal(Seq::filter);
    if ids.len() > 0 {
        lemma_tasks_are_filter(ids.drop_last(), tasks, pred);
    }
}

/// A snapshot counts the tasks of its processor: those that are ready, those that
/// are not, those that have ended, and of those that wait for their window the
/// ones whose time has come.
pub proof fn law_snapshot_counts_the_tasks(
    snapshot: SchedulerCpuDebugSnapshot,
    scheduler: Scheduler,
    tasks: Map<u64, Task>,
)
    requires
        snapshot.describes(scheduler, tasks),
    ensures
        snapshot.runnable_count + snapshot.blocked_count == scheduler.owned.order().len(),
        snapshot.task_count == scheduler.owned.order().len(),
        snapshot.runnable_count == scheduler.owned.order().filter(
            |id: u64| tasks[id].ready(),
        ).len(),
        snapshot.terminal_count == scheduler.owned.order().filter(
            |id: u64| tasks[id].state.terminal is Some,
        ).len(),
        snapshot.promotable_ineligible_count == scheduler.ineligible.order().filter(
            |e: (u128, u64)| e.0 <= scheduler.vtime,
        ).len(),
        snapshot.vtime == scheduler.vtime,
        snapshot.total_weight == scheduler.total_weight,
        snapshot.current == scheduler.current,
{
    let ids = scheduler.owned.order();
    lemma_count_is_filter(scheduler.ineligible.order(), scheduler.vtime);
    let ready = |task: Task| task.ready();
    let ended = |task: Task| task.state.terminal is Some;
    lemma_tasks_are_filter(ids, tasks, ready);
    lemma_tasks_are_filter(ids, tasks, ended);
    assert((|id: u64| ready(tasks[id])) =~= (|id: u64| tasks[id].ready()));
    assert((|id: u64| ended(tasks[id])) =~= (|id: u64| tasks[id].state.terminal is Some));
}

/// The signed distance of two virtual times is their difference, as far as it can
/// be represented, and turns its sign when they change places.
pub proof fn law_distance_is_signed(lhs: VirtualTime, rhs: VirtualTime)
    ensures
        lhs <= i128::MAX && rhs <= i128::MAX ==> virtual_delta(lhs, rhs) == lhs - rhs,
        virtual_delta(lhs, rhs) == -virtual_delta(rhs, lhs),
        virtual_delta(lhs, rhs) > 0 <==> lhs > rhs,
{
}

/// There is one snapshot for each processor that has a scheduler, lowest first.
pub proof fn law_each_cpu_has_a_snapshot(set: SchedulerSet, count: nat, cpu: int)
    ensures
        installed_cpus(set, count).contains(cpu) <==> 0 <= cpu < count && set.installed(cpu),
        forall|i: int, j: int|
            0 <= i < j < installed_cpus(set, count).len() ==> installed_cpus(set, count)[i]
                < installed_cpus(set, count)[j],
        forall|i: int|
            0 <= i < installed_cpus(set, count).len() ==> 0 <= #[trigger] installed_cpus(set, count)[i]
                < count,
    decreases count,
{
    if count > 0 {
        let lower = installed_cpus(set, (count - 1) as nat);
        law_each_cpu_has_a_snapshot(set, (count - 1) as nat, cpu);
        let all = installed_cpus(set, count);
        if lower.contains(cpu) {
            let k = choose|k: int| 0 <= k < lower.len() && lower[k] == cpu;
            assert(all[k] == cpu);
        }
        if set.installed(count - 1) {
            assert(all[lower.len() as int] == count - 1);
        }
        if all.contains(cpu) && cpu != count - 1 {
            let k = choose|k: int| 0 <= k < all.len() && all[k] == cpu;
            assert(lower[k] == cpu);
        }
    }
}

} // verus!

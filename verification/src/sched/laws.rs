//! What scheduling guarantees, stated over the queues, the clock and the
//! timestamps of the tasks.

use super::balance::{resting, LoadBalancer, PullOutcome, TickState};
use super::clock::{cap_u128, Duration, Instant};
use super::cpus::{SchedulerSet, WakeNotice};
use super::eevdf::{deadline_at, effective_weight, eligible_at, virtual_span};
use super::scheduler::{
    departed_vtime, lemma_filter_out, settled_task, settled_vtime, wake_count, wake_weight, without,
    MigrationPolicy, Scheduler, TrapBoundaryFinalize,
};
use super::dispatch::{ScheduleStep, SchedulerDispatch};
use super::preempt::{entered, left, PreemptState};
use super::process::tasks::TrapReason;
use super::process::vm::ProcessUserFaultResolution;
use super::run::{UserAction, UserEvent, UserRun, UserStage};
use super::stack::CpuFallbackStack;
use super::time::SleepWake;
use super::task::{
    ServiceDelivery, Task, TaskBoundaryAction, TaskExit, TaskId, TaskPollOutcome,
};
use super::user::{
    start_check, ExitingCall, ProcessSpawnError, StartProbes, UserStart, VmLayoutSegment,
};
use super::weights::ready_count;
use crate::memory::range::VmRange;
use vstd::prelude::*;

verus! {

/// A blocked task of the CPU whose wakeup is queued there.
pub open spec fn about_to_wake(cpu: Scheduler, tasks: Map<u64, Task>, id: TaskId) -> bool {
    &&& cpu.wake_inbox@.contains(id)
    &&& cpu.owned@.dom().contains(id)
    &&& tasks[id].state.sched is Blocked
}

proof fn lemma_wake_counts(cpu: Scheduler, tasks: Map<u64, Task>, ids: Seq<u64>, id: TaskId)
    requires
        ids.contains(id),
        cpu.owned@.dom().contains(id),
        tasks[id].state.sched is Blocked,
    ensures
        wake_count(cpu, tasks, ids) > 0,
    decreases ids.len(),
{
    let k = choose|k: int| 0 <= k < ids.len() && ids[k] == id;
    if k < ids.len() - 1 {
        assert(ids.drop_last()[k] == id);
        lemma_wake_counts(cpu, tasks, ids.drop_last(), id);
    } else {
        assert(cpu.wakes(tasks, ids.last()));
    }
}

proof fn lemma_count_wakes(cpu: Scheduler, tasks: Map<u64, Task>, ids: Seq<u64>) -> (id: TaskId)
    requires
        wake_count(cpu, tasks, ids) > 0,
    ensures
        ids.contains(id),
        cpu.owned@.dom().contains(id),
        tasks[id].state.sched is Blocked,
    decreases ids.len(),
{
    if cpu.wakes(tasks, ids.last()) {
        assert(ids[ids.len() - 1] == ids.last());
        ids.last()
    } else {
        let id = lemma_count_wakes(cpu, tasks, ids.drop_last());
        let k = choose|k: int| 0 <= k < ids.drop_last().len() && ids.drop_last()[k] == id;
        assert(ids[k] == id);
        id
    }
}

/// A tick that charged the running task or woke another asks to reschedule as
/// soon as some waiting task, whose eligible time the CPU has reached, has an
/// earlier deadline than the running one.
pub proof fn law_tick_gives_way_to_earlier_deadline(
    before: Scheduler,
    tasks_before: Map<u64, Task>,
    after: Scheduler,
    tasks_after: Map<u64, Task>,
    now: Instant,
    reschedule: bool,
    running: TaskId,
    other: TaskId,
)
    requires
        before.wf(tasks_before),
        after.wf(tasks_after),
        Scheduler::tick_effect(before, tasks_before, after, tasks_after, now, reschedule),
        before.current == Some(running),
        (tasks_before[running].sched.exec_start matches Some(start) && start.nanos < now.nanos)
            || exists|woken: TaskId| #[trigger] about_to_wake(before, tasks_before, woken),
        after.eligible@.contains((tasks_after[other].sched.vdeadline, other))
            || after.ineligible@.contains((tasks_after[other].sched.veligible, other)),
        tasks_after[other].sched.veligible <= after.vtime,
        tasks_after[other].sched.vdeadline < tasks_after[running].sched.vdeadline,
    ensures
        reschedule,
{
    assert(before.owns(running) && before.task_wf(tasks_before, running));
    if exists|woken: TaskId| #[trigger] about_to_wake(before, tasks_before, woken) {
        let woken = choose|woken: TaskId| #[trigger] about_to_wake(before, tasks_before, woken);
        lemma_wake_counts(before, tasks_before, before.wake_inbox@, woken);
    }
    assert(after.reachable(tasks_after, other, after.vtime));
}

/// Once the running task has used its slice up, such a tick asks to reschedule if
/// any waiting task may run.
pub proof fn law_tick_ends_used_slice(
    before: Scheduler,
    tasks_before: Map<u64, Task>,
    after: Scheduler,
    tasks_after: Map<u64, Task>,
    now: Instant,
    reschedule: bool,
    running: TaskId,
    other: TaskId,
)
    requires
        before.wf(tasks_before),
        after.wf(tasks_after),
        Scheduler::tick_effect(before, tasks_before, after, tasks_after, now, reschedule),
        before.current == Some(running),
        (tasks_before[running].sched.exec_start matches Some(start) && start.nanos < now.nanos)
            || exists|woken: TaskId| #[trigger] about_to_wake(before, tasks_before, woken),
        after.eligible@.contains((tasks_after[other].sched.vdeadline, other))
            || after.ineligible@.contains((tasks_after[other].sched.veligible, other)),
        tasks_after[other].sched.veligible <= after.vtime,
        tasks_after[running].sched.exec_runtime.nanos >= tasks_after[running].sched.slice.nanos,
    ensures
        reschedule,
{
    assert(before.owns(running) && before.task_wf(tasks_before, running));
    if exists|woken: TaskId| #[trigger] about_to_wake(before, tasks_before, woken) {
        let woken = choose|woken: TaskId| #[trigger] about_to_wake(before, tasks_before, woken);
        lemma_wake_counts(before, tasks_before, before.wake_inbox@, woken);
    }
    assert(after.reachable(tasks_after, other, after.vtime));
}

/// A running task is not disturbed for nothing: where a tick asks to reschedule,
/// a task waits in the eligible queue that has an earlier deadline, or the slice
/// of the running task is used up.
pub proof fn law_tick_has_a_reason(
    before: Scheduler,
    tasks_before: Map<u64, Task>,
    after: Scheduler,
    tasks_after: Map<u64, Task>,
    now: Instant,
    running: TaskId,
)
    requires
        before.wf(tasks_before),
        after.wf(tasks_after),
        Scheduler::tick_effect(before, tasks_before, after, tasks_after, now, true),
        before.current == Some(running),
    ensures
        exists|e: (u128, u64)| #[trigger]
            after.eligible@.contains(e) && (e.0 < tasks_after[running].sched.vdeadline
                || tasks_after[running].sched.exec_runtime.nanos
                >= tasks_after[running].sched.slice.nanos),
        (tasks_before[running].sched.exec_start matches Some(start) && start.nanos < now.nanos)
            || exists|woken: TaskId| #[trigger] about_to_wake(before, tasks_before, woken),
{
    assert(before.owns(running) && before.task_wf(tasks_before, running));
    if wake_count(before, tasks_before, before.wake_inbox@) > 0 {
        let woken = lemma_count_wakes(before, tasks_before, before.wake_inbox@);
        assert(about_to_wake(before, tasks_before, woken));
    }
    let current = tasks_after[running].sched;
    let other = choose|other: TaskId| #[trigger]
        after.reachable(tasks_after, other, after.vtime) && (tasks_after[other].sched.vdeadline
            < current.vdeadline || current.exec_runtime.nanos >= current.slice.nanos);
    assert(!after.in_ineligible(tasks_after, other) || after.in_eligible(tasks_after, other)) by {
        if after.in_ineligible(tasks_after, other) && !after.in_eligible(tasks_after, other) {
            let woken = before.after_wakeups(tasks_before, before.wake_inbox@);
            assert(other != running);
            assert(tasks_after[other] == woken[other]);
            assert(before.settles(tasks_before, now));
        }
    }
    assert(after.eligible@.contains((tasks_after[other].sched.vdeadline, other)));
}

/// An idle CPU asks to reschedule exactly when a task wakes on it.
pub proof fn law_idle_tick_answers_wakeups(
    before: Scheduler,
    tasks_before: Map<u64, Task>,
    after: Scheduler,
    tasks_after: Map<u64, Task>,
    now: Instant,
    reschedule: bool,
)
    requires
        Scheduler::tick_effect(before, tasks_before, after, tasks_after, now, reschedule),
        before.current is None,
    ensures
        reschedule <==> exists|woken: TaskId| #[trigger]
            about_to_wake(before, tasks_before, woken),
        after.vtime == before.vtime,
{
    if reschedule {
        let woken = lemma_count_wakes(before, tasks_before, before.wake_inbox@);
        assert(about_to_wake(before, tasks_before, woken));
    }
    if exists|woken: TaskId| #[trigger] about_to_wake(before, tasks_before, woken) {
        let woken = choose|woken: TaskId| #[trigger] about_to_wake(before, tasks_before, woken);
        lemma_wake_counts(before, tasks_before, before.wake_inbox@, woken);
    }
}

/// The task that is chosen waited in a queue, may run at the virtual time of the
/// CPU, and no task that may run then has an earlier deadline. Virtual time stands
/// still while any task may run.
pub proof fn law_choice_is_earliest_deadline(
    before: Scheduler,
    tasks_before: Map<u64, Task>,
    after: Scheduler,
    tasks_after: Map<u64, Task>,
    now: Instant,
    id: TaskId,
)
    requires
        before.wf(tasks_before),
        before.eligible_reached(tasks_before),
        Scheduler::take_next_effect(
            before,
            tasks_before,
            after,
            tasks_after,
            now,
            Some(id),
        ),
    ensures
        before.eligible@.contains((tasks_before[id].sched.vdeadline, id))
            || before.ineligible@.contains((tasks_before[id].sched.veligible, id)),
        tasks_before[id].sched.veligible <= after.vtime,
        before.vtime <= after.vtime,
        forall|e: (u128, u64)| #[trigger]
            before.eligible@.contains(e) ==> tasks_before[id].sched.vdeadline <= e.0,
        forall|e: (u128, u64)| #[trigger]
            before.ineligible@.contains(e) && e.0 <= after.vtime
                ==> tasks_before[id].sched.vdeadline <= tasks_before[e.1].sched.vdeadline,
        (exists|e: (u128, u64)| #[trigger] before.eligible@.contains(e)) ==> after.vtime
            == before.vtime,
        (exists|e: (u128, u64)| #[trigger] before.ineligible@.contains(e) && e.0 <= before.vtime)
            ==> after.vtime == before.vtime,
        after.current == Some(id),
        tasks_after[id].sched.exec_start == Some(now),
        tasks_after[id].sched.exec_runtime.nanos == 0,
        !after.eligible@.contains((tasks_after[id].sched.vdeadline, id)),
        !after.ineligible@.contains((tasks_after[id].sched.veligible, id)),
{
    assert(before.is_choice(tasks_before, id, after.vtime));
    assert(before.reachable(tasks_before, id, after.vtime));
    assert forall|e: (u128, u64)| #[trigger] before.eligible@.contains(e) implies
        tasks_before[id].sched.vdeadline <= e.0 by {
        assert(before.reachable(tasks_before, e.1, after.vtime));
    }
    assert forall|e: (u128, u64)| #[trigger]
        before.ineligible@.contains(e) && e.0 <= after.vtime implies tasks_before[id].sched.vdeadline
        <= tasks_before[e.1].sched.vdeadline by {
        assert(before.reachable(tasks_before, e.1, after.vtime));
    }
    if exists|e: (u128, u64)| #[trigger] before.eligible@.contains(e) {
        let e = choose|e: (u128, u64)| #[trigger] before.eligible@.contains(e);
        assert(before.reachable(tasks_before, e.1, before.vtime));
    }
    if exists|e: (u128, u64)| #[trigger] before.ineligible@.contains(e) && e.0 <= before.vtime {
        let e = choose|e: (u128, u64)| #[trigger]
            before.ineligible@.contains(e) && e.0 <= before.vtime;
        assert(before.reachable(tasks_before, e.1, before.vtime));
    }
    if before.in_eligible(tasks_before, id) {
        assert(before.eligible@.contains((tasks_before[id].sched.vdeadline, id)));
    }
}

/// A CPU finds nothing to run only where nothing waits in its queues.
pub proof fn law_waiting_task_is_chosen(
    before: Scheduler,
    tasks_before: Map<u64, Task>,
    after: Scheduler,
    tasks_after: Map<u64, Task>,
    now: Instant,
    taken: Option<TaskId>,
    e: (u128, u64),
)
    requires
        Scheduler::take_next_effect(before, tasks_before, after, tasks_after, now, taken),
        before.eligible@.contains(e) || before.ineligible@.contains(e),
    ensures
        taken is Some,
{
}

/// A span of virtual time is the run time scaled by the base weight over the
/// weight, rounded down.
proof fn lemma_span(runtime: Duration, weight: u64)
    requires
        runtime.nanos * 1024 <= u128::MAX,
    ensures
        ({
            let span = virtual_span(runtime, weight);
            let counted = if weight == 0 {
                1
            } else {
                weight as int
            };
            &&& span * counted <= runtime.nanos * 1024
            &&& runtime.nanos * 1024 < (span + 1) * counted
            &&& span <= runtime.nanos * 1024
        }),
{
    let work = runtime.nanos * 1024;
    let counted = effective_weight(weight) as int;
    let span = work / counted;
    assert(span * counted <= work && work < (span + 1) * counted && span <= work)
        by (nonlinear_arith)
        requires
            span == work / counted,
            counted > 0,
            work >= 0,
    ;
}

/// Virtual time runs faster the lighter the weight is, in exact proportion: at
/// the base weight it is the run time itself, and a run costs a task its length
/// times the base weight over the weight of the task, rounded down.
pub proof fn law_virtual_time_is_in_proportion(runtime: Duration, weight: u64)
    requires
        runtime.nanos * 1024 <= u128::MAX,
        weight > 0,
    ensures
        virtual_span(runtime, weight) * weight <= runtime.nanos * 1024,
        runtime.nanos * 1024 < (virtual_span(runtime, weight) + 1) * weight,
        virtual_span(runtime, 1024) == runtime.nanos,
        virtual_span(runtime, 0) == virtual_span(runtime, 1),
{
    lemma_span(runtime, weight);
    lemma_span(runtime, 1024);
}

/// The window of a task opens when both the CPU and the task have reached it, and
/// stays open for the virtual length of its slice.
pub proof fn law_window_lasts_a_slice(vtime: u128, vruntime: u128, slice: Duration, weight: u64)
    requires
        slice.nanos * 1024 + vtime + vruntime <= u128::MAX,
        weight > 0,
    ensures
        eligible_at(vtime, vruntime) == vtime || eligible_at(vtime, vruntime) == vruntime,
        eligible_at(vtime, vruntime) >= vtime,
        eligible_at(vtime, vruntime) >= vruntime,
        ({
            let opens = eligible_at(vtime, vruntime);
            let length = deadline_at(opens, slice, weight) - opens;
            &&& length * weight <= slice.nanos * 1024
            &&& slice.nanos * 1024 < (length + 1) * weight
        }),
{
    lemma_span(slice, weight);
}

/// How the running task and the CPU stand after a run of `ran` nanoseconds has
/// been charged.
pub open spec fn charged_for(
    vtime_before: u128,
    vtime_after: u128,
    total_weight: u64,
    before: Task,
    after: Task,
    ran: int,
    now: Instant,
) -> bool {
    let task_weight = if before.sched.weight == 0 {
        1
    } else {
        before.sched.weight as int
    };
    let cpu_weight = if total_weight == 0 {
        1
    } else {
        total_weight as int
    };
    let cost = after.sched.vruntime - before.sched.vruntime;
    let passed = vtime_after - vtime_before;
    let window = after.sched.vdeadline - after.sched.veligible;
    &&& cost * task_weight <= ran * 1024 < (cost + 1) * task_weight
    &&& passed * cpu_weight <= ran * 1024 < (passed + 1) * cpu_weight
    &&& after.sched.exec_runtime.nanos == before.sched.exec_runtime.nanos + ran
    &&& after.sched.exec_start == Some(now)
    &&& after.sched.veligible == vtime_after || after.sched.veligible == after.sched.vruntime
    &&& after.sched.veligible >= vtime_after
    &&& after.sched.veligible >= after.sched.vruntime
    &&& window * task_weight <= before.sched.slice.nanos * 1024 < (window + 1) * task_weight
    &&& after.sched.weight == before.sched.weight
    &&& after.sched.slice == before.sched.slice
    &&& after.sched.cpu_id == before.sched.cpu_id
    &&& after.state == before.state
    &&& after.id == before.id
}

/// No virtual time of the charge comes near the largest number.
pub open spec fn charge_fits(vtime: u128, task: Task, ran: int) -> bool {
    vtime + task.sched.vruntime + 2 * ran * 1024 + task.sched.slice.nanos * 1024
        + task.sched.exec_runtime.nanos <= u128::MAX
}

proof fn lemma_settled(vtime: u128, total_weight: u64, task: Task, start: Instant, now: Instant)
    requires
        task.sched.exec_start == Some(start),
        start.nanos < now.nanos,
        charge_fits(vtime, task, now.nanos - start.nanos),
    ensures
        charged_for(
            vtime,
            settled_vtime(vtime, total_weight, task, Some(now)),
            total_weight,
            task,
            settled_task(vtime, total_weight, task, Some(now)),
            now.nanos - start.nanos,
            now,
        ),
{
    let runtime = Duration { nanos: (now.nanos - start.nanos) as u128 };
    lemma_span(runtime, task.sched.weight);
    lemma_span(runtime, effective_weight(task.sched.weight));
    lemma_span(runtime, effective_weight(total_weight));
    lemma_span(task.sched.slice, effective_weight(task.sched.weight));
}

/// A tick charges the running task for all the time since it was last charged:
/// its own virtual time advances in proportion to that time over its weight, that
/// of the CPU over the weight of all ready tasks, and the task gets the window
/// that belongs to both.
pub proof fn law_tick_charges_the_run(
    before: Scheduler,
    tasks_before: Map<u64, Task>,
    after: Scheduler,
    tasks_after: Map<u64, Task>,
    now: Instant,
    reschedule: bool,
    running: TaskId,
    start: Instant,
)
    requires
        before.wf(tasks_before),
        Scheduler::tick_effect(before, tasks_before, after, tasks_after, now, reschedule),
        before.current == Some(running),
        tasks_before[running].sched.exec_start == Some(start),
        start.nanos < now.nanos,
        charge_fits(before.vtime, tasks_before[running], now.nanos - start.nanos),
    ensures
        charged_for(
            before.vtime,
            after.vtime,
            after.total_weight,
            tasks_before[running],
            tasks_after[running],
            now.nanos - start.nanos,
            now,
        ),
        after.current == Some(running),
{
    assert(before.owns(running) && before.task_wf(tasks_before, running));
    let woken = before.after_wakeups(tasks_before, before.wake_inbox@);
    lemma_settled(before.vtime, after.total_weight, woken[running], start, now);
}

/// A task that is preempted is charged for its last run, waits in a queue of its
/// CPU, and counts as one that was interrupted.
pub proof fn law_preempted_task_is_charged_and_waits(
    before: Scheduler,
    tasks_before: Map<u64, Task>,
    after: Scheduler,
    tasks_after: Map<u64, Task>,
    id: TaskId,
    start: Instant,
    now: Instant,
)
    requires
        before.wf(tasks_before),
        after.wf(tasks_after),
        before.current == Some(id),
        Scheduler::preempt_effect(before, tasks_before, after, tasks_after, id, Some(now)),
        tasks_before[id].sched.exec_start == Some(start),
        start.nanos < now.nanos,
        charge_fits(before.vtime, tasks_before[id], now.nanos - start.nanos),
    ensures
        ({
            let ran = now.nanos - start.nanos;
            let weight = if tasks_before[id].sched.weight == 0 {
                1
            } else {
                tasks_before[id].sched.weight as int
            };
            let cost = tasks_after[id].sched.vruntime - tasks_before[id].sched.vruntime;
            cost * weight <= ran * 1024 < (cost + 1) * weight
        }),
        after.current is None,
        tasks_after[id].state.sched is PreemptReady,
        tasks_after[id].sched.exec_start is None,
        tasks_after[id].sched.exec_runtime.nanos == 0,
        tasks_after[id].placement.last_cpu == before.cpu_id,
        after.eligible@.contains((tasks_after[id].sched.vdeadline, id))
            || after.ineligible@.contains((tasks_after[id].sched.veligible, id)),
        after.eligible@.contains((tasks_after[id].sched.vdeadline, id))
            <==> tasks_after[id].sched.veligible <= after.vtime,
        after.total_weight == before.total_weight,
        forall|other: TaskId| other != id && tasks_before.dom().contains(other)
            ==> #[trigger] tasks_after[other] == tasks_before[other],
{
    lemma_settled(before.vtime, before.total_weight, tasks_before[id], start, now);
}

/// Virtual time and the run time of the tasks never go back at a tick.
pub proof fn law_virtual_time_goes_forward(
    before: Scheduler,
    tasks_before: Map<u64, Task>,
    after: Scheduler,
    tasks_after: Map<u64, Task>,
    now: Instant,
    reschedule: bool,
    id: TaskId,
)
    requires
        before.wf(tasks_before),
        Scheduler::tick_effect(before, tasks_before, after, tasks_after, now, reschedule),
        tasks_before.dom().contains(id),
    ensures
        before.vtime <= after.vtime,
        tasks_after.dom().contains(id),
        tasks_before[id].sched.vruntime <= tasks_after[id].sched.vruntime,
        before.current != Some(id) ==> tasks_after[id].sched.vruntime
            == tasks_before[id].sched.vruntime,
{
    if before.current is Some {
        let running = before.current->Some_0;
        assert(before.owns(running) && before.task_wf(tasks_before, running));
    }
}

/// A wakeup that was queued makes its task ready: the task waits in one of the
/// queues with a window that opens no earlier than the CPU and the task have
/// reached, it has lost no run time, and its mark is gone.
pub proof fn law_woken_task_waits_for_its_window(
    before: Scheduler,
    tasks_before: Map<u64, Task>,
    after: Scheduler,
    tasks_after: Map<u64, Task>,
    id: TaskId,
)
    requires
        before.wf(tasks_before),
        after.wf(tasks_after),
        Scheduler::drain_effect(before, tasks_before, after, tasks_after),
        about_to_wake(before, tasks_before, id),
    ensures
        !(tasks_after[id].state.sched is Blocked),
        !tasks_after[id].wake_queued,
        tasks_after[id].sched.vruntime == tasks_before[id].sched.vruntime,
        tasks_after[id].sched.weight == tasks_before[id].sched.weight,
        tasks_after[id].sched.veligible == before.vtime || tasks_after[id].sched.veligible
            == tasks_before[id].sched.vruntime,
        tasks_after[id].sched.veligible >= before.vtime,
        tasks_after[id].sched.veligible >= tasks_before[id].sched.vruntime,
        tasks_before[id].sched.vruntime <= before.vtime ==> after.eligible@.contains(
            (tasks_after[id].sched.vdeadline, id),
        ),
        tasks_before[id].sched.vruntime > before.vtime ==> after.ineligible@.contains(
            (tasks_after[id].sched.veligible, id),
        ),
        after.wake_inbox@.len() == 0,
        after.vtime == before.vtime,
{
    assert(before.owns(id) && before.task_wf(tasks_before, id));
    assert(before.wakes(tasks_before, id));
    assert(tasks_before.dom().contains(id));
    assert(after.in_eligible(tasks_after, id) || after.in_ineligible(tasks_after, id));
}

/// Handling wakeups touches no task but those that were listed, and a listed task
/// that is not blocked only loses its mark.
pub proof fn law_wakeups_touch_nothing_else(
    before: Scheduler,
    tasks_before: Map<u64, Task>,
    after: Scheduler,
    tasks_after: Map<u64, Task>,
    id: TaskId,
)
    requires
        before.wf(tasks_before),
        Scheduler::drain_effect(before, tasks_before, after, tasks_after),
        tasks_before.dom().contains(id),
        !about_to_wake(before, tasks_before, id),
    ensures
        tasks_after[id].sched == tasks_before[id].sched,
        tasks_after[id].state == tasks_before[id].state,
        !before.wake_inbox@.contains(id) ==> tasks_after[id] == tasks_before[id],
        after.eligible@.contains((tasks_after[id].sched.vdeadline, id))
            <==> before.eligible@.contains((tasks_before[id].sched.vdeadline, id)),
        after.ineligible@.contains((tasks_after[id].sched.veligible, id))
            <==> before.ineligible@.contains((tasks_before[id].sched.veligible, id)),
{
    assert(before.in_eligible(tasks_before, id) <==> after.in_eligible(tasks_after, id));
    assert(before.in_ineligible(tasks_before, id) <==> after.in_ineligible(tasks_after, id));
}

/// When a ready task leaves, what it was ahead or behind is spread over the weight
/// that stays: virtual time moves by its distance times its weight over that
/// weight, rounded towards where it was. With nothing left it stands still.
pub proof fn law_departure_spreads_the_lag(
    vtime: u128,
    total_weight: u64,
    meta: super::task::TaskSchedMeta,
)
    requires
        meta.weight > 0,
        (vtime + meta.veligible) * meta.weight + vtime <= u128::MAX,
    ensures
        ({
            let left = departed_vtime(vtime, total_weight, meta);
            let rest = total_weight - meta.weight;
            if rest <= 0 {
                left == vtime
            } else if vtime >= meta.veligible {
                let moved = left - vtime;
                let lag = (vtime - meta.veligible) * meta.weight;
                moved * rest <= lag < (moved + 1) * rest
            } else {
                let moved = vtime - left;
                let lag = (meta.veligible - vtime) * meta.weight;
                moved >= 0 && moved * rest <= lag && (left > 0 ==> lag < (moved + 1) * rest)
            }
        }),
{
    let weight = meta.weight as int;
    let rest = total_weight - weight;
    if rest > 0 {
        let distance = if vtime >= meta.veligible {
            vtime - meta.veligible
        } else {
            meta.veligible - vtime
        };
        let lag = distance * weight;
        assert(0 <= lag <= (vtime + meta.veligible) * weight) by (nonlinear_arith)
            requires
                lag == distance * weight,
                0 <= distance <= vtime + meta.veligible,
                weight > 0,
        ;
        assert(cap_u128(lag) == lag);
        let moved = lag / rest;
        assert(0 <= moved <= lag && moved * rest <= lag && lag < (moved + 1) * rest)
            by (nonlinear_arith)
            requires
                moved == lag / rest,
                rest > 0,
                lag >= 0,
        ;
        let left = departed_vtime(vtime, total_weight, meta);
        if vtime < meta.veligible && left == 0 {
            let shown = vtime - left;
            assert(shown * rest <= lag) by (nonlinear_arith)
                requires
                    0 <= shown <= moved,
                    moved * rest <= lag,
                    rest > 0,
            ;
        }
    }
}

/// A CPU that takes a task over counts its weight if the task can run, and puts
/// it into the queue that belongs to its window. The window opens no earlier than
/// the CPU and the task have reached, and the task keeps its run time.
pub proof fn law_admitted_task_waits_for_its_window(
    before: Scheduler,
    tasks_before: Map<u64, Task>,
    after: Scheduler,
    tasks_after: Map<u64, Task>,
    id: TaskId,
)
    requires
        before.wf(tasks_before),
        after.wf(tasks_after),
        Scheduler::admit_effect(before, tasks_before, after, tasks_after, id),
        before.total_weight + tasks_before[id].sched.weight < u64::MAX,
        tasks_before[id].sched.weight > 0,
    ensures
        after.owned@.dom().contains(id),
        tasks_after[id].sched.cpu_id == before.cpu_id,
        tasks_after[id].sched.vruntime == tasks_before[id].sched.vruntime,
        tasks_after[id].sched.veligible == before.vtime || tasks_after[id].sched.veligible
            == tasks_before[id].sched.vruntime,
        tasks_after[id].sched.veligible >= before.vtime,
        tasks_after[id].sched.veligible >= tasks_before[id].sched.vruntime,
        after.vtime == before.vtime,
        ({
            let runs = tasks_before[id].execution.runnable || !(
            tasks_before[id].state.sched is Blocked);
            &&& after.total_weight == before.total_weight + (if runs {
                tasks_before[id].sched.weight as int
            } else {
                0
            })
            &&& runs <==> !(tasks_after[id].state.sched is Blocked)
            &&& after.eligible@.contains((tasks_after[id].sched.vdeadline, id)) <==> runs
                && tasks_before[id].sched.vruntime <= before.vtime
            &&& after.ineligible@.contains((tasks_after[id].sched.veligible, id)) <==> runs
                && tasks_before[id].sched.vruntime > before.vtime
        }),
        forall|other: TaskId|
            other != id && tasks_before.dom().contains(other) ==> #[trigger] tasks_after[other]
                == tasks_before[other],
{
}

/// A task that leaves the CPU to sleep or to end takes its weight with it and is
/// in no queue; one that only yields keeps its weight and waits in a queue.
pub proof fn law_boundary_keeps_the_weight_of_the_ready(
    before: Scheduler,
    tasks_before: Map<u64, Task>,
    after: Scheduler,
    tasks_after: Map<u64, Task>,
    action: TaskBoundaryAction,
    now: Option<Instant>,
    result: TrapBoundaryFinalize,
    id: TaskId,
)
    requires
        before.wf(tasks_before),
        after.wf(tasks_after),
        before.current == Some(id),
        Scheduler::boundary_effect(
            before,
            tasks_before,
            after,
            tasks_after,
            action,
            now,
            result,
        ),
        0 < tasks_before[id].sched.weight <= before.total_weight,
    ensures
        after.current is None,
        action == TaskBoundaryAction::Outcome(TaskPollOutcome::Ready) ==> {
            &&& after.total_weight == before.total_weight
            &&& after.owned@.dom().contains(id)
            &&& !(tasks_after[id].state.sched is Blocked)
            &&& after.eligible@.contains((tasks_after[id].sched.vdeadline, id))
                || after.ineligible@.contains((tasks_after[id].sched.veligible, id))
            &&& result.reaped is None
        },
        action == TaskBoundaryAction::Outcome(TaskPollOutcome::Blocked) ==> {
            &&& after.total_weight == before.total_weight - tasks_before[id].sched.weight
            &&& after.owned@.dom().contains(id)
            &&& tasks_after[id].state.sched is Blocked
            &&& forall|key: u128| !after.eligible@.contains((key, id))
            &&& forall|key: u128| !after.ineligible@.contains((key, id))
            &&& result.reaped is None
        },
        action is Cancelled || (action matches TaskBoundaryAction::Outcome(
            TaskPollOutcome::Exited(_),
        )) ==> {
            &&& after.total_weight == before.total_weight - tasks_before[id].sched.weight
            &&& !after.owned@.dom().contains(id)
            &&& !tasks_after.dom().contains(id)
            &&& result.reaped matches Some(gone) && gone.id == id && gone.state.terminal is Some
            &&& !after.wake_inbox@.contains(id)
        },
        action matches TaskBoundaryAction::Outcome(TaskPollOutcome::Exited(exit)) ==>
            result.reaped->Some_0.state.terminal == Some(exit),
        action is Cancelled ==> result.reaped->Some_0.state.terminal == Some(
            TaskExit::Cancelled,
        ),
{
    assert(before.owns(id) && before.task_wf(tasks_before, id));
    if action is Cancelled || action matches TaskBoundaryAction::Outcome(
        TaskPollOutcome::Exited(_),
    ) {
        let inbox = before.wake_inbox@;
        if inbox.contains(id) {
            let at = choose|at: int| 0 <= at < inbox.len() && inbox[at] == id;
            lemma_filter_out(inbox, id, at);
            assert forall|k: int| 0 <= k < inbox.remove(at).len() implies inbox.remove(at)[k]
                != id by {
                assert(inbox.remove(at)[k] == if k < at {
                    inbox[k]
                } else {
                    inbox[k + 1]
                });
            }
        } else {
            lemma_filter_out(inbox, id, inbox.len() as int);
        }
    }
}

/// The CPU that gets a new task has the least total weight of all installed CPUs;
/// among those of that weight it has the fewest ready tasks, and among those of
/// that number it has no work if any of them has none.
pub proof fn law_new_task_goes_to_the_lightest(set: SchedulerSet, chosen: usize, other: int)
    requires
        set.lightest(chosen as int),
        set.installed(other),
        forall|c: int| #[trigger]
            set.installed(c) ==> ready_count(set.cpu(c).owned@.dom(), set.tasks@) <= usize::MAX,
    ensures
        set.installed(chosen as int),
        set.cpu(chosen as int).total_weight <= set.cpu(other).total_weight,
        set.cpu(chosen as int).total_weight == set.cpu(other).total_weight ==> ready_count(
            set.cpu(chosen as int).owned@.dom(),
            set.tasks@,
        ) <= ready_count(set.cpu(other).owned@.dom(), set.tasks@),
        set.cpu(chosen as int).total_weight == set.cpu(other).total_weight && ready_count(
            set.cpu(chosen as int).owned@.dom(),
            set.tasks@,
        ) == ready_count(set.cpu(other).owned@.dom(), set.tasks@) && set.cpu(
            chosen as int,
        ).current is Some ==> set.cpu(other).current is Some || set.cpu(other).eligible@
            != Set::<(u128, u64)>::empty() || set.cpu(other).ineligible@ != Set::<
            (u128, u64),
        >::empty() || set.cpu(other).wake_inbox@.len() > 0,
{
    assert(!set.load(other).lighter(set.load(chosen as int)));
}

/// CPUs that are equally light take turns: two choices in a row differ where there
/// is more than one.
pub proof fn law_equal_cpus_take_turns(set: SchedulerSet, candidates: Seq<usize>, hint: int)
    requires
        set.lightest_cpus(candidates),
        candidates.len() > 1,
        0 <= hint,
    ensures
        candidates[hint % (candidates.len() as int)] != candidates[(hint + 1)
            % (candidates.len() as int)],
        set.installed(candidates[hint % (candidates.len() as int)] as int),
{
    let n = candidates.len() as int;
    let a = hint % n;
    let b = (hint + 1) % n;
    assert(0 <= a < n && 0 <= b < n && a != b) by (nonlinear_arith)
        requires
            a == hint % n,
            b == (hint + 1) % n,
            n > 1,
    ;
    if a < b {
        assert(candidates[a] < candidates[b]);
    } else {
        assert(candidates[b] < candidates[a]);
    }
    assert(candidates.contains(candidates[a]));
    assert(set.lightest(candidates[a] as int));
}

/// A CPU that could give work away.
pub open spec fn busy(cpu: Scheduler) -> bool {
    &&& cpu.total_weight > 0
    &&& cpu.current is Some || cpu.wake_inbox@.len() > 0 || (exists|e: (u128, u64)| #[trigger]
        cpu.eligible@.contains(e)) || (exists|e: (u128, u64)| #[trigger]
        cpu.ineligible@.contains(e))
}

proof fn lemma_busy(set: SchedulerSet, c: int, puller: usize)
    ensures
        set.pull_source(c, puller) <==> set.installed(c) && c != puller && busy(set.cpu(c)),
{
    let cpu = set.cpu(c);
    if cpu.eligible@ != Set::<(u128, u64)>::empty() {
        assert(exists|e: (u128, u64)| #[trigger] cpu.eligible@.contains(e)) by {
            if forall|e: (u128, u64)| !#[trigger] cpu.eligible@.contains(e) {
                assert(cpu.eligible@ =~= Set::<(u128, u64)>::empty());
            }
        }
    }
    if cpu.ineligible@ != Set::<(u128, u64)>::empty() {
        assert(exists|e: (u128, u64)| #[trigger] cpu.ineligible@.contains(e)) by {
            if forall|e: (u128, u64)| !#[trigger] cpu.ineligible@.contains(e) {
                assert(cpu.ineligible@ =~= Set::<(u128, u64)>::empty());
            }
        }
    }
}

/// What a CPU pulls comes off a CPU that is ahead by more than one default task
/// and that no other busy one outweighs, and no more often than once a
/// millisecond. The task changes its owner, and only it does.
pub proof fn law_pull_comes_from_the_heaviest(
    before: SchedulerSet,
    after: SchedulerSet,
    cpu_id: usize,
    now: Instant,
    id: TaskId,
) -> (source: usize)
    requires
        before.wf(),
        after.wf(),
        before.installed(cpu_id as int),
        LoadBalancer::pull_effect(before, after, cpu_id, now, PullOutcome::Pulled(id)),
    ensures
        before.installed(source as int),
        source != cpu_id,
        before.cpu(source as int).total_weight > before.cpu(cpu_id as int).total_weight + 1024,
        forall|c: int|
            #![trigger before.cpu(c)]
            before.installed(c) && c != cpu_id && busy(before.cpu(c)) ==> before.cpu(
                c,
            ).total_weight <= before.cpu(source as int).total_weight,
        before.cpu(cpu_id as int).last_balance matches Some(last) ==> last.nanos > now.nanos
            || now.nanos - last.nanos >= 1_000_000,
        before.cpu(source as int).owned@.dom().contains(id),
        !after.cpu(source as int).owned@.dom().contains(id),
        after.cpu(cpu_id as int).owned@.dom().contains(id),
        before.cpu(source as int).current != Some(id),
        before.tasks@[id].placement.migration_allowed,
        before.tasks@[id].placement.migration_ready,
        now.nanos <= u64::MAX && before.tasks@[id].placement.last_cpu == source ==> now.nanos
            - before.tasks@[id].placement.last_stop_nanos >= 250_000,
        after.tasks@[id].sched.vruntime == before.tasks@[id].sched.vruntime,
        after.tasks@[id].sched.weight == before.tasks@[id].sched.weight,
        forall|other: TaskId|
            other != id && before.tasks@.dom().contains(other) ==> #[trigger] after.tasks@[other]
                == before.tasks@[other],
        forall|c: int|
            0 <= c < before.cpus@.len() && c != source && c != cpu_id ==> #[trigger] after.cpus@[c]
                == before.cpus@[c],
{
    let source = choose|source: usize| {
        &&& #[trigger] before.picked(source, cpu_id)
        &&& before.heaviest_source(source as int, cpu_id)
        &&& (LoadBalancer { cpu_id, now }).unbalanced(
            before.cpu(source as int).total_weight,
            before.cpu(cpu_id as int).total_weight,
        )
        &&& SchedulerSet::migration(
            before,
            after,
            source as int,
            cpu_id as int,
            id,
            now,
            MigrationPolicy::Steal,
        )
    };
    assert forall|c: int|
        #![trigger before.cpu(c)]
        before.installed(c) && c != cpu_id && busy(before.cpu(c)) implies before.cpu(
        c,
    ).total_weight <= before.cpu(source as int).total_weight by {
        lemma_busy(before, c, cpu_id);
        assert(before.pull_source(c, cpu_id));
    }
    let cpu = before.cpu(source as int);
    let hot = Duration { nanos: 250_000 };
    assert(cpu.candidate(before.tasks@, id, true, now, hot, false) || cpu.candidate(
        before.tasks@,
        id,
        false,
        now,
        hot,
        false,
    ));
    source
}

/// A CPU that finds the load balanced is not behind any busy CPU by more than one
/// default task, unless it has tried within the last millisecond.
pub proof fn law_balanced_means_no_heavier_cpu(
    before: SchedulerSet,
    after: SchedulerSet,
    cpu_id: usize,
    now: Instant,
    other: int,
)
    requires
        before.wf(),
        before.installed(cpu_id as int),
        LoadBalancer::pull_effect(before, after, cpu_id, now, PullOutcome::Balanced),
        before.installed(other),
        other != cpu_id,
        busy(before.cpu(other)),
    ensures
        before.cpu(other).total_weight <= before.cpu(cpu_id as int).total_weight + 1024 || (
        before.cpu(cpu_id as int).last_balance matches Some(last) && last.nanos <= now.nanos
            && now.nanos - last.nanos < 1_000_000),
        after.tasks == before.tasks,
        after.cpus == before.cpus,
{
    lemma_busy(before, other, cpu_id);
    assert(before.pull_source(other, cpu_id));
    let balancer = LoadBalancer { cpu_id, now };
    if balancer.due(before) {
        let source = choose|source: usize| #[trigger]
            before.picked(source, cpu_id) && !balancer.unbalanced(
                before.cpu(source as int).total_weight,
                before.cpu(cpu_id as int).total_weight,
            );
        let candidates = choose|candidates: Seq<usize>| #[trigger]
            before.heaviest_sources(candidates, cpu_id) && candidates.len() > 0 && source
                == candidates[(before.balance_hint as int) % (candidates.len() as int)];
        assert(candidates.contains(source));
        assert(before.heaviest_source(source as int, cpu_id));
    }
}

/// A CPU that is asked for work hands a task over only to one that it is ahead of
/// by more than one default task, and a task that may move.
pub proof fn law_handover_goes_downhill(
    balancer: LoadBalancer,
    before: SchedulerSet,
    after: SchedulerSet,
    requester: usize,
    id: TaskId,
    notice: super::cpus::WakeNotice,
)
    requires
        before.wf(),
        after.wf(),
        balancer.request_effect(before, after, requester, Ok(Some((id, notice)))),
    ensures
        balancer.cpu_id != requester,
        before.cpu(balancer.cpu_id as int).total_weight > before.cpu(requester as int).total_weight
            + 1024,
        before.cpu(balancer.cpu_id as int).owned@.dom().contains(id),
        !after.cpu(balancer.cpu_id as int).owned@.dom().contains(id),
        after.cpu(requester as int).owned@.dom().contains(id),
        before.cpu(balancer.cpu_id as int).current != Some(id),
        before.tasks@[id].placement.migration_allowed,
        before.tasks@[id].placement.migration_ready,
        notice == super::cpus::WakeNotice::Interrupt(requester),
{
    let cpu = before.cpu(balancer.cpu_id as int);
    let hot = Duration { nanos: 250_000 };
    assert(cpu.candidate(before.tasks@, id, true, balancer.now, hot, false) || cpu.candidate(
        before.tasks@,
        id,
        false,
        balancer.now,
        hot,
        false,
    ) || cpu.candidate(before.tasks@, id, true, balancer.now, hot, true) || cpu.candidate(
        before.tasks@,
        id,
        false,
        balancer.now,
        hot,
        true,
    ));
}

/// The task that a CPU gives away waited in one of its queues; one in the eligible
/// queue that has cooled down comes before all others, and among those the one
/// with the earliest deadline.
pub proof fn law_cooled_eligible_task_moves_first(
    cpu: Scheduler,
    tasks: Map<u64, Task>,
    id: TaskId,
    other: TaskId,
    now: Instant,
    policy: MigrationPolicy,
)
    requires
        cpu.wf(tasks),
        cpu.migration_choice(tasks, id, now, (Duration { nanos: 250_000 }), policy),
        now.nanos <= u64::MAX,
        cpu.eligible@.contains((tasks[other].sched.vdeadline, other)),
        tasks[other].placement.migration_ready,
        tasks[other].placement.migration_allowed,
        tasks[other].placement.last_cpu != cpu.cpu_id || now.nanos
            - tasks[other].placement.last_stop_nanos >= 250_000,
    ensures
        cpu.eligible@.contains((tasks[id].sched.vdeadline, id)),
        tasks[id].sched.vdeadline <= tasks[other].sched.vdeadline,
        tasks[id].placement.last_cpu != cpu.cpu_id || now.nanos
            - tasks[id].placement.last_stop_nanos >= 250_000,
{
    let hot = Duration { nanos: 250_000 };
    assert(cpu.candidate(tasks, other, true, now, hot, false));
    assert(cpu.first_candidate(tasks, id, true, now, hot, false));
}

/// A wakeup goes to the CPU that owns its task, once, behind those that came
/// before it; no other CPU and no other task hears of it.
pub proof fn law_wakeup_goes_to_the_owner(
    before: SchedulerSet,
    after: SchedulerSet,
    id: TaskId,
    cpu: int,
    other: int,
)
    requires
        before.wf(),
        SchedulerSet::woken(before, after, seq![id]),
        before.installed(cpu),
        before.cpu(cpu).owned@.dom().contains(id),
    ensures
        after.cpu(cpu).wake_inbox@ == (if before.tasks@[id].wake_queued {
            before.cpu(cpu).wake_inbox@
        } else {
            before.cpu(cpu).wake_inbox@.push(id)
        }),
        after.tasks@[id].wake_queued,
        after.tasks@[id].sched == before.tasks@[id].sched,
        after.tasks@[id].state == before.tasks@[id].state,
        before.installed(other) && other != cpu ==> after.cpu(other).wake_inbox@ == before.cpu(
            other,
        ).wake_inbox@,
        forall|task: TaskId|
            task != id && before.tasks@.dom().contains(task) ==> #[trigger] after.tasks@[task]
                == before.tasks@[task],
        before.installed(other) ==> after.cpu(other).current == before.cpu(other).current,
{
    let ids = seq![id];
    assert(ids.drop_last() =~= Seq::<TaskId>::empty());
    assert(before.owner(id, cpu));
    assert(before.cpu(cpu).task_wf(before.tasks@, id));
    assert(ids.contains(id)) by {
        assert(ids[0] == id);
    }
    assert(before.inbox_after(cpu, ids.drop_last()) == before.cpu(cpu).wake_inbox@);
    assert(after.installed(cpu));
    if before.installed(other) && other != cpu {
        assert(!before.owner(id, other));
        assert(before.inbox_after(other, ids.drop_last()) == before.cpu(other).wake_inbox@);
        assert(after.installed(other));
    }
    if before.installed(other) {
        assert(after.installed(other));
    }
    assert forall|task: TaskId|
        task != id && before.tasks@.dom().contains(task) implies #[trigger] after.tasks@[task]
        == before.tasks@[task] by {
        assert(!ids.contains(task));
    }
}

/// A CPU that gets work from itself reschedules, and one that gets it from another
/// is interrupted.
pub proof fn law_work_is_announced(target: usize, current: usize)
    ensures
        target == current <==> super::cpus::notice_for(target, current)
            == super::cpus::WakeNotice::PreemptLocal,
        target != current ==> super::cpus::notice_for(target, current)
            == super::cpus::WakeNotice::Interrupt(target),
{
}

/// Tasks that are asked to stop are marked, wherever they are; all others are left
/// alone, and nobody stops at once.
pub proof fn law_only_asked_tasks_stop(
    before: SchedulerSet,
    after: SchedulerSet,
    ids: Seq<TaskId>,
    id: TaskId,
)
    requires
        SchedulerSet::asks(before, after, ids),
        before.tasks@.dom().contains(id),
    ensures
        ids.contains(id) ==> after.tasks@[id].execution.cancel_requested,
        !ids.contains(id) ==> after.tasks@[id] == before.tasks@[id],
        after.tasks@[id].state == before.tasks@[id].state,
        after.tasks@[id].sched == before.tasks@[id].sched,
        after.cpus == before.cpus,
        after.tasks@.dom() == before.tasks@.dom(),
{
    assert(after.tasks@.dom() =~= before.tasks@.dom());
}

/// Inside a section that must not be preempted a trap leaves the running task
/// alone, unless the task itself has published what is to become of it.
pub proof fn law_section_is_not_preempted(
    before: SchedulerDispatch,
    set: SchedulerSet,
    after: SchedulerDispatch,
    set_after: SchedulerSet,
    rsp: usize,
    now: Option<Instant>,
    step: ScheduleStep,
    id: TaskId,
)
    requires
        SchedulerDispatch::boundary(before, set, after, set_after, false, rsp, now, step),
        set.cpu(before.cpu_id as int).current == Some(id),
        set.tasks@[id].execution.boundary_action is None,
        before.preempt.count > 0 || !before.preempt.need_resched,
    ensures
        step == ScheduleStep::Stay,
        set_after.cpus@ == set.cpus@,
        set_after.tasks == set.tasks,
        after == before,
{
}

/// Outside of such sections a due reschedule takes the running task off its CPU at
/// the next trap on its own stack, and the task goes on waiting for the CPU.
pub proof fn law_due_reschedule_preempts(
    before: SchedulerDispatch,
    set: SchedulerSet,
    after: SchedulerDispatch,
    set_after: SchedulerSet,
    rsp: usize,
    now: Option<Instant>,
    step: ScheduleStep,
    id: TaskId,
)
    requires
        set.wf(),
        set.installed(before.cpu_id as int),
        set_after.wf(),
        SchedulerDispatch::boundary(before, set, after, set_after, false, rsp, now, step),
        set.cpu(before.cpu_id as int).current == Some(id),
        set.tasks@[id].execution.boundary_action is None,
        set.tasks@[id].kernel_stack.first() <= rsp < set.tasks@[id].kernel_stack.limit(),
        before.preempt.count == 0,
        before.preempt.need_resched,
    ensures
        step == ScheduleStep::Select,
        set_after.cpu(before.cpu_id as int).current is None,
        set_after.cpu(before.cpu_id as int).owned@.dom().contains(id),
        !(set_after.tasks@[id].state.sched is Blocked),
{
    assert(set.cpu(before.cpu_id as int).owns(id));
}

/// On its fallback stack a CPU looks for work exactly where a reschedule is due or
/// something is there to run, and the due reschedule is taken.
pub proof fn law_idle_cpu_looks_for_work(
    before: SchedulerDispatch,
    set: SchedulerSet,
    after: SchedulerDispatch,
    set_after: SchedulerSet,
    rsp: usize,
    now: Option<Instant>,
    step: ScheduleStep,
)
    requires
        SchedulerDispatch::boundary(before, set, after, set_after, true, rsp, now, step),
        set.cpu(before.cpu_id as int).current is None,
    ensures
        set_after == set,
        !after.preempt.need_resched,
        before.preempt.need_resched ==> step == ScheduleStep::Select,
        (exists|e: (u128, u64)| #[trigger] set.cpu(before.cpu_id as int).eligible@.contains(e)) ==>
            step == ScheduleStep::Select,
        (exists|e: (u128, u64)| #[trigger] set.cpu(before.cpu_id as int).ineligible@.contains(e))
            ==> step == ScheduleStep::Select,
        set.cpu(before.cpu_id as int).wake_inbox@.len() > 0 ==> step == ScheduleStep::Select,
        step == ScheduleStep::Select || step == ScheduleStep::Stay,
{
}

/// A reschedule is served only outside of all sections, and only if it is due.
pub proof fn law_reschedule_waits_for_the_last_section(state: PreemptState)
    ensures
        state.preemptible() <==> state.count == 0 && state.need_resched,
        state.count < usize::MAX ==> entered(state).count == state.count + 1,
        state.count > 0 ==> left(state).count == state.count - 1,
        entered(state).need_resched == state.need_resched,
        left(state).need_resched == state.need_resched,
{
}

/// A user task starts exactly where its code is mapped for user execution in the
/// image, its stack pointer is a multiple of sixteen with writable user stack
/// below it, and its local storage is absent or in a user segment. The first of
/// these that fails is reported.
pub proof fn law_start_is_checked(start: UserStart, probes: StartProbes)
    ensures
        ({
            let code = start.entry != 0 && probes.entry.segment == Some(VmLayoutSegment::UserImage)
                && (probes.entry.mapping matches Some(flags) && flags.user && flags.execute);
            let stack = start.stack_pointer != 0 && start.stack_pointer % 16 == 0
                && probes.below_stack.segment == Some(VmLayoutSegment::UserStack) && (
            probes.below_stack.mapping matches Some(flags) && flags.user && flags.write);
            let local = start.tls_base == 0 || (probes.tls.segment is Some && !(
            probes.tls.segment->0 is KernelStack) && !(probes.tls.segment->0 is Kernel));
            &&& start_check(start, probes) is Ok <==> code && stack && local
            &&& !code ==> start_check(start, probes) == Err::<(), ProcessSpawnError>(
                ProcessSpawnError::InvalidInstructionPointer,
            )
            &&& code && !stack ==> start_check(start, probes) == Err::<(), ProcessSpawnError>(
                ProcessSpawnError::InvalidStackPointer,
            )
            &&& code && stack && !local ==> start_check(start, probes) == Err::<
                (),
                ProcessSpawnError,
            >(ProcessSpawnError::InvalidTlsBase)
        }),
{
}

/// A task that runs user code ends with the value of an exit call that succeeded,
/// and goes on after any other call; it is faulted by what cannot be resolved, and
/// goes back after what was.
pub proof fn law_user_task_goes_on_or_ends(
    run: UserRun,
    call: ExitingCall,
    succeeded: bool,
    value: usize,
    delivery: Option<ServiceDelivery>,
    vector: usize,
    addr: usize,
    write: bool,
)
    ensures
        run.after(UserEvent::Turn { cancel_requested: false }).1 == (if run.has_context {
            UserAction::Enter
        } else {
            UserAction::End(TaskExit::Killed)
        }),
        run.after(UserEvent::Turn { cancel_requested: true }).1 == UserAction::End(
            TaskExit::Cancelled,
        ),
        run.after(UserEvent::Trap { reason: TrapReason::Syscall, call }).1 == UserAction::Dispatch,
        run.after(UserEvent::Trap { reason: TrapReason::Interrupt(vector), call }).1
            == UserAction::Serve(vector),
        run.after(UserEvent::Trap { reason: TrapReason::PageFault { addr, write }, call }).1
            == (UserAction::Resolve { addr, write }),
        run.after(UserEvent::Trap { reason: TrapReason::UndefinedInstruction, call }).1
            == UserAction::End(TaskExit::Faulted),
        run.after(UserEvent::Trap { reason: TrapReason::UnalignedAccess, call }).1
            == UserAction::End(TaskExit::Faulted),
        run.after(UserEvent::Trap { reason: TrapReason::GeneralFault(vector), call }).1
            == UserAction::End(TaskExit::Faulted),
        run.after(UserEvent::Served).1 == UserAction::PutBack,
        run.after(UserEvent::Paged(true)).1 == UserAction::PutBack,
        run.after(UserEvent::Paged(false)).1 == UserAction::End(TaskExit::Faulted),
        run.after(UserEvent::Resolved(None)).1 == UserAction::End(TaskExit::Faulted),
        run.after(UserEvent::Resolved(Some(ProcessUserFaultResolution::Resume))).1
            == UserAction::PutBack,
        ({
            let calling = UserRun { stage: UserStage::Calling(call), has_context: false };
            let action = calling.after(UserEvent::Returned { succeeded, value, delivery }).1;
            &&& call is ProcessExit && succeeded ==> action == UserAction::End(
                TaskExit::ProcessExited(value),
            )
            &&& call is TaskExit && succeeded ==> action == UserAction::End(
                TaskExit::ThreadExited(value),
            )
            &&& call is Other || !succeeded ==> action == (match delivery {
                Some(delivery) => UserAction::PutBackDelivery(delivery),
                None => UserAction::PutBackResult,
            })
        }),
{
}

/// The fallback stacks lie side by side: each has one guard page and four pages of
/// stack, and the next one begins where it ends.
pub proof fn law_fallback_stacks_lie_side_by_side(stacks: CpuFallbackStack, cpu: int)
    ensures
        stacks.slot_base(0) == stacks.segment_start,
        stacks.slot_base(cpu + 1) == stacks.slot_base(cpu) + 5 * 4096,
        stacks.fits(cpu) <==> stacks.slot_base(cpu) + 5 * 4096 <= usize::MAX,
{
}

/// A task is hot on the processor where it last stopped until the threshold has
/// passed since then, and nowhere else.
pub proof fn law_task_stays_hot_for_the_threshold(
    task: Task,
    cpu_id: usize,
    now: Instant,
    threshold: Duration,
)
    requires
        task.placement.last_stop_nanos <= now.nanos <= u64::MAX,
        threshold.nanos <= u64::MAX,
    ensures
        task.placement.cache_hot(cpu_id, now, threshold) <==> task.placement.last_cpu == cpu_id
            && now.nanos < task.placement.last_stop_nanos + threshold.nanos,
{
}

/// A task that has just moved, or that may not move, is not given away. A hot
/// one is given away only on request.
pub proof fn law_moved_task_stays_until_it_has_run(
    cpu: Scheduler,
    tasks: Map<u64, Task>,
    id: TaskId,
    now: Instant,
    threshold: Duration,
    policy: MigrationPolicy,
)
    requires
        cpu.migration_choice(tasks, id, now, threshold, policy),
    ensures
        tasks[id].placement.migration_ready,
        tasks[id].placement.migration_allowed,
        tasks[id].placement.cache_hot(cpu.cpu_id, now, threshold) ==> policy is BalanceRequest,
        forall|task: Task| tasks[id] != #[trigger] resting(task),
        forall|task: Task|
            !(#[trigger] resting(task)).placement.migration_ready && resting(task).sched
                == task.sched && resting(task).execution == task.execution,
{
}

/// A task that is given away leaves the processor, its queues and its weight, and
/// nothing else there changes place.
pub proof fn law_given_task_leaves_its_cpu(
    before: Scheduler,
    tasks_before: Map<u64, Task>,
    after: Scheduler,
    tasks_after: Map<u64, Task>,
    id: TaskId,
    now: Instant,
    threshold: Duration,
    policy: MigrationPolicy,
)
    requires
        Scheduler::migration_effect(
            before,
            tasks_before,
            after,
            tasks_after,
            id,
            now,
            threshold,
            policy,
        ),
    ensures
        before.current != Some(id),
        !after.owned@.contains_key(id),
        forall|stamp: u128|
            !#[trigger] after.eligible@.contains((stamp, id)) && !after.ineligible@.contains(
                (stamp, id),
            ),
        forall|stamp: u128, other: TaskId|
            other != id ==> (#[trigger] after.eligible@.contains((stamp, other))
                <==> before.eligible@.contains((stamp, other))),
        forall|stamp: u128, other: TaskId|
            other != id ==> (#[trigger] after.ineligible@.contains((stamp, other))
                <==> before.ineligible@.contains((stamp, other))),
        before.total_weight >= tasks_before[id].sched.weight > 0 ==> after.total_weight
            == before.total_weight - tasks_before[id].sched.weight,
        tasks_after[id].sched.exec_start is None,
        tasks_after[id].sched.exec_runtime.nanos == 0,
        tasks_after[id].sched.vruntime == tasks_before[id].sched.vruntime,
        forall|other: TaskId| other != id ==> #[trigger] tasks_after[other] == tasks_before[other],
{
}

/// The clock of the kernel counts the ticks of the first processor alone, and
/// begins again at zero past the largest number.
pub proof fn law_first_cpu_keeps_the_ticks(
    before: TickState,
    after: TickState,
    cpu_id: usize,
    now: Instant,
    woken: Seq<SleepWake>,
)
    requires
        TickState::advanced(before, after, cpu_id, now, woken),
    ensures
        cpu_id != 0 ==> after.cpu0_ticks == before.cpu0_ticks,
        cpu_id == 0 ==> after.cpu0_ticks == (before.cpu0_ticks + 1) % 0x1_0000_0000_0000_0000,
        before.timer is Some <==> after.timer is Some,
{
}

/// A task that is about to run counts as started and may not move before it has
/// run. Where its end was asked for, that is what its run comes to. Nothing else
/// of it changes, and no other task does.
pub proof fn law_dispatched_task_has_started(dispatch: SchedulerDispatch, set: SchedulerSet, id: TaskId)
    requires
        set.cpu(dispatch.cpu_id as int).current == Some(id),
    ensures
        ({
            let before = set.tasks@[id];
            let after = dispatch.dispatched(set)[id];
            &&& after.placement.started
            &&& !after.placement.migration_ready
            &&& before.execution.cancel_requested ==> after.execution.boundary_action == Some(
                TaskBoundaryAction::Cancelled,
            )
            &&& !before.execution.cancel_requested ==> after.execution == before.execution
            &&& after.execution.cancel_requested == before.execution.cancel_requested
            &&& after.sched == before.sched
            &&& after.state == before.state
            &&& after.placement.last_cpu == before.placement.last_cpu
            &&& after.placement.last_stop_nanos == before.placement.last_stop_nanos
            &&& after.placement.migration_allowed == before.placement.migration_allowed
        }),
        forall|other: TaskId|
            other != id ==> #[trigger] dispatch.dispatched(set)[other] == set.tasks@[other],
{
}

/// A new task has the weight of one share and a slice of four milliseconds, waits
/// to be made ready, and has run nowhere. Nothing keeps it from moving.
pub proof fn law_new_task_has_not_run(id: TaskId, process_id: u64, kernel_stack: VmRange)
    ensures
        ({
            let task = Task::shell(id, process_id, kernel_stack);
            &&& task.id == id
            &&& task.process_id == process_id
            &&& task.kernel_stack == kernel_stack
            &&& task.state.sched is Blocked
            &&& task.state.terminal is None
            &&& task.sched.weight == 1024
            &&& task.sched.slice.nanos == 4 * 1000 * 1000
            &&& task.sched.vruntime == 0
            &&& task.sched.exec_runtime.nanos == 0
            &&& task.sched.exec_start is None
            &&& !task.execution.runnable
            &&& !task.execution.cancel_requested
            &&& task.execution.recorded_exit is None
            &&& !task.placement.started
            &&& !task.placement.migration_ready
            &&& task.placement.migration_allowed
            &&& !task.wake_queued
            &&& forall|cpu: usize, now: Instant, threshold: Duration|
                cpu < usize::MAX ==> !#[trigger] task.placement.cache_hot(cpu, now, threshold)
        }),
{
}

/// A task that was withdrawn before it ran has no wakeup left on its processor.
/// Those of the others stay.
pub proof fn law_withdrawn_task_has_no_wakeup(before: Scheduler, after: Scheduler, id: TaskId, other: TaskId)
    requires
        Scheduler::withdrawn(before, after, id),
        before.owned@.contains_key(id),
    ensures
        !after.wake_inbox@.contains(id),
        other != id ==> (after.wake_inbox@.contains(other) <==> before.wake_inbox@.contains(other)),
        after.eligible == before.eligible,
        after.ineligible == before.ineligible,
        after.total_weight == before.total_weight,
        after.vtime == before.vtime,
        after.current == before.current,
{
    lemma_kept(before.wake_inbox@, id, id);
    lemma_kept(before.wake_inbox@, id, other);
}

proof fn lemma_kept(ids: Seq<u64>, gone: u64, id: u64)
    ensures
        without(ids, gone).contains(id) <==> ids.contains(id) && id != gone,
    decreases ids.len(),
{
    reveal(Seq::filter);
    if ids.len() > 0 {
        let rest = ids.drop_last();
        lemma_kept(rest, gone, id);
        let kept = without(rest, gone);
        let all = without(ids, gone);
        assert(all == if ids.last() != gone {
            kept.push(ids.last())
        } else {
            kept
        });
        if rest.contains(id) {
            let k = choose|k: int| 0 <= k < rest.len() && rest[k] == id;
            assert(ids[k] == id);
        }
        if ids.contains(id) && ids.last() != id {
            let k = choose|k: int| 0 <= k < ids.len() && ids[k] == id;
            assert(rest[k] == id);
        }
        if ids.last() != gone {
            assert(all[kept.len() as int] == ids.last());
            if kept.contains(id) {
                let k = choose|k: int| 0 <= k < kept.len() && kept[k] == id;
                assert(all[k] == id);
            }
            if all.contains(id) && id != ids.last() {
                let k = choose|k: int| 0 <= k < all.len() && all[k] == id;
                assert(kept[k] == id);
            }
        }
    }
}

/// A task that is taken over stays ready in the way it was: preempted, or by its
/// own choice. One that was blocked but may run again is ready by its own choice.
pub proof fn law_admitted_task_stays_ready(cpu: Scheduler, task: Task)
    ensures
        task.state.sched is PreemptReady ==> cpu.admitted(task).state.sched is PreemptReady,
        task.state.sched is AsyncReady ==> cpu.admitted(task).state.sched is AsyncReady,
        task.state.sched is Blocked && task.execution.runnable ==> cpu.admitted(task).state.sched
            is AsyncReady,
        task.state.sched is Blocked && !task.execution.runnable ==> cpu.admitted(task).state.sched
            is Blocked,
        cpu.admitted(task).state.terminal == task.state.terminal,
{
}

/// The task that a processor remembers may move once the processor has left it, as
/// long as it still owns the task. No other task is touched.
pub proof fn law_remembered_task_may_move(
    dispatch: SchedulerDispatch,
    set: SchedulerSet,
    id: TaskId,
)
    ensures
        dispatch.deferred == id && id != 0 && set.owner(id, dispatch.cpu_id as int)
            ==> dispatch.flushed(set)[id].placement.migration_ready && dispatch.flushed(set)[id].sched
            == set.tasks@[id].sched && dispatch.flushed(set)[id].execution
            == set.tasks@[id].execution,
        dispatch.deferred != id || id == 0 || !set.owner(id, dispatch.cpu_id as int)
            ==> dispatch.flushed(set)[id] == set.tasks@[id],
{
}

/// A task that gives way is ready by its own choice, and a reschedule is due.
pub proof fn law_giving_way_is_a_choice(
    before: SchedulerDispatch,
    set: SchedulerSet,
    after: SchedulerDispatch,
    set_after: SchedulerSet,
    id: TaskId,
)
    requires
        SchedulerDispatch::gives_way(before, set, after, set_after),
        set.installed(before.cpu_id as int),
    ensures
        after.preempt.need_resched,
        after.preempt.count == before.preempt.count,
        set.cpu(before.cpu_id as int).current == Some(id)
            ==> set_after.tasks@[id].execution.ready_state is Async && set_after.tasks@[id].sched
            == set.tasks@[id].sched && set_after.tasks@[id].placement == set.tasks@[id].placement,
        set.cpu(before.cpu_id as int).current != Some(id) ==> set_after.tasks@[id]
            == set.tasks@[id],
{
}

/// As long as a task of either queue has cooled down, no hot one is given away.
pub proof fn law_cooled_task_moves_before_hot(
    cpu: Scheduler,
    tasks: Map<u64, Task>,
    id: TaskId,
    other: TaskId,
    now: Instant,
    policy: MigrationPolicy,
)
    requires
        cpu.wf(tasks),
        cpu.migration_choice(tasks, id, now, (Duration { nanos: 250_000 }), policy),
        now.nanos <= u64::MAX,
        cpu.eligible@.contains((tasks[other].sched.vdeadline, other)) || cpu.ineligible@.contains(
            (tasks[other].sched.veligible, other),
        ),
        tasks[other].placement.migration_ready,
        tasks[other].placement.migration_allowed,
        tasks[other].placement.last_cpu != cpu.cpu_id || now.nanos
            - tasks[other].placement.last_stop_nanos >= 250_000,
    ensures
        tasks[id].placement.last_cpu != cpu.cpu_id || now.nanos
            - tasks[id].placement.last_stop_nanos >= 250_000,
        cpu.eligible@.contains((tasks[id].sched.vdeadline, id)) || cpu.ineligible@.contains(
            (tasks[id].sched.veligible, id),
        ),
{
    let hot = Duration { nanos: 250_000 };
    if cpu.eligible@.contains((tasks[other].sched.vdeadline, other)) {
        assert(cpu.candidate(tasks, other, true, now, hot, false));
    } else {
        assert(cpu.candidate(tasks, other, false, now, hot, false));
    }
    if cpu.has_candidate(tasks, true, now, hot, false) {
        assert(cpu.first_candidate(tasks, id, true, now, hot, false));
    } else {
        assert(cpu.first_candidate(tasks, id, false, now, hot, false));
    }
}

/// Each processor that owns a woken task is told, once for each and in order. The
/// processor on which this happens is told to reschedule, any other is interrupted.
pub proof fn law_owners_of_woken_tasks_are_told(
    set: SchedulerSet,
    ids: Seq<TaskId>,
    current: usize,
    cpus: Seq<int>,
)
    requires
        cpus.len() == ids.len(),
        forall|i: int| 0 <= i < ids.len() ==> 0 <= #[trigger] cpus[i] <= usize::MAX,
        forall|i: int| 0 <= i < ids.len() ==> set.owner(ids[i], #[trigger] cpus[i]),
        forall|i: int, c: int|
            0 <= i < ids.len() && #[trigger] set.owner(ids[i], c) ==> c == cpus[i],
    ensures
        set.notices(ids, current).len() == ids.len(),
        forall|i: int|
            0 <= i < ids.len() ==> (#[trigger] set.notices(ids, current)[i] is PreemptLocal <==> cpus[i]
                == current),
        forall|i: int|
            0 <= i < ids.len() && cpus[i] != current ==> #[trigger] set.notices(ids, current)[i]
                == WakeNotice::Interrupt(cpus[i] as usize),
    decreases ids.len(),
{
    if ids.len() > 0 {
        let last = ids.len() - 1;
        let rest = ids.drop_last();
        let homes = cpus.drop_last();
        assert forall|i: int, c: int|
            0 <= i < rest.len() && #[trigger] set.owner(rest[i], c) implies c == homes[i] by {
            assert(set.owner(ids[i], c));
        }
        law_owners_of_woken_tasks_are_told(set, rest, current, homes);
        assert(set.owner(ids[last], cpus[last]));
        assert(set.owner(ids[last], set.home(ids.last())));
        let before = set.notices(rest, current);
        assert forall|i: int| 0 <= i < rest.len() implies set.notices(ids, current)[i]
            == #[trigger] before[i] by {}
    }
}

/// A task that nobody owns is announced to nobody.
pub proof fn law_unowned_tasks_are_not_told(set: SchedulerSet, id: TaskId, current: usize)
    requires
        forall|c: int| !#[trigger] set.owner(id, c),
    ensures
        set.notices(seq![id], current).len() == 0,
{
    assert(seq![id].drop_last() =~= Seq::empty());
    assert(set.notices(seq![id].drop_last(), current).len() == 0);
}

/// A task that is woken brings its weight, and one that was ready or is not owned
/// brings none.
pub proof fn law_woken_tasks_bring_their_weight(
    cpu: Scheduler,
    tasks: Map<u64, Task>,
    ids: Seq<u64>,
    id: TaskId,
)
    requires
        tasks[id].sched.weight > 0,
    ensures
        wake_weight(cpu, tasks, Seq::empty()) == 0,
        cpu.owned@.contains_key(id) && tasks[id].state.sched is Blocked ==> wake_weight(
            cpu,
            tasks,
            ids.push(id),
        ) == wake_weight(cpu, tasks, ids) + tasks[id].sched.weight,
        !cpu.owned@.contains_key(id) || !(tasks[id].state.sched is Blocked) ==> wake_weight(
            cpu,
            tasks,
            ids.push(id),
        ) == wake_weight(cpu, tasks, ids),
{
    assert(ids.push(id).drop_last() =~= ids);
}

/// Choices among equals go round one by one.
pub proof fn law_choices_go_round(set: SchedulerSet)
    ensures
        set.balance_hint < usize::MAX ==> set.next_hint() == set.balance_hint + 1,
        set.balance_hint == usize::MAX ==> set.next_hint() == 0,
{
}

} // verus!

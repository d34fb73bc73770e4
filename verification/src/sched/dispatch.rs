//! Scheduling decisions of one CPU at its trap boundaries.
//!
//! The machine performs the traps, saves and loads frames and switches address
//! spaces; what is to happen at each boundary is decided here.

use vstd::prelude::*;

use super::balance::{TickReport, TickState};
use super::clock::Instant;
use super::cpus::{SchedulerSet, WakeNotice};
use super::preempt::{
    preempt_count_local, preempt_pending_local, preempt_request_local, preempt_take_local,
    PreemptState,
};
use super::scheduler::{Scheduler, SchedulerError, TrapBoundaryFinalize};
use super::stack::CpuFallbackStack;
use super::task::{
    Task, TaskBoundaryAction, TaskExecution, TaskId, TaskPlacement, TaskPollOutcome,
    TaskReadyState, TrapFrame,
};
use crate::object::ObjectError;

verus! {

/// Scheduling state that belongs to one CPU alone.
#[derive(Debug, Clone, Copy, PartialEq, Eq, Structural)]
pub struct SchedulerDispatch {
    pub cpu_id: usize,
    pub preempt: PreemptState,
    /// Task that may migrate once its stack is no longer in use; zero if none.
    pub deferred: TaskId,
}

/// The task table after a change to what the dispatcher keeps of a task.
pub open spec fn annotated(
    tasks: Map<u64, Task>,
    id: TaskId,
    execution: TaskExecution,
    placement: TaskPlacement,
) -> Map<u64, Task> {
    tasks.insert(id, Task { execution, placement, ..tasks[id] })
}

/// The time, or the start of the clock where there is none yet.
pub open spec fn clock_or_start(now: Option<Instant>) -> Instant {
    match now {
        Some(now) => now,
        None => Instant { nanos: 0 },
    }
}

/// What a trap boundary leads to.
#[derive(Debug, Clone, Copy, PartialEq, Eq, Structural)]
pub enum ScheduleStep {
    /// The trap returns to where it came from.
    Stay,
    /// The next task is to be chosen.
    Select,
    /// The running task has ended: it is to be reaped, and then the next one chosen.
    Reap(Task),
}

impl SchedulerDispatch {
    /// The state of a CPU that has not scheduled yet.
    pub fn new(cpu_id: usize) -> (dispatch: Self)
        ensures
            dispatch.cpu_id == cpu_id,
            dispatch.preempt == (PreemptState { count: 0, need_resched: false }),
            dispatch.deferred == 0,
    {
        SchedulerDispatch { cpu_id, preempt: PreemptState::new(), deferred: 0 }
    }

    /// Whether a stack pointer lies on this CPU's fallback stack.
    pub fn trap_on_fallback_stack(&self, stacks: &CpuFallbackStack, rsp: usize) -> (inside: bool)
        requires
            stacks.fits(self.cpu_id as int),
        ensures
            inside == self.on_fallback(*stacks, rsp),
    {
        stacks.contains(self.cpu_id, rsp)
    }

    pub open spec fn on_fallback(&self, stacks: CpuFallbackStack, rsp: usize) -> bool {
        let base = stacks.slot_base(self.cpu_id as int);
        base <= rsp < base + super::stack::FALLBACK_SLOT_SIZE
    }

    /// Remembers a task that may migrate after the next flush.
    pub fn defer_migration_ready(&mut self, task_id: TaskId)
        ensures
            *final(self) == (SchedulerDispatch { deferred: task_id, ..*old(self) }),
    {
        self.deferred = task_id;
    }

    /// The tasks after a flush: the remembered one may migrate, if this CPU
    /// still owns it.
    pub open spec fn flushed(&self, set: SchedulerSet) -> Map<u64, Task> {
        let id = self.deferred;
        if id != 0 && set.owner(id, self.cpu_id as int) {
            annotated(
                set.tasks@,
                id,
                set.tasks@[id].execution,
                TaskPlacement { migration_ready: true, ..set.tasks@[id].placement },
            )
        } else {
            set.tasks@
        }
    }

    /// Lets the remembered task migrate.
    pub fn flush_deferred_migration_ready(&mut self, set: &mut SchedulerSet)
        requires
            old(set).wf(),
        ensures
            final(set).wf(),
            *final(self) == (SchedulerDispatch { deferred: 0, ..*old(self) }),
            final(set).cpus == old(set).cpus,
            final(set).balance_hint == old(set).balance_hint,
            final(set).tasks@ == old(self).flushed(*old(set)),
    {
        let task_id: TaskId = self.deferred;
        self.deferred = 0;
        if task_id == 0 {
            return;
        }
        match set.task_on_cpu(self.cpu_id, task_id) {
            Some(task) => {
                let mut placement = task.placement;
                placement.set_migration_ready(true);
                assert(set.owner(task_id, self.cpu_id as int));
                set.annotate(task_id, task.execution, placement);
            },
            None => {},
        }
    }

    /// Boundary action that the running task has published.
    pub open spec fn published(&self, set: SchedulerSet) -> Option<TaskBoundaryAction> {
        match set.cpu(self.cpu_id as int).current {
            Some(id) => set.tasks@[id].execution.boundary_action,
            None => None,
        }
    }

    /// The tasks once the published action is taken.
    pub open spec fn action_taken(&self, set: SchedulerSet) -> Map<u64, Task> {
        let id = set.cpu(self.cpu_id as int).current->Some_0;
        annotated(
            set.tasks@,
            id,
            TaskExecution { boundary_action: None, ..set.tasks@[id].execution },
            set.tasks@[id].placement,
        )
    }

    /// What a trap in kernel mode does on an installed CPU before the next
    /// task is chosen.
    pub open spec fn boundary(
        before: SchedulerDispatch,
        set: SchedulerSet,
        after: SchedulerDispatch,
        set_after: SchedulerSet,
        on_fallback: bool,
        rsp: usize,
        now: Option<Instant>,
        step: ScheduleStep,
    ) -> bool {
        let c = before.cpu_id as int;
        let cpu = set.cpu(c);
        if on_fallback {
            &&& set_after == set
            &&& after == (SchedulerDispatch {
                preempt: (PreemptState { need_resched: false, ..before.preempt }),
                ..before
            })
            &&& step == (if before.preempt.need_resched || cpu.has_work() {
                ScheduleStep::Select
            } else {
                ScheduleStep::Stay
            })
        } else {
            match before.published(set) {
                Some(action) => {
                    let tasks = before.action_taken(set);
                    match cpu.trapped_task(tasks, rsp) {
                        None => {
                            &&& step == ScheduleStep::Stay
                            &&& after == before
                            &&& set_after.cpus == set.cpus
                            &&& set_after.balance_hint == set.balance_hint
                            &&& set_after.tasks@ == tasks
                        },
                        Some(_) => exists|finalized: TrapBoundaryFinalize| {
                            &&& #[trigger] Scheduler::boundary_effect(
                                cpu,
                                tasks,
                                set_after.cpu(c),
                                set_after.tasks@,
                                action,
                                now,
                                finalized,
                            )
                            &&& set_after.installed(c)
                            &&& set_after.balance_hint == set.balance_hint
                            &&& set_after.others_after_boundary(set, c, finalized)
                            &&& step == (match finalized.reaped {
                                Some(task) => ScheduleStep::Reap(task),
                                None => ScheduleStep::Select,
                            })
                            &&& after == (SchedulerDispatch {
                                deferred: match finalized.migration_ready {
                                    Some(id) => id,
                                    None => before.deferred,
                                },
                                ..before
                            })
                        },
                    }
                },
                None => match cpu.trapped_task(set.tasks@, rsp) {
                    Some(id) if before.preempt.preemptible() => {
                        &&& step == ScheduleStep::Select
                        &&& after == (SchedulerDispatch { deferred: id, ..before })
                        &&& set_after.only_cpu_changed(set, c)
                        &&& set_after.balance_hint == set.balance_hint
                        &&& Scheduler::preempt_effect(
                            cpu,
                            set.tasks@,
                            set_after.cpu(c),
                            set_after.tasks@,
                            id,
                            now,
                        )
                    },
                    _ => {
                        &&& step == ScheduleStep::Stay
                        &&& after == before
                        &&& set_after.cpus@ == set.cpus@
                        &&& set_after.tasks == set.tasks
                        &&& set_after.balance_hint == set.balance_hint
                    },
                },
            }
        }
    }

    /// First half of a scheduling trap: settles what becomes of the running
    /// task. A trap on the fallback stack leaves it as it is, also where a task
    /// counts as running there.
    pub fn schedule_current_cpu(
        &mut self,
        set: &mut SchedulerSet,
        stacks: &CpuFallbackStack,
        kernel_mode: bool,
        rsp: usize,
        now: Option<Instant>,
    ) -> (result: Result<ScheduleStep, SchedulerError>)
        requires
            old(set).wf(),
            stacks.fits(old(self).cpu_id as int),
        ensures
            final(set).wf(),
            !kernel_mode ==> result == Ok::<ScheduleStep, SchedulerError>(ScheduleStep::Stay),
            kernel_mode ==> match old(set).cpu_error(old(self).cpu_id) {
                Some(error) => result == Err::<ScheduleStep, SchedulerError>(error),
                None => result is Ok && Self::boundary(
                    *old(self),
                    *old(set),
                    *final(self),
                    *final(set),
                    old(self).on_fallback(*stacks, rsp),
                    rsp,
                    now,
                    result->Ok_0,
                ) && (!(result->Ok_0 is Stay) && !old(self).on_fallback(*stacks, rsp) ==> final(set).installed(old(self).cpu_id as int) && final(set).cpu(
                    old(self).cpu_id as int,
                ).current is None),
            },
            !kernel_mode || old(set).cpu_error(old(self).cpu_id) is Some ==> *final(set)
                == *old(set) && *final(self) == *old(self),
    {
        if !kernel_mode {
            return Ok(ScheduleStep::Stay);
        }
        let cpu_id: usize = self.cpu_id;
        let ghost c = cpu_id as int;
        match set.check_cpu(cpu_id) {
            Err(error) => {
                return Err(error);
            },
            Ok(()) => {},
        }
        assert(set.installed(c));
        if self.trap_on_fallback_stack(stacks, rsp) {
            let taken = preempt_take_local(&mut self.preempt);
            if taken || set.cpu_has_work(cpu_id) {
                return Ok(ScheduleStep::Select);
            }
            return Ok(ScheduleStep::Stay);
        }
        let action: Option<TaskBoundaryAction> = match set.current_task_on_cpu(cpu_id) {
            Some(task) => {
                let mut execution = task.execution;
                let action = execution.take_boundary_action();
                if action.is_some() {
                    proof {
                        let id = set.cpu(c).current->Some_0;
                        assert(set.cpu(c).owns(id));
                        assert(set.cpu(c).task_wf(set.tasks@, id));
                        assert(set.owner(id, c));
                    }
                    set.annotate(task.id, execution, task.placement);
                }
                action
            },
            None => None,
        };
        let ghost taken = *set;
        match action {
            Some(boundary) => {
                assert(set.installed(c));
                assert(set.cpu(c) == old(set).cpu(c));
                match set.finalize_current_boundary_on_cpu(cpu_id, rsp, boundary, now) {
                    Err(error) => Err(error),
                    Ok(None) => Ok(ScheduleStep::Stay),
                    Ok(Some(finalized)) => {
                        assert(Scheduler::boundary_effect(
                            taken.cpu(c),
                            taken.tasks@,
                            set.cpu(c),
                            set.tasks@,
                            boundary,
                            now,
                            finalized,
                        ));
                        match finalized.migration_ready {
                            Some(task_id) => {
                                self.defer_migration_ready(task_id);
                            },
                            None => {},
                        }
                        match finalized.reaped {
                            Some(task) => Ok(ScheduleStep::Reap(task)),
                            None => Ok(ScheduleStep::Select),
                        }
                    },
                }
            },
            None => {
                if preempt_count_local(&self.preempt) > 0 || !preempt_pending_local(&self.preempt) {
                    return Ok(ScheduleStep::Stay);
                }
                match set.save_preempted_current_on_cpu(cpu_id, rsp, now) {
                    Err(error) => Err(error),
                    Ok(None) => {
                        assert(set.cpus@ =~= taken.cpus@);
                        Ok(ScheduleStep::Stay)
                    },
                    Ok(Some(task_id)) => {
                        self.defer_migration_ready(task_id);
                        Ok(ScheduleStep::Select)
                    },
                }
            },
        }
    }

    /// Second half of a scheduling trap: takes a due reschedule, lets the
    /// remembered task migrate and chooses the next task. Without one, or
    /// without a scheduler, the CPU idles.
    pub fn select_next_or_idle_frame(&mut self, set: &mut SchedulerSet, now: Option<Instant>) -> (next: Option<
        TaskId,
    >)
        requires
            old(set).wf(),
            old(set).installed(old(self).cpu_id as int) ==> old(set).cpu(
                old(self).cpu_id as int,
            ).current is None,
        ensures
            final(set).wf(),
            *final(self) == (SchedulerDispatch {
                preempt: (PreemptState { need_resched: false, ..old(self).preempt }),
                deferred: 0,
                ..*old(self)
            }),
            match old(set).cpu_error(old(self).cpu_id) {
                Some(_) => {
                    &&& next is None
                    &&& final(set).cpus == old(set).cpus
                    &&& final(set).balance_hint == old(set).balance_hint
                    &&& final(set).tasks@ == old(self).flushed(*old(set))
                },
                None => exists|flushed: SchedulerSet| {
                    &&& flushed.cpus == old(set).cpus
                    &&& flushed.balance_hint == old(set).balance_hint
                    &&& flushed.tasks@ == old(self).flushed(*old(set))
                    &&& #[trigger] SchedulerSet::next_effect(
                        flushed,
                        *final(set),
                        old(self).cpu_id,
                        clock_or_start(now),
                        next,
                    )
                },
            },
    {
        let _ = preempt_take_local(&mut self.preempt);
        self.flush_deferred_migration_ready(set);
        let ghost flushed = *set;
        assert(flushed.installed(self.cpu_id as int) == old(set).installed(self.cpu_id as int));
        assert(flushed.cpu_error(self.cpu_id) == old(set).cpu_error(self.cpu_id));
        let at = match now {
            Some(now) => now,
            None => Instant { nanos: 0 },
        };
        assert(at == clock_or_start(now));
        match set.take_next_task_on_cpu(self.cpu_id, at) {
            Ok(next) => {
                proof {
                    if old(set).cpu_error(self.cpu_id) is None {
                        assert(SchedulerSet::next_effect(flushed, *set, self.cpu_id, at, next));
                    }
                }
                next
            },
            Err(_) => None,
        }
    }

    /// What keeps a task from running further: a request to cancel it.
    pub open spec fn dispatched(&self, set: SchedulerSet) -> Map<u64, Task> {
        let id = set.cpu(self.cpu_id as int).current->Some_0;
        let task = set.tasks@[id];
        annotated(
            set.tasks@,
            id,
            if task.execution.cancel_requested {
                TaskExecution {
                    boundary_action: Some(TaskBoundaryAction::Cancelled),
                    ..task.execution
                }
            } else {
                task.execution
            },
            TaskPlacement { started: true, migration_ready: false, ..task.placement },
        )
    }

    /// Starts or continues the running task: it is marked as started and may
    /// not migrate meanwhile. `false` means that its cancellation is published
    /// and the CPU is to reschedule instead of polling it.
    pub fn begin_dispatch(&self, set: &mut SchedulerSet) -> (poll: bool)
        requires
            old(set).wf(),
            old(set).installed(self.cpu_id as int),
            old(set).cpu(self.cpu_id as int).current is Some,
            self.published(*old(set)) is None,
        ensures
            final(set).wf(),
            final(set).cpus == old(set).cpus,
            final(set).balance_hint == old(set).balance_hint,
            final(set).tasks@ == self.dispatched(*old(set)),
            poll == !old(set).tasks@[old(set).cpu(
                self.cpu_id as int,
            ).current->Some_0].execution.cancel_requested,
    {
        let ghost c = self.cpu_id as int;
        proof {
            let id = set.cpu(c).current->Some_0;
            assert(set.cpu(c).owns(id));
            assert(set.cpu(c).task_wf(set.tasks@, id));
            assert(set.owner(id, c));
        }
        match set.current_task_on_cpu(self.cpu_id) {
            Some(task) => {
                let mut placement = task.placement;
                placement.mark_started();
                placement.set_migration_ready(false);
                let mut execution = task.execution;
                let cancelled = execution.cancel_requested;
                if cancelled {
                    execution.publish_boundary(TaskBoundaryAction::Cancelled);
                }
                set.annotate(task.id, execution, placement);
                !cancelled
            },
            None => true,
        }
    }

    /// Publishes what the poll of the running task came to; the CPU is to
    /// reschedule.
    pub fn finish_dispatch(&self, set: &mut SchedulerSet, outcome: TaskPollOutcome)
        requires
            old(set).wf(),
            old(set).installed(self.cpu_id as int),
            old(set).cpu(self.cpu_id as int).current is Some,
            self.published(*old(set)) is None,
        ensures
            final(set).wf(),
            final(set).cpus == old(set).cpus,
            final(set).balance_hint == old(set).balance_hint,
            ({
                let id = old(set).cpu(self.cpu_id as int).current->Some_0;
                final(set).tasks@ == annotated(
                    old(set).tasks@,
                    id,
                    TaskExecution {
                        boundary_action: Some(TaskBoundaryAction::Outcome(outcome)),
                        ..old(set).tasks@[id].execution
                    },
                    old(set).tasks@[id].placement,
                )
            }),
            self.published(*final(set)) == Some(TaskBoundaryAction::Outcome(outcome)),
    {
        let ghost c = self.cpu_id as int;
        proof {
            let id = set.cpu(c).current->Some_0;
            assert(set.cpu(c).owns(id));
            assert(set.cpu(c).task_wf(set.tasks@, id));
            assert(set.owner(id, c));
        }
        match set.current_task_on_cpu(self.cpu_id) {
            Some(task) => {
                let mut execution = task.execution;
                execution.publish_boundary(TaskBoundaryAction::Outcome(outcome));
                set.annotate(task.id, execution, task.placement);
            },
            None => {},
        }
    }

    /// Acts on the notice of queued work: local work is due for a reschedule
    /// here; for remote work the CPU to interrupt is returned.
    pub fn notify_cpu(&mut self, notice: WakeNotice) -> (interrupt: Option<usize>)
        ensures
            match notice {
                WakeNotice::PreemptLocal => {
                    &&& interrupt is None
                    &&& *final(self) == (SchedulerDispatch {
                        preempt: (PreemptState { need_resched: true, ..old(self).preempt }),
                        ..*old(self)
                    })
                },
                WakeNotice::Interrupt(cpu) => interrupt == Some(cpu) && *final(self) == *old(self),
            },
    {
        match notice {
            WakeNotice::PreemptLocal => {
                preempt_request_local(&mut self.preempt);
                None
            },
            WakeNotice::Interrupt(cpu) => Some(cpu),
        }
    }

    /// Runs the timer tick of this CPU. A reschedule is due if the tick asks for
    /// one, a task was pulled from elsewhere or a task of this CPU was woken. The
    /// notices for other CPUs are left to the caller.
    pub fn handle_tick(
        &mut self,
        set: &mut SchedulerSet,
        state: &mut TickState,
        now: Instant,
    ) -> (report: TickReport)
        requires
            old(set).wf(),
            old(state).wf(),
        ensures
            final(set).wf(),
            final(state).wf(),
            SchedulerSet::ticked(
                *old(set),
                *final(set),
                *old(state),
                *final(state),
                old(self).cpu_id,
                now,
                report.notices@,
                report.result,
            ),
            *final(self) == (SchedulerDispatch {
                preempt: (PreemptState {
                    need_resched: old(self).preempt.need_resched || (
                    report.result matches Ok(outcome) && outcome.reschedule)
                        || report.notices@.contains(WakeNotice::PreemptLocal),
                    ..old(self).preempt
                }),
                ..*old(self)
            }),
    {
        let report = set.on_tick_for_cpu(state, self.cpu_id, now);
        let mut local = false;
        let mut i: usize = 0;
        while i < report.notices.len()
            invariant
                i <= report.notices@.len(),
                local <==> exists|j: int|
                    0 <= j < i && #[trigger] report.notices@[j] == WakeNotice::PreemptLocal,
            decreases report.notices@.len() - i,
        {
            if matches!(report.notices[i], WakeNotice::PreemptLocal) {
                local = true;
            }
            i = i + 1;
        }
        let asked = match report.result {
            Ok(outcome) => outcome.reschedule,
            Err(_) => false,
        };
        if asked || local {
            preempt_request_local(&mut self.preempt);
        }
        proof {
            assert(local <==> report.notices@.contains(WakeNotice::PreemptLocal));
        }
        report
    }

    /// What giving way does: the running task, if there is one, counts as ready
    /// by its own choice, and a reschedule is due.
    pub open spec fn gives_way(
        before: SchedulerDispatch,
        set: SchedulerSet,
        after: SchedulerDispatch,
        set_after: SchedulerSet,
    ) -> bool {
        &&& set_after.cpus == set.cpus
        &&& set_after.balance_hint == set.balance_hint
        &&& after == (SchedulerDispatch {
            preempt: (PreemptState { need_resched: true, ..before.preempt }),
            ..before
        })
        &&& set_after.tasks@ == (if set.installed(before.cpu_id as int) {
            match set.cpu(before.cpu_id as int).current {
                Some(id) => annotated(
                    set.tasks@,
                    id,
                    TaskExecution {
                        ready_state: TaskReadyState::Async,
                        ..set.tasks@[id].execution
                    },
                    set.tasks@[id].placement,
                ),
                None => set.tasks@,
            }
        } else {
            set.tasks@
        })
    }

    /// Notes why the running task gives way and asks for a reschedule. Without
    /// a running task only the reschedule is asked for.
    pub fn yield_current(&mut self, set: &mut SchedulerSet)
        requires
            old(set).wf(),
        ensures
            final(set).wf(),
            Self::gives_way(*old(self), *old(set), *final(self), *final(set)),
    {
        match set.current_task_on_cpu(self.cpu_id) {
            Some(task) => {
                let ghost c = self.cpu_id as int;
                proof {
                    let id = set.cpu(c).current->Some_0;
                    assert(set.cpu(c).owns(id));
                    assert(set.cpu(c).task_wf(set.tasks@, id));
                    assert(set.owner(id, c));
                }
                let mut execution = task.execution;
                execution.set_ready(TaskReadyState::Async);
                set.annotate(task.id, execution, task.placement);
            },
            None => {},
        }
        preempt_request_local(&mut self.preempt);
    }

    /// Lets the running task migrate from now on, or forbids it.
    pub fn allow_current_migration(&self, set: &mut SchedulerSet, allowed: bool)
        requires
            old(set).wf(),
        ensures
            final(set).wf(),
            final(set).cpus == old(set).cpus,
            final(set).balance_hint == old(set).balance_hint,
            final(set).tasks@ == (if old(set).installed(self.cpu_id as int) {
                match old(set).cpu(self.cpu_id as int).current {
                    Some(id) => annotated(
                        old(set).tasks@,
                        id,
                        old(set).tasks@[id].execution,
                        TaskPlacement {
                            migration_allowed: allowed,
                            ..old(set).tasks@[id].placement
                        },
                    ),
                    None => old(set).tasks@,
                }
            } else {
                old(set).tasks@
            }),
    {
        match set.current_task_on_cpu(self.cpu_id) {
            Some(task) => {
                let ghost c = self.cpu_id as int;
                proof {
                    let id = set.cpu(c).current->Some_0;
                    assert(set.cpu(c).owns(id));
                    assert(set.cpu(c).task_wf(set.tasks@, id));
                    assert(set.owner(id, c));
                }
                let mut placement = task.placement;
                placement.allow_migration(allowed);
                set.annotate(task.id, task.execution, placement);
            },
            None => {},
        }
    }

    /// The process of the running task.
    pub fn current_process(&self, set: &SchedulerSet) -> (process: Result<u64, ObjectError>)
        requires
            set.wf(),
        ensures
            process == (if set.installed(self.cpu_id as int) {
                match set.cpu(self.cpu_id as int).current {
                    Some(id) => Ok::<u64, ObjectError>(set.tasks@[id].process_id),
                    None => Err::<u64, ObjectError>(ObjectError::ObjectNotFound),
                }
            } else {
                Err::<u64, ObjectError>(ObjectError::ObjectNotFound)
            }),
    {
        match set.current_task_on_cpu(self.cpu_id) {
            Some(task) => Ok(task.process_id),
            None => Err(ObjectError::ObjectNotFound),
        }
    }

    /// Whether an idle CPU may sleep: it has nothing to run and no reschedule
    /// is due. Otherwise it is to reschedule.
    pub fn should_sleep(&self, set: &SchedulerSet) -> (sleep: bool)
        requires
            set.wf(),
        ensures
            sleep == (!(set.installed(self.cpu_id as int) && set.cpu(
                self.cpu_id as int,
            ).has_work()) && !self.preempt.need_resched),
    {
        !set.cpu_has_work(self.cpu_id) && !preempt_pending_local(&self.preempt)
    }

    /// The frame on which the CPU idles: a fresh one that enters at `entry` on
    /// the fallback stack with interrupts on.
    pub fn idle_resume_frame(&self, stacks: &CpuFallbackStack, fresh: TrapFrame, entry: usize) -> (
    frame: TrapFrame)
        requires
            stacks.fits(self.cpu_id as int),
        ensures
            frame == (TrapFrame {
                instruction_pointer: entry,
                stack_pointer: (stacks.slot_base(self.cpu_id as int)
                    + super::stack::FALLBACK_SLOT_SIZE
                    - super::stack::RETURN_ADDRESS_SIZE) as usize,
                interrupts_enabled: true,
                registers: fresh.registers,
            }),
    {
        TrapFrame {
            instruction_pointer: entry,
            stack_pointer: stacks.boot_entry_stack_pointer(self.cpu_id),
            interrupts_enabled: true,
            registers: fresh.registers,
        }
    }
}

/// How a CPU goes on after it has chosen.
#[derive(Debug, Clone, Copy, PartialEq, Eq, Structural)]
pub enum ResumePlan {
    /// It idles.
    Idle,
    /// It resumes the task, after it has loaded this address space root if it
    /// is not loaded yet.
    Task { task_id: TaskId, load_root: Option<usize> },
}

/// Decides between the chosen task and idling. A task whose address space has
/// no root cannot be resumed.
pub fn resume_plan(
    next: Option<TaskId>,
    root: Result<usize, ObjectError>,
    loaded_root: usize,
) -> (plan: ResumePlan)
    ensures
        plan == (match (next, root) {
            (Some(task_id), Ok(root)) => ResumePlan::Task {
                task_id,
                load_root: if root == loaded_root {
                    None
                } else {
                    Some(root)
                },
            },
            _ => ResumePlan::Idle,
        }),
{
    match (next, root) {
        (Some(task_id), Ok(root)) => ResumePlan::Task {
            task_id,
            load_root: if root == loaded_root {
                None
            } else {
                Some(root)
            },
        },
        _ => ResumePlan::Idle,
    }
}

/// Physical range of the boot memory map.
#[derive(Debug, Clone, Copy, PartialEq, Eq, Structural)]
pub struct BootArena {
    pub start: usize,
    pub end: usize,
    /// Whether the boot processor was started on it.
    pub kernel_stack: bool,
}

/// The boot stack is given back once, by the first processor alone: the first
/// range of the memory map that held it.
pub fn reclaim_bootstrap_stack(cpu_id: usize, reclaimed: &mut bool, memory_map: &Vec<BootArena>) -> (
range: Option<(usize, usize)>)
    ensures
        *final(reclaimed) == (*old(reclaimed) || cpu_id == 0),
        match range {
            Some(found) => cpu_id == 0 && !*old(reclaimed) && exists|i: int| {
                &&& 0 <= i < memory_map@.len()
                &&& (#[trigger] memory_map@[i]).kernel_stack
                &&& found == (memory_map@[i].start, memory_map@[i].end)
                &&& forall|j: int| 0 <= j < i ==> !(#[trigger] memory_map@[j]).kernel_stack
            },
            None => cpu_id != 0 || *old(reclaimed) || forall|i: int|
                0 <= i < memory_map@.len() ==> !(#[trigger] memory_map@[i]).kernel_stack,
        },
{
    if cpu_id != 0 {
        return None;
    }
    let already = *reclaimed;
    *reclaimed = true;
    if already {
        return None;
    }
    let mut i: usize = 0;
    while i < memory_map.len()
        invariant
            i <= memory_map@.len(),
            cpu_id == 0,
            *reclaimed,
            !*old(reclaimed),
            forall|j: int| 0 <= j < i ==> !(#[trigger] memory_map@[j]).kernel_stack,
        decreases memory_map@.len() - i,
    {
        if memory_map[i].kernel_stack {
            let found = (memory_map[i].start, memory_map[i].end);
            assert(memory_map@[i as int].kernel_stack);
            return Some(found);
        }
        i = i + 1;
    }
    None
}

/// A task that is preempted may migrate as soon as its CPU has chosen anew, and
/// not before: the trap itself leaves the permission as it was.
pub proof fn law_preempted_task_may_migrate(
    before: SchedulerDispatch,
    set: SchedulerSet,
    after: SchedulerDispatch,
    set_after: SchedulerSet,
    rsp: usize,
    now: Option<Instant>,
)
    requires
        set.wf(),
        set.installed(before.cpu_id as int),
        set_after.wf(),
        before.published(set) is None,
        set.cpu(before.cpu_id as int).current matches Some(id) && id != 0,
        SchedulerDispatch::boundary(
            before,
            set,
            after,
            set_after,
            false,
            rsp,
            now,
            ScheduleStep::Select,
        ),
    ensures
        ({
            let id = set.cpu(before.cpu_id as int).current->Some_0;
            &&& set_after.tasks@[id].placement.migration_ready
                == set.tasks@[id].placement.migration_ready
            &&& after.flushed(set_after)[id].placement.migration_ready
        }),
{
    let id = set.cpu(before.cpu_id as int).current->Some_0;
    let cpu = set_after.cpu(before.cpu_id as int);
    assert(cpu.in_eligible(set_after.tasks@, id) || cpu.in_ineligible(set_after.tasks@, id));
}

/// A published cancellation ends the task at its next trap on its own stack.
pub proof fn law_published_cancellation_ends_task(
    before: SchedulerDispatch,
    set: SchedulerSet,
    after: SchedulerDispatch,
    set_after: SchedulerSet,
    rsp: usize,
    now: Option<Instant>,
    step: ScheduleStep,
)
    requires
        set.wf(),
        set.installed(before.cpu_id as int),
        set_after.wf(),
        before.published(set) == Some(TaskBoundaryAction::Cancelled),
        set.cpu(before.cpu_id as int).trapped_task(set.tasks@, rsp) is Some,
        SchedulerDispatch::boundary(before, set, after, set_after, false, rsp, now, step),
    ensures
        step matches ScheduleStep::Reap(task) && task.state.terminal == Some(
            super::task::TaskExit::Cancelled,
        ) && task.id == set.cpu(before.cpu_id as int).current->Some_0,
        !set_after.tasks@.dom().contains(set.cpu(before.cpu_id as int).current->Some_0),
{
    let id = set.cpu(before.cpu_id as int).current->Some_0;
    assert(set.cpu(before.cpu_id as int).owns(id));
    assert(set.cpu(before.cpu_id as int).task_wf(set.tasks@, id));
}

} // verus!

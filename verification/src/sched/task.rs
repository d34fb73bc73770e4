//! Task state.
//!
//! A [`Task`] holds what the scheduler, the dispatcher and the spawn protocol
//! read and write. The machine-side parts (the future, the saved registers) are
//! held by the caller and reported here as events.

use super::clock::{Duration, Instant};
use super::eevdf::effective_weight;
use crate::memory::range::VmRange;
use vstd::prelude::*;

verus! {

/// Stable task identifier.
pub type TaskId = u64;

/// Final result of a task.
#[derive(Debug, Clone, Copy, PartialEq, Eq, Structural)]
pub enum TaskExit {
    /// The task future returned without an explicit exit call.
    Completed,
    /// The task exited without asking for process teardown.
    ThreadExited(usize),
    /// The task asked for process-wide exit with the given code.
    ProcessExited(usize),
    /// An external request ended the task.
    Killed,
    /// The task hit an unrecoverable fault.
    Faulted,
    /// The task saw its cancellation before it completed.
    Cancelled,
}

/// Scheduler-visible state of a task.
#[derive(Debug, Clone, Copy, PartialEq, Eq, Structural)]
pub enum TaskSchedState {
    PreemptReady,
    AsyncReady,
    Blocked,
}

impl TaskSchedState {
    pub open spec fn ready(self) -> bool {
        self is PreemptReady || self is AsyncReady
    }

    /// Whether the state contributes runnable weight.
    pub fn is_ready(self) -> (ready: bool)
        ensures
            ready == self.ready(),
    {
        match self {
            TaskSchedState::PreemptReady | TaskSchedState::AsyncReady => true,
            TaskSchedState::Blocked => false,
        }
    }
}

/// Reason recorded for the next ready transition.
#[derive(Debug, Clone, Copy, PartialEq, Eq, Structural)]
pub enum TaskReadyState {
    Preempt,
    Async,
}

impl TaskReadyState {
    /// The scheduler state that the reason leads to.
    pub open spec fn sched_state_spec(self) -> TaskSchedState {
        match self {
            TaskReadyState::Preempt => TaskSchedState::PreemptReady,
            TaskReadyState::Async => TaskSchedState::AsyncReady,
        }
    }

    pub fn sched_state(self) -> (state: TaskSchedState)
        ensures
            state == self.sched_state_spec(),
    {
        match self {
            TaskReadyState::Preempt => TaskSchedState::PreemptReady,
            TaskReadyState::Async => TaskSchedState::AsyncReady,
        }
    }
}

/// Scheduler state and terminal result of a task.
#[derive(Debug, Clone, Copy, PartialEq, Eq, Structural)]
pub struct TaskState {
    pub sched: TaskSchedState,
    pub terminal: Option<TaskExit>,
}

impl Default for TaskState {
    fn default() -> (state: Self)
        ensures
            state.sched == TaskSchedState::Blocked,
            state.terminal is None,
    {
        TaskState { sched: TaskSchedState::Blocked, terminal: None }
    }
}

/// Result of running the current task once.
#[derive(Debug, Clone, Copy, PartialEq, Eq, Structural)]
pub enum TaskPollOutcome {
    Ready,
    Blocked,
    Exited(TaskExit),
}

impl TaskPollOutcome {
    /// Whether the task stays runnable.
    pub fn is_ready(self) -> (ready: bool)
        ensures
            ready == (self is Ready),
    {
        match self {
            TaskPollOutcome::Ready => true,
            TaskPollOutcome::Blocked | TaskPollOutcome::Exited(_) => false,
        }
    }
}

/// Boundary transition published by the current task.
#[derive(Debug, Clone, Copy, PartialEq, Eq, Structural)]
pub enum TaskBoundaryAction {
    Cancelled,
    Outcome(TaskPollOutcome),
}

/// EEVDF metadata of a task.
#[derive(Debug, Clone, Copy, PartialEq, Eq, Structural)]
pub struct TaskSchedMeta {
    pub weight: u64,
    pub vruntime: u128,
    pub veligible: u128,
    pub vdeadline: u128,
    pub slice: Duration,
    pub exec_start: Option<Instant>,
    pub exec_runtime: Duration,
    pub cpu_id: usize,
}

impl Default for TaskSchedMeta {
    fn default() -> (meta: Self)
        ensures
            meta.weight == 1024,
            meta.vruntime == 0,
            meta.veligible == 0,
            meta.vdeadline == 0,
            meta.slice.nanos == 4_000_000,
            meta.exec_start is None,
            meta.exec_runtime.nanos == 0,
            meta.cpu_id == 0,
    {
        TaskSchedMeta {
            weight: 1024,
            vruntime: 0,
            veligible: 0,
            vdeadline: 0,
            slice: Duration::from_millis(4),
            exec_start: None,
            exec_runtime: Duration { nanos: 0 },
            cpu_id: 0,
        }
    }
}

/// Execution-side state: what the dispatcher and the wakeups exchange.
#[derive(Debug, Clone, Copy, PartialEq, Eq, Structural)]
pub struct TaskExecution {
    /// Whether a runnable is waiting to be polled.
    pub runnable: bool,
    /// Exit value left by the future when it finished.
    pub recorded_exit: Option<TaskExit>,
    /// Boundary action that the next trap picks up.
    pub boundary_action: Option<TaskBoundaryAction>,
    /// Reason for the next ready transition.
    pub ready_state: TaskReadyState,
    pub cancel_requested: bool,
}

impl TaskExecution {
    pub fn new() -> (execution: Self)
        ensures
            execution == (TaskExecution {
                runnable: false,
                recorded_exit: None,
                boundary_action: None,
                ready_state: TaskReadyState::Async,
                cancel_requested: false,
            }),
    {
        TaskExecution {
            runnable: false,
            recorded_exit: None,
            boundary_action: None,
            ready_state: TaskReadyState::Async,
            cancel_requested: false,
        }
    }

    /// Puts a runnable into its slot, which must be free.
    pub fn install_runnable(&mut self)
        requires
            !old(self).runnable,
        ensures
            *final(self) == (TaskExecution { runnable: true, ..*old(self) }),
    {
        self.runnable = true;
    }

    pub fn record_exit(&mut self, exit: TaskExit)
        ensures
            *final(self) == (TaskExecution { recorded_exit: Some(exit), ..*old(self) }),
    {
        self.recorded_exit = Some(exit);
    }

    pub fn request_cancel(&mut self)
        ensures
            *final(self) == (TaskExecution { cancel_requested: true, ..*old(self) }),
    {
        self.cancel_requested = true;
    }

    /// Publishes a boundary action; the previous one must have been taken.
    pub fn publish_boundary(&mut self, action: TaskBoundaryAction)
        requires
            old(self).boundary_action is None,
        ensures
            *final(self) == (TaskExecution { boundary_action: Some(action), ..*old(self) }),
    {
        self.boundary_action = Some(action);
    }

    pub fn take_boundary_action(&mut self) -> (action: Option<TaskBoundaryAction>)
        ensures
            action == old(self).boundary_action,
            *final(self) == (TaskExecution { boundary_action: None, ..*old(self) }),
    {
        let action = self.boundary_action;
        self.boundary_action = None;
        action
    }

    /// First half of a poll: takes the runnable out of its slot. Without one
    /// the task is blocked and nothing is run.
    pub fn begin_poll(&mut self) -> (taken: bool)
        ensures
            taken == old(self).runnable,
            *final(self) == (TaskExecution { runnable: false, ..*old(self) }),
    {
        let taken = self.runnable;
        self.runnable = false;
        taken
    }

    /// Second half of a poll: classifies the run. An exit that the future
    /// recorded wins; otherwise the task stays ready if it yielded or if a
    /// wakeup has installed a runnable meanwhile.
    pub fn finish_poll(&mut self, yielded: bool) -> (outcome: TaskPollOutcome)
        ensures
            outcome == (match old(self).recorded_exit {
                Some(exit) => TaskPollOutcome::Exited(exit),
                None => if yielded || old(self).runnable {
                    TaskPollOutcome::Ready
                } else {
                    TaskPollOutcome::Blocked
                },
            }),
            *final(self) == (TaskExecution { recorded_exit: None, ..*old(self) }),
    {
        let recorded = self.recorded_exit;
        self.recorded_exit = None;
        match recorded {
            Some(exit) => TaskPollOutcome::Exited(exit),
            None => if yielded || self.runnable {
                TaskPollOutcome::Ready
            } else {
                TaskPollOutcome::Blocked
            },
        }
    }

    pub fn set_ready(&mut self, ready: TaskReadyState)
        ensures
            *final(self) == (TaskExecution { ready_state: ready, ..*old(self) }),
    {
        self.ready_state = ready;
    }

    /// Hands out the recorded reason and falls back to `Async`.
    pub fn take_ready(&mut self) -> (ready: TaskReadyState)
        ensures
            ready == old(self).ready_state,
            *final(self) == (TaskExecution { ready_state: TaskReadyState::Async, ..*old(self) }),
    {
        let ready = self.ready_state;
        self.ready_state = TaskReadyState::Async;
        ready
    }
}

/// Nanoseconds of a time value, capped at the largest `u64`.
pub open spec fn nanos_u64(nanos: u128) -> u64 {
    if nanos > u64::MAX {
        u64::MAX
    } else {
        nanos as u64
    }
}

fn capped_nanos(nanos: u128) -> (capped: u64)
    ensures
        capped == nanos_u64(nanos),
{
    if nanos > u64::MAX as u128 {
        u64::MAX
    } else {
        nanos as u64
    }
}

/// Placement-side state: where the task ran last and whether it may move.
#[derive(Debug, Clone, Copy, PartialEq, Eq, Structural)]
pub struct TaskPlacement {
    pub started: bool,
    pub migration_ready: bool,
    pub migration_allowed: bool,
    pub last_cpu: usize,
    pub last_stop_nanos: u64,
}

impl TaskPlacement {
    /// Whether the task stopped on `cpu_id` less than `threshold` ago.
    pub open spec fn cache_hot(&self, cpu_id: usize, now: Instant, threshold: Duration) -> bool {
        &&& self.last_cpu == cpu_id
        &&& nanos_u64(now.nanos) - self.last_stop_nanos < nanos_u64(threshold.nanos)
        &&& nanos_u64(threshold.nanos) > 0
    }

    pub fn new() -> (placement: Self)
        ensures
            placement == (TaskPlacement {
                started: false,
                migration_ready: false,
                migration_allowed: true,
                last_cpu: usize::MAX,
                last_stop_nanos: 0,
            }),
    {
        TaskPlacement {
            started: false,
            migration_ready: false,
            migration_allowed: true,
            last_cpu: usize::MAX,
            last_stop_nanos: 0,
        }
    }

    pub fn mark_started(&mut self)
        ensures
            *final(self) == (TaskPlacement { started: true, ..*old(self) }),
    {
        self.started = true;
    }

    pub fn set_migration_ready(&mut self, ready: bool)
        ensures
            *final(self) == (TaskPlacement { migration_ready: ready, ..*old(self) }),
    {
        self.migration_ready = ready;
    }

    pub fn allow_migration(&mut self, allowed: bool)
        ensures
            *final(self) == (TaskPlacement { migration_allowed: allowed, ..*old(self) }),
    {
        self.migration_allowed = allowed;
    }

    pub fn record_stop(&mut self, cpu_id: usize, now: Instant)
        ensures
            *final(self) == (TaskPlacement {
                last_cpu: cpu_id,
                last_stop_nanos: nanos_u64(now.nanos),
                ..*old(self)
            }),
    {
        self.last_cpu = cpu_id;
        self.last_stop_nanos = capped_nanos(now.nanos);
    }

    pub fn is_cache_hot_on(&self, cpu_id: usize, now: Instant, threshold: Duration) -> (hot: bool)
        ensures
            hot == self.cache_hot(cpu_id, now, threshold),
    {
        if self.last_cpu != cpu_id {
            return false;
        }
        capped_nanos(now.nanos).saturating_sub(self.last_stop_nanos) < capped_nanos(
            threshold.nanos,
        )
    }
}

/// Task as the scheduler sees it.
#[derive(Debug, Clone, Copy, PartialEq, Eq, Structural)]
pub struct Task {
    pub id: TaskId,
    pub process_id: u64,
    pub state: TaskState,
    pub sched: TaskSchedMeta,
    pub kernel_stack: VmRange,
    pub execution: TaskExecution,
    pub placement: TaskPlacement,
    /// Whether a wakeup of the task waits in some wake inbox.
    pub wake_queued: bool,
}

impl Task {
    pub open spec fn ready(&self) -> bool {
        self.state.sched.ready()
    }

    /// Weight that the task contributes while it is ready.
    pub open spec fn weight(&self) -> u64 {
        effective_weight(self.sched.weight)
    }

    /// A task shell: blocked, never started, with default metadata.
    pub open spec fn shell(id: TaskId, process_id: u64, kernel_stack: VmRange) -> Task {
        Task {
            id,
            process_id,
            state: (TaskState { sched: TaskSchedState::Blocked, terminal: None }),
            sched: (TaskSchedMeta {
                weight: 1024,
                vruntime: 0,
                veligible: 0,
                vdeadline: 0,
                slice: (Duration { nanos: 4_000_000 }),
                exec_start: None,
                exec_runtime: (Duration { nanos: 0 }),
                cpu_id: 0,
            }),
            kernel_stack,
            execution: (TaskExecution {
                runnable: false,
                recorded_exit: None,
                boundary_action: None,
                ready_state: TaskReadyState::Async,
                cancel_requested: false,
            }),
            placement: (TaskPlacement {
                started: false,
                migration_ready: false,
                migration_allowed: true,
                last_cpu: usize::MAX,
                last_stop_nanos: 0,
            }),
            wake_queued: false,
        }
    }

    /// Makes a task shell.
    pub fn new(id: TaskId, process_id: u64, kernel_stack: VmRange) -> (task: Self)
        ensures
            task == Self::shell(id, process_id, kernel_stack),
    {
        Task {
            id,
            process_id,
            state: TaskState::default(),
            sched: TaskSchedMeta::default(),
            kernel_stack,
            execution: TaskExecution::new(),
            placement: TaskPlacement::new(),
            wake_queued: false,
        }
    }

    /// Whether a stack pointer lies inside the task's kernel stack.
    pub fn kernel_stack_contains(&self, rsp: usize) -> (inside: bool)
        ensures
            inside == self.kernel_stack.covers(rsp as int),
    {
        self.kernel_stack.contains(rsp)
    }

    /// Marks the task as queued for a wakeup pass; `false` if it was already.
    pub fn try_mark_wake_queued(&mut self) -> (marked: bool)
        ensures
            marked == !old(self).wake_queued,
            *final(self) == (Task { wake_queued: true, ..*old(self) }),
    {
        let queued = self.wake_queued;
        self.wake_queued = true;
        !queued
    }

    /// Clears the wake-queued marker; tells whether it was set.
    pub fn clear_wake_queued(&mut self) -> (was_queued: bool)
        ensures
            was_queued == old(self).wake_queued,
            *final(self) == (Task { wake_queued: false, ..*old(self) }),
    {
        let queued = self.wake_queued;
        self.wake_queued = false;
        queued
    }
}

/// Access to the parts of a task.
impl Task {
    pub fn id(&self) -> (value: TaskId)
        ensures
            value == self.id,
    {
        self.id
    }

    pub fn process_id(&self) -> (value: u64)
        ensures
            value == self.process_id,
    {
        self.process_id
    }

    pub fn state(&self) -> (value: TaskState)
        ensures
            value == self.state,
    {
        self.state
    }

    pub fn set_state(&mut self, state: TaskState)
        ensures
            *final(self) == (Task { state, ..*old(self) }),
    {
        self.state = state;
    }

    pub fn sched_meta(&self) -> (value: TaskSchedMeta)
        ensures
            value == self.sched,
    {
        self.sched
    }

    pub fn set_sched_meta(&mut self, meta: TaskSchedMeta)
        ensures
            *final(self) == (Task { sched: meta, ..*old(self) }),
    {
        self.sched = meta;
    }

    pub fn has_runnable(&self) -> (value: bool)
        ensures
            value == self.execution.runnable,
    {
        self.execution.runnable
    }

    pub fn request_cancel(&mut self)
        ensures
            *final(self) == (Task {
                execution: TaskExecution { cancel_requested: true, ..old(self).execution },
                ..*old(self)
            }),
    {
        self.execution.request_cancel();
    }

    pub fn cancel_requested(&self) -> (value: bool)
        ensures
            value == self.execution.cancel_requested,
    {
        self.execution.cancel_requested
    }

    /// Publishes a boundary action; the previous one must have been taken.
    pub fn publish_boundary(&mut self, action: TaskBoundaryAction)
        requires
            old(self).execution.boundary_action is None,
        ensures
            *final(self) == (Task {
                execution: TaskExecution { boundary_action: Some(action), ..old(self).execution },
                ..*old(self)
            }),
    {
        self.execution.publish_boundary(action);
    }

    pub fn take_boundary_action(&mut self) -> (action: Option<TaskBoundaryAction>)
        ensures
            action == old(self).execution.boundary_action,
            *final(self) == (Task {
                execution: TaskExecution { boundary_action: None, ..old(self).execution },
                ..*old(self)
            }),
    {
        self.execution.take_boundary_action()
    }

    pub fn mark_ready(&mut self, ready: TaskReadyState)
        ensures
            *final(self) == (Task {
                execution: TaskExecution { ready_state: ready, ..old(self).execution },
                ..*old(self)
            }),
    {
        self.execution.set_ready(ready);
    }

    pub fn take_ready_reason(&mut self) -> (ready: TaskReadyState)
        ensures
            ready == old(self).execution.ready_state,
            *final(self) == (Task {
                execution: TaskExecution {
                    ready_state: TaskReadyState::Async,
                    ..old(self).execution
                },
                ..*old(self)
            }),
    {
        self.execution.take_ready()
    }

    pub fn mark_started(&mut self)
        ensures
            *final(self) == (Task {
                placement: TaskPlacement { started: true, ..old(self).placement },
                ..*old(self)
            }),
    {
        self.placement.mark_started();
    }

    pub fn started(&self) -> (value: bool)
        ensures
            value == self.placement.started,
    {
        self.placement.started
    }

    pub fn set_migration_ready(&mut self, ready: bool)
        ensures
            *final(self) == (Task {
                placement: TaskPlacement { migration_ready: ready, ..old(self).placement },
                ..*old(self)
            }),
    {
        self.placement.set_migration_ready(ready);
    }

    pub fn migration_ready(&self) -> (value: bool)
        ensures
            value == self.placement.migration_ready,
    {
        self.placement.migration_ready
    }

    pub fn set_migration_allowed(&mut self, allowed: bool)
        ensures
            *final(self) == (Task {
                placement: TaskPlacement { migration_allowed: allowed, ..old(self).placement },
                ..*old(self)
            }),
    {
        self.placement.allow_migration(allowed);
    }

    pub fn migration_allowed(&self) -> (value: bool)
        ensures
            value == self.placement.migration_allowed,
    {
        self.placement.migration_allowed
    }

    pub fn record_stop(&mut self, cpu_id: usize, now: Instant)
        ensures
            *final(self) == (Task {
                placement: TaskPlacement {
                    last_cpu: cpu_id,
                    last_stop_nanos: nanos_u64(now.nanos),
                    ..old(self).placement
                },
                ..*old(self)
            }),
    {
        self.placement.record_stop(cpu_id, now);
    }

    pub fn is_cache_hot_on(&self, cpu_id: usize, now: Instant, threshold: Duration) -> (hot: bool)
        ensures
            hot == self.placement.cache_hot(cpu_id, now, threshold),
    {
        self.placement.is_cache_hot_on(cpu_id, now, threshold)
    }

    pub fn kernel_stack_range(&self) -> (value: VmRange)
        ensures
            value == self.kernel_stack,
    {
        self.kernel_stack
    }
}

/// Saved registers of a trap, as far as dispatch decides on them.
#[derive(Debug, Clone, Copy, PartialEq, Eq, Structural)]
pub struct TrapFrame {
    pub instruction_pointer: usize,
    pub stack_pointer: usize,
    pub interrupts_enabled: bool,
    /// Names the rest of the saved registers.
    pub registers: u64,
}

/// Persistent kernel continuation of a task.
#[derive(Debug, Clone, Copy, PartialEq, Eq, Structural)]
pub struct TaskFrame {
    pub trap: TrapFrame,
    pub initialized: bool,
    pub resume_from_trap: bool,
}

impl TaskFrame {
    /// A frame that has never been saved or dispatched.
    pub fn new(fresh: TrapFrame) -> (frame: Self)
        ensures
            frame == (TaskFrame { trap: fresh, initialized: false, resume_from_trap: false }),
    {
        TaskFrame { trap: fresh, initialized: false, resume_from_trap: false }
    }

    /// Saves the continuation of a trap, to be resumed once.
    pub fn save_from_trap(&mut self, trap: TrapFrame)
        requires
            !old(self).resume_from_trap,
        ensures
            *final(self) == (TaskFrame { trap, initialized: true, resume_from_trap: true }),
    {
        self.trap = trap;
        self.initialized = true;
        self.resume_from_trap = true;
    }

    /// The next continuation: a saved trap is resumed as it is, once;
    /// otherwise the task enters at `entry` with interrupts off.
    pub fn dispatch_snapshot(&mut self, fresh: TrapFrame, entry: usize, stack_pointer: usize) -> (
    next: TrapFrame)
        ensures
            old(self).resume_from_trap ==> next == old(self).trap && *final(self) == (TaskFrame {
                resume_from_trap: false,
                ..*old(self)
            }),
            !old(self).resume_from_trap ==> {
                &&& next.instruction_pointer == entry
                &&& next.stack_pointer == stack_pointer
                &&& !next.interrupts_enabled
                &&& next.registers == (if old(self).initialized {
                    old(self).trap.registers
                } else {
                    fresh.registers
                })
                &&& *final(self) == (TaskFrame {
                    trap: next,
                    initialized: true,
                    resume_from_trap: false,
                })
            },
    {
        if self.resume_from_trap {
            self.resume_from_trap = false;
            return self.trap;
        }
        if !self.initialized {
            self.trap = fresh;
            self.initialized = true;
        }
        self.trap.instruction_pointer = entry;
        self.trap.stack_pointer = stack_pointer;
        self.trap.interrupts_enabled = false;
        self.trap
    }
}

/// What a task waits for when it offers a service.
#[derive(Debug, Clone, Copy, PartialEq, Eq, Structural)]
pub struct ServiceWaitKind {
    pub role: u32,
    pub object: u64,
}

/// Call that is handed to a waiting service task.
#[derive(Debug, Clone, Copy, PartialEq, Eq, Structural)]
pub struct ServiceDelivery {
    pub usr_ip: usize,
    pub frame: u64,
}

/// The task is not in the state that the operation needs.
#[derive(Debug, Clone, Copy, PartialEq, Eq, Structural)]
pub enum ServiceError {
    InvalidState,
}

/// Service-dispatch state of a task.
#[derive(Debug, Clone, Copy, PartialEq, Eq, Structural)]
pub struct TaskServiceState {
    pub role: Option<u32>,
    pub waiting: bool,
    pub wait_kind: Option<ServiceWaitKind>,
    pub active_call: Option<u64>,
    pub pending_delivery: Option<ServiceDelivery>,
}

/// What a task that polls for its delivery does next.
#[derive(Debug, Clone, Copy, PartialEq, Eq, Structural)]
pub enum ServicePoll {
    Delivered,
    Refused,
    Wait,
}

impl TaskServiceState {
    /// Waiting states know what they wait for and serve no call.
    pub open spec fn wf(&self) -> bool {
        &&& self.waiting ==> self.wait_kind is Some && self.active_call is None
            && self.pending_delivery is None
        &&& self.wait_kind is Some ==> self.waiting
    }

    pub open spec fn idle() -> Self {
        TaskServiceState {
            role: None,
            waiting: false,
            wait_kind: None,
            active_call: None,
            pending_delivery: None,
        }
    }

    pub fn new() -> (state: Self)
        ensures
            state == Self::idle(),
            state.wf(),
    {
        TaskServiceState {
            role: None,
            waiting: false,
            wait_kind: None,
            active_call: None,
            pending_delivery: None,
        }
    }

    /// Starts to wait; refused while the task waits, serves or is about to.
    pub fn begin_service_wait(&mut self, wait_kind: ServiceWaitKind) -> (result: Result<
        (),
        ServiceError,
    >)
        ensures
            result is Err <==> old(self).waiting || old(self).active_call is Some
                || old(self).pending_delivery is Some,
            result is Err ==> *final(self) == *old(self),
            result is Ok ==> *final(self) == (TaskServiceState {
                role: Some(wait_kind.role),
                waiting: true,
                wait_kind: Some(wait_kind),
                ..*old(self)
            }),
            old(self).wf() ==> final(self).wf(),
    {
        if self.waiting || self.active_call.is_some() || self.pending_delivery.is_some() {
            return Err(ServiceError::InvalidState);
        }
        self.role = Some(wait_kind.role);
        self.waiting = true;
        self.wait_kind = Some(wait_kind);
        Ok(())
    }

    /// One look of a waiting task at its state.
    pub fn poll_delivery(&self, wait_kind: ServiceWaitKind) -> (poll: ServicePoll)
        ensures
            poll == (if self.pending_delivery is Some {
                ServicePoll::Delivered
            } else if self.waiting && self.wait_kind == Some(wait_kind) {
                ServicePoll::Wait
            } else {
                ServicePoll::Refused
            }),
    {
        if self.pending_delivery.is_some() {
            return ServicePoll::Delivered;
        }
        match self.wait_kind {
            Some(kind) => if self.waiting && kind == wait_kind {
                ServicePoll::Wait
            } else {
                ServicePoll::Refused
            },
            None => ServicePoll::Refused,
        }
    }

    /// Gives up the wait of the given kind; another wait goes on.
    pub fn abort_service_wait(&mut self, wait_kind: ServiceWaitKind)
        ensures
            *final(self) == (if old(self).wait_kind == Some(wait_kind) {
                TaskServiceState {
                    role: None,
                    waiting: false,
                    wait_kind: None,
                    pending_delivery: None,
                    ..*old(self)
                }
            } else {
                *old(self)
            }),
            old(self).wf() ==> final(self).wf(),
    {
        match self.wait_kind {
            Some(kind) => if kind == wait_kind {
                self.role = None;
                self.waiting = false;
                self.wait_kind = None;
                self.pending_delivery = None;
            },
            None => {},
        }
    }

    /// Hands a call to the waiting task.
    pub fn activate_service_call(&mut self, call_id: u64, delivery: ServiceDelivery) -> (result:
        Result<(), ServiceError>)
        ensures
            result is Ok <==> old(self).waiting && old(self).wait_kind is Some,
            result is Err ==> *final(self) == *old(self),
            result is Ok ==> *final(self) == (TaskServiceState {
                waiting: false,
                active_call: Some(call_id),
                pending_delivery: Some(delivery),
                wait_kind: None,
                ..*old(self)
            }),
            old(self).wf() ==> final(self).wf(),
    {
        if !self.waiting || self.wait_kind.is_none() {
            return Err(ServiceError::InvalidState);
        }
        self.waiting = false;
        self.active_call = Some(call_id);
        self.pending_delivery = Some(delivery);
        self.wait_kind = None;
        Ok(())
    }

    pub fn take_service_delivery(&mut self) -> (delivery: Option<ServiceDelivery>)
        ensures
            delivery == old(self).pending_delivery,
            *final(self) == (TaskServiceState { pending_delivery: None, ..*old(self) }),
            old(self).wf() ==> final(self).wf(),
    {
        let delivery = self.pending_delivery;
        self.pending_delivery = None;
        delivery
    }

    pub fn take_active_service_call(&mut self) -> (result: Result<u64, ServiceError>)
        ensures
            match old(self).active_call {
                Some(call_id) => result == Ok::<u64, ServiceError>(call_id) && *final(self) == (
                TaskServiceState { active_call: None, role: None, ..*old(self) }),
                None => result == Err::<u64, ServiceError>(ServiceError::InvalidState)
                    && *final(self) == *old(self),
            },
            old(self).wf() ==> final(self).wf(),
    {
        match self.active_call {
            Some(call_id) => {
                self.active_call = None;
                self.role = None;
                Ok(call_id)
            },
            None => Err(ServiceError::InvalidState),
        }
    }

    /// Takes back a call that the task has not begun to serve.
    pub fn cancel_active_service_call(&mut self, call_id: u64)
        ensures
            *final(self) == (if old(self).active_call == Some(call_id) {
                Self::idle()
            } else {
                *old(self)
            }),
            old(self).wf() ==> final(self).wf(),
    {
        match self.active_call {
            Some(active) => if active == call_id {
                self.active_call = None;
                self.pending_delivery = None;
                self.role = None;
                self.wait_kind = None;
                self.waiting = false;
            },
            None => {},
        }
    }
}

/// A call handed to a waiting task and taken back before it was served leaves
/// the task idle.
pub proof fn law_cancel_undoes_activation(
    waiting: TaskServiceState,
    call_id: u64,
    delivery: ServiceDelivery,
    activated: TaskServiceState,
    cancelled: TaskServiceState,
)
    requires
        waiting.waiting,
        waiting.wait_kind is Some,
        activated == (TaskServiceState {
            waiting: false,
            active_call: Some(call_id),
            pending_delivery: Some(delivery),
            wait_kind: None,
            ..waiting
        }),
        cancelled == (if activated.active_call == Some(call_id) {
            TaskServiceState::idle()
        } else {
            activated
        }),
    ensures
        cancelled == TaskServiceState::idle(),
{
}

} // verus!

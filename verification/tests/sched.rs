use akarin::memory::range::VmRange;
use akarin::object::ObjectError;
use akarin::runtime::extensions::PollState;
use akarin::sched::balance::{LoadBalancer, PullOutcome, TickState};
use akarin::sched::clock::{Duration, Instant};
use akarin::sched::cpus::{SchedulerSet, WakeNotice};
use akarin::sched::dispatch::{
    reclaim_bootstrap_stack, resume_plan, BootArena, ResumePlan, ScheduleStep, SchedulerDispatch,
};
use akarin::sched::eevdf::EevdfParams;
use akarin::sched::preempt::{
    preempt_count_local, preempt_enter_local, preempt_leave_local, preempt_pending_local,
    preempt_request_local, preempt_take_local, PreemptGuard, PreemptState, Yield,
};
use akarin::sched::runqueue::RunQueue;
use akarin::sched::scheduler::SchedulerError;
use akarin::sched::stack::{CpuFallbackStack, GuardedStackLayout};
use akarin::sched::task::{
    ServiceDelivery, ServiceError, ServicePoll, ServiceWaitKind, Task, TaskBoundaryAction,
    TaskExecution, TaskExit, TaskFrame, TaskPlacement, TaskPollOutcome, TaskReadyState,
    TaskSchedState, TaskServiceState, TrapFrame,
};
use akarin::sched::time::Timer;

fn at(nanos: u128) -> Instant {
    Instant { nanos }
}

fn stack_of(id: u64) -> VmRange {
    let base = 0x10_0000 * id as usize;
    VmRange::new(base, base + 0x8000).unwrap()
}

fn rsp_of(id: u64) -> usize {
    0x10_0000 * id as usize + 0x7000
}

fn add_task(set: &mut SchedulerSet, cpu: usize, id: u64) {
    set.register_task(Task::new(id, 1, stack_of(id)));
    assert_eq!(set.admit_task_on_cpu(cpu, id, cpu), Ok((id, WakeNotice::PreemptLocal)));
}

fn wake(set: &mut SchedulerSet, cpu: usize, id: u64) {
    assert!(set.queue_wakeup(cpu, id, cpu).is_ok());
}

fn owner_of(set: &SchedulerSet, id: u64) -> Option<usize> {
    (0..2).find(|&cpu| set.task_on_cpu(cpu, id).is_some())
}

const STACKS: CpuFallbackStack = CpuFallbackStack { segment_start: 0x7000_0000 };

#[test]
fn times_add_up() {
    assert_eq!(Duration::from_millis(4).as_nanos(), 4_000_000);
    assert_eq!(Duration::from_micros(3).as_nanos(), 3_000);
    assert_eq!(Duration::from_nanos(5).saturating_add(Duration { nanos: u128::MAX }).nanos, u128::MAX);
    assert_eq!(at(10).duration_since(at(4)), Duration { nanos: 6 });
    assert_eq!(at(10).checked_add(Duration { nanos: 5 }), Some(at(15)));
    assert_eq!(at(u128::MAX).checked_add(Duration { nanos: 1 }), None);
}

#[test]
fn run_queue_orders_by_time_and_id() {
    let mut queue = RunQueue::new();
    queue.insert((5, 2));
    queue.insert((3, 9));
    queue.insert((5, 1));
    assert_eq!(queue.len(), 3);
    assert_eq!(queue.front(), Some((3, 9)));
    assert_eq!(queue.entry_at(1), (5, 1));
    assert!(queue.remove((5, 1)));
    assert!(!queue.remove((5, 1)));
    assert_eq!(queue.pop_front(), Some((3, 9)));
    assert_eq!(queue.pop_front(), Some((5, 2)));
    assert_eq!(queue.pop_front(), None);
    assert!(queue.is_empty());
}

#[test]
fn virtual_time_scales_with_weight() {
    let plain = EevdfParams { weight: 1024, slice: Duration { nanos: 4000 } };
    let heavy = EevdfParams { weight: 2048, slice: Duration { nanos: 4000 } };
    assert_eq!(plain.slice_to_virtual(), 4000);
    assert_eq!(heavy.slice_to_virtual(), 2000);
    assert!(
        heavy.runtime_to_virtual(Duration { nanos: 999 })
            <= plain.runtime_to_virtual(Duration { nanos: 999 })
    );
    let eligible = plain.eligible(100, 40);
    assert_eq!(plain.deadline_from_eligible(eligible), eligible + 4000);
    assert!(eligible <= plain.deadline_from_eligible(eligible));
}

#[test]
fn preemption_sections_nest() {
    let mut state = PreemptState::new();
    preempt_enter_local(&mut state);
    preempt_enter_local(&mut state);
    assert_eq!(preempt_count_local(&state), 2);
    preempt_request_local(&mut state);
    assert!(!preempt_leave_local(&mut state));
    assert!(preempt_leave_local(&mut state));
    assert!(preempt_pending_local(&state));
    assert!(preempt_take_local(&mut state));
    assert!(!preempt_take_local(&mut state));
    assert_eq!(state, PreemptState::new());
}

#[test]
fn only_the_outermost_serving_guard_reschedules() {
    let mut state = PreemptState::new();
    let outer = PreemptGuard::enter(&mut state);
    let inner = PreemptGuard::enter(&mut state);
    preempt_request_local(&mut state);
    assert!(!inner.leave(&mut state));
    assert!(outer.leave(&mut state));
    let deferred = PreemptGuard::enter_deferred(&mut state);
    assert!(!deferred.leave(&mut state));
    let mut quiet = PreemptState::new();
    let guard = PreemptGuard::enter(&mut quiet);
    assert!(!guard.leave(&mut quiet));
}

#[test]
fn yield_gives_way_once() {
    let mut set = SchedulerSet::install(1);
    let mut dispatch = SchedulerDispatch::new(0);
    add_task(&mut set, 0, 1);
    wake(&mut set, 0, 1);
    assert_eq!(set.take_next_task_on_cpu(0, at(0)), Ok(Some(1)));
    let mut wakes: Vec<u64> = Vec::new();
    let mut point = Yield::once();
    assert!(!preempt_pending_local(&dispatch.preempt));
    assert!(matches!(point.poll(&mut dispatch, &mut set, 40, &mut wakes), PollState::Pending));
    assert!(preempt_pending_local(&dispatch.preempt));
    assert_eq!(wakes, vec![40]);
    let task = set.task_on_cpu(0, 1).unwrap();
    assert_eq!(task.execution.ready_state, TaskReadyState::Async);
    assert!(preempt_take_local(&mut dispatch.preempt));
    assert!(matches!(point.poll(&mut dispatch, &mut set, 40, &mut wakes), PollState::Ready(())));
    assert!(matches!(point.poll(&mut dispatch, &mut set, 40, &mut wakes), PollState::Ready(())));
    assert!(!preempt_pending_local(&dispatch.preempt));
    assert_eq!(wakes, vec![40]);
}

#[test]
fn admission_tells_the_other_cpu() {
    let mut set = SchedulerSet::install(2);
    set.register_task(Task::new(4, 1, stack_of(4)));
    assert_eq!(set.admit_task_on_cpu(1, 4, 0), Ok((4, WakeNotice::Interrupt(1))));
    assert_eq!(set.task_on_cpu(1, 4).unwrap().sched.cpu_id, 1);
    set.register_task(Task::new(5, 1, stack_of(5)));
    assert_eq!(set.admit_task_on_cpu(3, 5, 0), Err(SchedulerError::InvalidCpu(3)));
}

#[test]
fn wakeups_reach_the_owners() {
    let mut set = SchedulerSet::install(2);
    add_task(&mut set, 0, 1);
    add_task(&mut set, 1, 2);
    set.register_task(Task::new(3, 1, stack_of(3)));
    assert_eq!(
        set.wake_tasks(&vec![2, 3, 1, 2], 0),
        vec![WakeNotice::Interrupt(1), WakeNotice::PreemptLocal, WakeNotice::Interrupt(1)]
    );
    assert!(set.task_on_cpu(0, 1).unwrap().wake_queued);
    assert!(set.task_on_cpu(1, 2).unwrap().wake_queued);
    assert_eq!(set.wake_task(3, 0), None);
    assert_eq!(set.wake_task(1, 1), Some(WakeNotice::Interrupt(0)));
    assert_eq!(set.take_next_task_on_cpu(1, at(0)), Ok(Some(2)));
}

#[test]
fn requests_to_stop_reach_every_task() {
    let mut set = SchedulerSet::install(1);
    add_task(&mut set, 0, 1);
    add_task(&mut set, 0, 2);
    set.register_task(Task::new(3, 1, stack_of(3)));
    set.request_cancels(&vec![3, 1, 9]);
    assert!(set.task_on_cpu(0, 1).unwrap().execution.cancel_requested);
    assert!(!set.task_on_cpu(0, 1).unwrap().wake_queued);
    assert!(!set.task_on_cpu(0, 2).unwrap().execution.cancel_requested);
    assert_eq!(set.admit_task_on_cpu(0, 3, 0), Ok((3, WakeNotice::PreemptLocal)));
    assert!(set.task_on_cpu(0, 3).unwrap().execution.cancel_requested);
}

#[test]
fn fallback_stacks_lie_side_by_side() {
    assert_eq!(STACKS.top(0), 0x7000_5000);
    assert_eq!(STACKS.top(2), 0x7000_f000);
    assert_eq!(STACKS.boot_entry_stack_pointer(1), 0x7000_9ff8);
    assert!(STACKS.contains(1, STACKS.boot_entry_stack_pointer(1)));
    assert!(STACKS.contains(1, 0x7000_5000));
    assert!(!STACKS.contains(0, 0x7000_5000));
    assert!(!STACKS.contains(1, 0x7000_a000));
    let layout = STACKS.layout(1).unwrap();
    assert_eq!((layout.guard.start(), layout.guard.end()), (0x7000_5000, 0x7000_6000));
    assert_eq!((layout.stack.start(), layout.stack.end()), (0x7000_6000, 0x7000_a000));
    assert_eq!(STACKS.layout(usize::MAX), None);
    let pages = STACKS.install(0, 0x40_0000).unwrap();
    assert_eq!(pages[3], (0x7000_4000, 0x40_3000));
    assert_eq!(GuardedStackLayout::from_low_base(usize::MAX - 0xfff, 1), None);
}

#[test]
fn timer_wakes_in_order_of_deadline() {
    let mut timer = Timer::new();
    let late = timer.sleep_until(1, at(30));
    let early = timer.sleep(2, at(5), Duration { nanos: 5 });
    let same = timer.sleep_until(3, at(10));
    assert!(matches!(late.poll(&mut timer, 100, at(0)), PollState::Pending));
    assert!(matches!(same.poll(&mut timer, 300, at(0)), PollState::Pending));
    assert!(matches!(early.poll(&mut timer, 200, at(0)), PollState::Pending));
    assert!(timer.tick(at(9)).is_empty());
    let woken: Vec<(u64, u64)> = timer.tick(at(10)).iter().map(|w| (w.id, w.waker)).collect();
    assert_eq!(woken, vec![(2, 200), (3, 300)]);
    assert!(matches!(early.poll(&mut timer, 200, at(0)), PollState::Ready(())));
    assert!(timer.tick(at(29)).is_empty());
    assert_eq!(timer.tick(at(31)).len(), 1);
    assert!(timer.tick(at(99)).is_empty());
}

#[test]
fn passed_sleep_completes_at_its_poll() {
    let mut timer = Timer::new();
    let sleep = timer.sleep_until(7, at(10));
    assert!(matches!(sleep.poll(&mut timer, 1, at(3)), PollState::Pending));
    assert!(matches!(sleep.poll(&mut timer, 1, at(10)), PollState::Ready(())));
    assert!(timer.tick(at(20)).is_empty());
    assert!(matches!(sleep.poll(&mut timer, 1, at(0)), PollState::Ready(())));
}

#[test]
fn given_up_sleep_is_not_woken() {
    let mut timer = Timer::new();
    let sleep = timer.sleep_until(7, at(10));
    assert!(matches!(sleep.poll(&mut timer, 1, at(3)), PollState::Pending));
    sleep.give_up(&mut timer);
    assert!(timer.tick(at(50)).is_empty());
    let again = timer.sleep_until(7, at(60));
    assert!(matches!(again.poll(&mut timer, 2, at(55)), PollState::Pending));
    assert_eq!(timer.tick(at(60)).len(), 1);
}

#[test]
fn task_execution_classifies_polls() {
    let mut execution = TaskExecution::new();
    assert!(!execution.begin_poll());
    execution.install_runnable();
    assert!(execution.begin_poll());
    assert_eq!(execution.finish_poll(false), TaskPollOutcome::Blocked);
    assert_eq!(execution.finish_poll(true), TaskPollOutcome::Ready);
    execution.install_runnable();
    assert_eq!(execution.finish_poll(false), TaskPollOutcome::Ready);
    execution.record_exit(TaskExit::ThreadExited(3));
    assert_eq!(execution.finish_poll(true), TaskPollOutcome::Exited(TaskExit::ThreadExited(3)));
    execution.set_ready(TaskReadyState::Preempt);
    assert_eq!(execution.take_ready(), TaskReadyState::Preempt);
    assert_eq!(execution.take_ready(), TaskReadyState::Async);
    execution.publish_boundary(TaskBoundaryAction::Cancelled);
    assert_eq!(execution.take_boundary_action(), Some(TaskBoundaryAction::Cancelled));
    assert_eq!(execution.take_boundary_action(), None);
}

#[test]
fn placement_is_hot_only_where_it_stopped() {
    let mut placement = TaskPlacement::new();
    placement.record_stop(2, at(1_000));
    let threshold = Duration { nanos: 500 };
    assert!(placement.is_cache_hot_on(2, at(1_400), threshold));
    assert!(!placement.is_cache_hot_on(1, at(1_400), threshold));
    assert!(!placement.is_cache_hot_on(2, at(9_000), threshold));
}

#[test]
fn saved_trap_is_resumed_once() {
    let fresh =
        TrapFrame { instruction_pointer: 0, stack_pointer: 0, interrupts_enabled: false, registers: 1 };
    let trap =
        TrapFrame { instruction_pointer: 9, stack_pointer: 8, interrupts_enabled: true, registers: 2 };
    let mut frame = TaskFrame::new(fresh);
    let first = frame.dispatch_snapshot(fresh, 0x100, 0x200);
    assert_eq!((first.instruction_pointer, first.stack_pointer, first.registers), (0x100, 0x200, 1));
    frame.save_from_trap(trap);
    assert_eq!(frame.dispatch_snapshot(fresh, 0x100, 0x200), trap);
    let again = frame.dispatch_snapshot(fresh, 0x100, 0x200);
    assert_eq!((again.instruction_pointer, again.interrupts_enabled, again.registers), (0x100, false, 2));
}

#[test]
fn service_call_can_be_taken_or_cancelled() {
    let kind = ServiceWaitKind { role: 1, object: 5 };
    let delivery = ServiceDelivery { usr_ip: 0x40, frame: 3 };
    let mut state = TaskServiceState::new();
    assert_eq!(state.take_active_service_call(), Err(ServiceError::InvalidState));
    assert_eq!(state.begin_service_wait(kind), Ok(()));
    assert_eq!(state.begin_service_wait(kind), Err(ServiceError::InvalidState));
    assert_eq!(state.poll_delivery(kind), ServicePoll::Wait);
    assert_eq!(state.activate_service_call(8, delivery), Ok(()));
    assert_eq!(state.poll_delivery(kind), ServicePoll::Delivered);
    let mut cancelled = state;
    cancelled.cancel_active_service_call(8);
    assert_eq!(cancelled.active_call, None);
    assert_eq!(cancelled.pending_delivery, None);
    assert_eq!(state.take_service_delivery(), Some(delivery));
    assert_eq!(state.take_active_service_call(), Ok(8));
}

#[test]
fn unknown_cpus_are_refused() {
    let mut set = SchedulerSet::install(2);
    assert_eq!(set.cpu_count(), 2);
    assert_eq!(set.check_cpu(1), Ok(()));
    assert_eq!(set.check_cpu(2), Err(SchedulerError::InvalidCpu(2)));
    set.cpus[1] = None;
    assert_eq!(set.check_cpu(1), Err(SchedulerError::UninitializedCpu(1)));
    assert!(!set.cpu_has_work(1));
}

#[test]
fn woken_task_runs_and_blocks() {
    let mut set = SchedulerSet::install(1);
    add_task(&mut set, 0, 1);
    assert_eq!(set.take_next_task_on_cpu(0, at(0)), Ok(None));
    wake(&mut set, 0, 1);
    assert!(set.cpu_has_work(0));
    assert_eq!(set.take_next_task_on_cpu(0, at(0)), Ok(Some(1)));
    assert_eq!(set.current_task_on_cpu(0).map(|task| task.id), Some(1));
    let done = set
        .finalize_current_boundary_on_cpu(
            0,
            rsp_of(1),
            TaskBoundaryAction::Outcome(TaskPollOutcome::Blocked),
            Some(at(1000)),
        )
        .unwrap()
        .unwrap();
    assert_eq!(done.reaped, None);
    assert_eq!(set.current_task_on_cpu(0), None);
    let task = set.task_on_cpu(0, 1).unwrap();
    assert_eq!(task.state.sched, TaskSchedState::Blocked);
    assert_eq!(task.sched.vruntime, 1000);
}

#[test]
fn no_task_is_lost_or_doubled() {
    let mut set = SchedulerSet::install(2);
    for id in 1..=4 {
        add_task(&mut set, (id % 2) as usize, id);
        wake(&mut set, (id % 2) as usize, id);
    }
    for round in 0..12u128 {
        for cpu in 0..2 {
            let next = set.take_next_task_on_cpu(cpu, at(round * 10)).unwrap().unwrap();
            assert_eq!(set.save_preempted_current_on_cpu(cpu, rsp_of(next), Some(at(round * 10 + 5))), Ok(Some(next)));
        }
        for cpu in &set.cpus {
            assert!(cpu.as_ref().unwrap().debug_verify(&set.tasks));
        }
    }
    let snapshots = set.debug_snapshots();
    assert_eq!(snapshots.iter().map(|s| s.task_count).sum::<usize>(), 4);
    assert_eq!(snapshots.iter().map(|s| s.runnable_count).sum::<usize>(), 4);
    assert_eq!(snapshots[0].total_weight, 2048);
}

#[test]
fn equal_tasks_share_the_cpu() {
    let mut set = SchedulerSet::install(1);
    let mut runs = [0; 3];
    for id in 1..=2 {
        add_task(&mut set, 0, id);
        wake(&mut set, 0, id);
    }
    let mut now = 0u128;
    for _ in 0..20 {
        let id = set.take_next_task_on_cpu(0, at(now)).unwrap().unwrap();
        runs[id as usize] += 1;
        now += 4_000_000;
        set.tick_cpu(0, at(now)).unwrap();
        set.save_preempted_current_on_cpu(0, rsp_of(id), Some(at(now))).unwrap();
    }
    assert_eq!(runs[1], 10);
    assert_eq!(runs[2], 10);
}

#[test]
fn cancelled_task_is_marked_and_woken() {
    let mut set = SchedulerSet::install(2);
    add_task(&mut set, 1, 5);
    assert_eq!(set.cancel_task(5, 0), Ok(Some(WakeNotice::Interrupt(1))));
    assert!(set.task_on_cpu(1, 5).unwrap().execution.cancel_requested);
    assert_eq!(set.cancel_task(5, 1), Ok(Some(WakeNotice::PreemptLocal)));
    assert_eq!(set.cancel_task(6, 0), Ok(None));
    assert_eq!(set.task_on_cpu(0, 5), None);
}

#[test]
fn withdrawn_shell_leaves_no_trace() {
    let mut set = SchedulerSet::install(1);
    add_task(&mut set, 0, 1);
    assert_eq!(set.withdraw_inactive_task(0, 1), Ok(true));
    assert_eq!(set.withdraw_inactive_task(0, 1), Ok(false));
    assert_eq!(set.task_on_cpu(0, 1), None);
    assert_eq!(set.withdraw_inactive_task(9, 1), Err(SchedulerError::InvalidCpu(9)));
}

#[test]
fn new_tasks_go_to_the_lightest_cpu() {
    let mut set = SchedulerSet::install(3);
    for id in 1..=2u64 {
        add_task(&mut set, (id - 1) as usize, id);
        wake(&mut set, (id - 1) as usize, id);
        let next = set.take_next_task_on_cpu((id - 1) as usize, at(0)).unwrap();
        assert_eq!(next, Some(id));
    }
    assert_eq!(set.least_loaded_cpu(), 2);
}

#[test]
fn idle_cpu_asks_the_loaded_one() {
    let mut set = SchedulerSet::install(2);
    for id in 1..=3 {
        add_task(&mut set, 0, id);
        wake(&mut set, 0, id);
    }
    assert!(set.take_next_task_on_cpu(0, at(0)).unwrap().is_some());
    let outcome = LoadBalancer::new(1, at(5_000_000)).pull(&mut set).unwrap();
    assert!(matches!(outcome, PullOutcome::AskRemote(0) | PullOutcome::Pulled(_)));
    let taken = LoadBalancer::new(0, at(5_000_000)).handle_remote_request(&mut set, 1);
    assert_eq!(taken, Ok(None));
    let owners: usize = (1..=3u64)
        .map(|id| (0..2).filter(|&cpu| set.task_on_cpu(cpu, id).is_some()).count())
        .sum();
    assert_eq!(owners, 3);
}

#[test]
fn trap_from_user_mode_stays() {
    let mut set = SchedulerSet::install(1);
    let mut dispatch = SchedulerDispatch::new(0);
    assert_eq!(
        dispatch.schedule_current_cpu(&mut set, &STACKS, false, 0, None),
        Ok(ScheduleStep::Stay)
    );
    let mut stranger = SchedulerDispatch::new(4);
    assert_eq!(
        stranger.schedule_current_cpu(&mut set, &STACKS, true, 0, None),
        Err(SchedulerError::InvalidCpu(4))
    );
}

#[test]
fn idle_cpu_selects_when_work_comes() {
    let mut set = SchedulerSet::install(1);
    let mut dispatch = SchedulerDispatch::new(0);
    let idle = STACKS.boot_entry_stack_pointer(0);
    assert!(dispatch.trap_on_fallback_stack(&STACKS, idle));
    assert!(dispatch.should_sleep(&set));
    assert_eq!(
        dispatch.schedule_current_cpu(&mut set, &STACKS, true, idle, Some(at(1))),
        Ok(ScheduleStep::Stay)
    );
    add_task(&mut set, 0, 1);
    wake(&mut set, 0, 1);
    assert!(!dispatch.should_sleep(&set));
    assert_eq!(
        dispatch.schedule_current_cpu(&mut set, &STACKS, true, idle, Some(at(2))),
        Ok(ScheduleStep::Select)
    );
    assert_eq!(dispatch.select_next_or_idle_frame(&mut set, Some(at(2))), Some(1));
    assert_eq!(dispatch.current_process(&set), Ok(1));
}

#[test]
fn preempted_task_may_migrate_after_the_next_choice() {
    let mut set = SchedulerSet::install(1);
    let mut dispatch = SchedulerDispatch::new(0);
    for id in 1..=2 {
        add_task(&mut set, 0, id);
        wake(&mut set, 0, id);
    }
    let first = dispatch.select_next_or_idle_frame(&mut set, Some(at(0))).unwrap();
    assert!(dispatch.begin_dispatch(&mut set));
    assert!(set.task_on_cpu(0, first).unwrap().placement.started);
    preempt_enter_local(&mut dispatch.preempt);
    preempt_request_local(&mut dispatch.preempt);
    assert_eq!(
        dispatch.schedule_current_cpu(&mut set, &STACKS, true, rsp_of(first), Some(at(9))),
        Ok(ScheduleStep::Stay)
    );
    preempt_leave_local(&mut dispatch.preempt);
    assert_eq!(
        dispatch.schedule_current_cpu(&mut set, &STACKS, true, rsp_of(first), Some(at(9))),
        Ok(ScheduleStep::Select)
    );
    assert!(!set.task_on_cpu(0, first).unwrap().placement.migration_ready);
    let second = dispatch.select_next_or_idle_frame(&mut set, Some(at(9))).unwrap();
    assert!(second != first);
    assert!(set.task_on_cpu(0, first).unwrap().placement.migration_ready);
    assert!(!preempt_pending_local(&dispatch.preempt));
}

/// Two CPUs, the first with three tasks of which the preempted one may move.
fn loaded_pair() -> (SchedulerSet, u64) {
    let mut set = SchedulerSet::install(2);
    let mut dispatch = SchedulerDispatch::new(0);
    for id in 1..=3 {
        add_task(&mut set, 0, id);
        wake(&mut set, 0, id);
    }
    let first = dispatch.select_next_or_idle_frame(&mut set, Some(at(0))).unwrap();
    assert!(dispatch.begin_dispatch(&mut set));
    preempt_request_local(&mut dispatch.preempt);
    assert_eq!(
        dispatch.schedule_current_cpu(&mut set, &STACKS, true, rsp_of(first), Some(at(9))),
        Ok(ScheduleStep::Select)
    );
    assert!(dispatch.select_next_or_idle_frame(&mut set, Some(at(9))).is_some());
    (set, first)
}

fn moved_whole(set: &SchedulerSet, before: Task) {
    let after = set.task_on_cpu(1, before.id).unwrap();
    assert_eq!(set.task_on_cpu(0, before.id), None);
    assert!(before.placement.migration_ready && !after.placement.migration_ready);
    assert_eq!(after.sched.cpu_id, 1);
    assert_eq!(after.kernel_stack, before.kernel_stack);
    assert_eq!(after.process_id, before.process_id);
    assert_eq!(after.execution.runnable, before.execution.runnable);
    assert!(!after.execution.cancel_requested);
}

#[test]
fn pulled_task_moves_whole() {
    let (mut set, first) = loaded_pair();
    let before = set.task_on_cpu(0, first).unwrap();
    assert_eq!(
        LoadBalancer::new(1, at(5_000_000)).pull(&mut set),
        Ok(PullOutcome::Pulled(first))
    );
    moved_whole(&set, before);
    for id in 1..=3 {
        assert_eq!(owner_of(&set, id), Some(if id == first { 1 } else { 0 }));
    }
}

#[test]
fn task_given_away_on_request_moves_whole() {
    let (mut set, first) = loaded_pair();
    let before = set.task_on_cpu(0, first).unwrap();
    let balancer = LoadBalancer::new(0, at(5_000_000));
    assert_eq!(balancer.handle_remote_request(&mut set, 0), Ok(None));
    assert_eq!(
        balancer.handle_remote_request(&mut set, 5),
        Err(SchedulerError::InvalidCpu(5))
    );
    assert_eq!(
        balancer.handle_remote_request(&mut set, 1),
        Ok(Some((first, WakeNotice::Interrupt(1))))
    );
    moved_whole(&set, before);
}

#[test]
fn idle_cpu_takes_work_from_elsewhere() {
    let (mut set, first) = loaded_pair();
    assert_eq!(set.take_next_task_on_cpu(1, at(5_000_000)), Ok(Some(first)));
    assert_eq!(owner_of(&set, first), Some(1));
}

#[test]
fn own_work_comes_before_the_work_of_others() {
    let (mut set, first) = loaded_pair();
    add_task(&mut set, 1, 9);
    wake(&mut set, 1, 9);
    assert_eq!(set.take_next_task_on_cpu(1, at(5_000_000)), Ok(Some(9)));
    assert_eq!(owner_of(&set, first), Some(0));
}

#[test]
fn tick_of_an_idle_cpu_pulls() {
    let (mut set, first) = loaded_pair();
    let mut ticks = TickState::new();
    let outcome = set.on_tick_for_cpu(&mut ticks, 1, at(5_000_000)).result.unwrap();
    assert!(outcome.reschedule);
    assert_eq!(outcome.pull, PullOutcome::Pulled(first));
    assert_eq!(owner_of(&set, first), Some(1));
    assert_eq!(ticks.cpu0_test_ticks(), 0);
}

#[test]
fn cancelled_task_is_reaped_at_its_boundary() {
    let mut set = SchedulerSet::install(1);
    let mut dispatch = SchedulerDispatch::new(0);
    add_task(&mut set, 0, 1);
    wake(&mut set, 0, 1);
    assert_eq!(dispatch.select_next_or_idle_frame(&mut set, None), Some(1));
    set.cancel_task(1, 0).unwrap();
    assert!(!dispatch.begin_dispatch(&mut set));
    let step = dispatch.schedule_current_cpu(&mut set, &STACKS, true, rsp_of(1), Some(at(5)));
    let Ok(ScheduleStep::Reap(task)) = step else {
        panic!("a cancelled task ends");
    };
    assert_eq!(task.state.terminal, Some(TaskExit::Cancelled));
    assert_eq!(set.task_on_cpu(0, 1), None);
    assert_eq!(dispatch.select_next_or_idle_frame(&mut set, None), None);
}

#[test]
fn finished_poll_blocks_the_task() {
    let mut set = SchedulerSet::install(1);
    let mut dispatch = SchedulerDispatch::new(0);
    add_task(&mut set, 0, 1);
    wake(&mut set, 0, 1);
    dispatch.select_next_or_idle_frame(&mut set, None);
    dispatch.allow_current_migration(&mut set, false);
    dispatch.yield_current(&mut set);
    assert!(preempt_take_local(&mut dispatch.preempt));
    dispatch.finish_dispatch(&mut set, TaskPollOutcome::Blocked);
    assert_eq!(
        dispatch.schedule_current_cpu(&mut set, &STACKS, true, rsp_of(1), None),
        Ok(ScheduleStep::Select)
    );
    let task = set.task_on_cpu(0, 1).unwrap();
    assert_eq!(task.state.sched, TaskSchedState::Blocked);
    assert!(!task.placement.migration_allowed);
    assert_eq!(dispatch.current_process(&set), Err(ObjectError::ObjectNotFound));
}

#[test]
fn notices_reach_the_right_cpu() {
    let mut dispatch = SchedulerDispatch::new(0);
    assert_eq!(dispatch.notify_cpu(WakeNotice::Interrupt(3)), Some(3));
    assert!(!preempt_pending_local(&dispatch.preempt));
    assert_eq!(dispatch.notify_cpu(WakeNotice::PreemptLocal), None);
    assert!(preempt_pending_local(&dispatch.preempt));
}

#[test]
fn tick_at_the_end_of_a_slice_reschedules() {
    let mut set = SchedulerSet::install(1);
    let mut dispatch = SchedulerDispatch::new(0);
    for id in 1..=2 {
        add_task(&mut set, 0, id);
        wake(&mut set, 0, id);
    }
    dispatch.select_next_or_idle_frame(&mut set, Some(at(0)));
    let mut ticks = TickState::new();
    let report = dispatch.handle_tick(&mut set, &mut ticks, at(50_000_000));
    assert!(report.notices.is_empty());
    assert!(report.result.unwrap().reschedule);
    assert!(preempt_pending_local(&dispatch.preempt));
    assert_eq!(ticks.cpu0_test_ticks(), 1);
    let mut stranger = SchedulerDispatch::new(7);
    let report = stranger.handle_tick(&mut set, &mut ticks, at(1));
    assert_eq!(report.result, Err(SchedulerError::InvalidCpu(7)));
    assert_eq!(ticks.cpu0_test_ticks(), 1);
}

#[test]
fn tick_wakes_the_sleepers() {
    let mut set = SchedulerSet::install(2);
    add_task(&mut set, 0, 1);
    add_task(&mut set, 1, 2);
    add_task(&mut set, 1, 3);
    let mut ticks = TickState { timer: None, cpu0_ticks: u64::MAX };
    ticks.init_timer();
    let timer = ticks.timer.as_mut().unwrap();
    for (id, deadline) in [(1u64, 20u128), (2, 10), (3, 90)] {
        let sleep = timer.sleep_until(id, at(deadline));
        assert!(matches!(sleep.poll(timer, id, at(0)), PollState::Pending));
    }
    ticks.init_timer();
    let report = set.on_tick_for_cpu(&mut ticks, 0, at(30));
    assert_eq!(report.notices, vec![WakeNotice::Interrupt(1), WakeNotice::PreemptLocal]);
    assert_eq!(ticks.cpu0_test_ticks(), 0);
    assert!(!set.task_on_cpu(1, 3).unwrap().wake_queued);
    assert_eq!(set.take_next_task_on_cpu(1, at(31)), Ok(Some(2)));
    assert_eq!(set.take_next_task_on_cpu(0, at(31)), Ok(Some(1)));
    assert!(set.on_tick_for_cpu(&mut ticks, 1, at(40)).notices.is_empty());
    assert_eq!(ticks.cpu0_test_ticks(), 0);
}

#[test]
fn resume_needs_a_task_with_an_address_space() {
    assert_eq!(resume_plan(None, Ok(1), 1), ResumePlan::Idle);
    assert_eq!(resume_plan(Some(3), Err(ObjectError::ObjectNotFound), 1), ResumePlan::Idle);
    assert_eq!(
        resume_plan(Some(3), Ok(1), 1),
        ResumePlan::Task { task_id: 3, load_root: None }
    );
    assert_eq!(
        resume_plan(Some(3), Ok(2), 1),
        ResumePlan::Task { task_id: 3, load_root: Some(2) }
    );
    let fresh =
        TrapFrame { instruction_pointer: 0, stack_pointer: 0, interrupts_enabled: false, registers: 6 };
    let frame = SchedulerDispatch::new(0).idle_resume_frame(&STACKS, fresh, 0x99);
    assert_eq!(frame.stack_pointer, 0x7000_4ff8);
    assert!(frame.interrupts_enabled);
}

#[test]
fn boot_stack_is_reclaimed_once() {
    let map = vec![
        BootArena { start: 0, end: 1, kernel_stack: false },
        BootArena { start: 5, end: 9, kernel_stack: true },
        BootArena { start: 20, end: 30, kernel_stack: true },
    ];
    let mut reclaimed = false;
    assert_eq!(reclaim_bootstrap_stack(1, &mut reclaimed, &map), None);
    assert!(!reclaimed);
    assert_eq!(reclaim_bootstrap_stack(0, &mut reclaimed, &map), Some((5, 9)));
    assert_eq!(reclaim_bootstrap_stack(0, &mut reclaimed, &map), None);
}

#[test]
fn snapshot_counts_tasks_that_have_ended() {
    let mut set = SchedulerSet::install(1);
    for id in 1..=3 {
        add_task(&mut set, 0, id);
    }
    for id in [1, 3] {
        let mut task = set.tasks.remove(id).unwrap();
        task.state.terminal = Some(TaskExit::Completed);
        set.tasks.insert(id, task);
    }
    let snapshot = set.cpus[0].as_ref().unwrap().debug_snapshot(&set.tasks);
    assert_eq!((snapshot.task_count, snapshot.terminal_count), (3, 2));
    assert_eq!((snapshot.runnable_count, snapshot.blocked_count), (0, 3));
}

//! Per-CPU preemption bookkeeping and the cooperative yield point.

use vstd::prelude::*;

use super::cpus::SchedulerSet;
use super::dispatch::SchedulerDispatch;
use super::task::TaskReadyState;
use crate::runtime::extensions::PollState;

verus! {

/// Preemption state of one CPU.
#[derive(Debug, Clone, Copy, PartialEq, Eq, Structural)]
pub struct PreemptState {
    /// Nesting depth of the non-preemptible sections.
    pub count: usize,
    /// Whether a reschedule is due.
    pub need_resched: bool,
}

impl PreemptState {
    /// A CPU outside every section, with no reschedule due.
    pub fn new() -> (state: Self)
        ensures
            state == (PreemptState { count: 0, need_resched: false }),
    {
        PreemptState { count: 0, need_resched: false }
    }

    /// Whether the CPU may be rescheduled at a trap.
    pub open spec fn preemptible(&self) -> bool {
        self.count == 0 && self.need_resched
    }
}

/// Enters one non-preemptible section.
pub fn preempt_enter_local(state: &mut PreemptState)
    requires
        old(state).count < usize::MAX,
    ensures
        *final(state) == (PreemptState { count: (old(state).count + 1) as usize, ..*old(state) }),
{
    state.count = state.count + 1;
}

/// Leaves one non-preemptible section and tells whether it was the outermost.
pub fn preempt_leave_local(state: &mut PreemptState) -> (outermost: bool)
    requires
        old(state).count > 0,
    ensures
        *final(state) == (PreemptState { count: (old(state).count - 1) as usize, ..*old(state) }),
        outermost == (final(state).count == 0),
{
    let previous: usize = state.count;
    state.count = previous - 1;
    previous == 1
}

/// Nesting depth of the non-preemptible sections.
pub fn preempt_count_local(state: &PreemptState) -> (count: usize)
    ensures
        count == state.count,
{
    state.count
}

/// Asks for a reschedule.
pub fn preempt_request_local(state: &mut PreemptState)
    ensures
        *final(state) == (PreemptState { need_resched: true, ..*old(state) }),
{
    state.need_resched = true;
}

/// Whether a reschedule is due.
pub fn preempt_pending_local(state: &PreemptState) -> (pending: bool)
    ensures
        pending == state.need_resched,
{
    state.need_resched
}

/// Takes a due reschedule.
pub fn preempt_take_local(state: &mut PreemptState) -> (taken: bool)
    ensures
        taken == old(state).need_resched,
        *final(state) == (PreemptState { need_resched: false, ..*old(state) }),
{
    let taken = state.need_resched;
    state.need_resched = false;
    taken
}

/// Holder of one non-preemptible section. It must be handed back with
/// [`PreemptGuard::leave`].
#[derive(Debug, PartialEq, Eq, Structural)]
pub struct PreemptGuard {
    pub service_on_drop: bool,
}

impl PreemptGuard {
    /// Enters a section that serves a due reschedule when it ends.
    pub fn enter(state: &mut PreemptState) -> (guard: Self)
        requires
            old(state).count < usize::MAX,
        ensures
            guard.service_on_drop,
            *final(state) == (PreemptState {
                count: (old(state).count + 1) as usize,
                ..*old(state)
            }),
    {
        Self::enter_with_service(state, true)
    }

    /// Enters a section that leaves a due reschedule to the boundary around
    /// it.
    pub fn enter_deferred(state: &mut PreemptState) -> (guard: Self)
        requires
            old(state).count < usize::MAX,
        ensures
            !guard.service_on_drop,
            *final(state) == (PreemptState {
                count: (old(state).count + 1) as usize,
                ..*old(state)
            }),
    {
        Self::enter_with_service(state, false)
    }

    fn enter_with_service(state: &mut PreemptState, service_on_drop: bool) -> (guard: Self)
        requires
            old(state).count < usize::MAX,
        ensures
            guard.service_on_drop == service_on_drop,
            *final(state) == (PreemptState {
                count: (old(state).count + 1) as usize,
                ..*old(state)
            }),
    {
        preempt_enter_local(state);
        PreemptGuard { service_on_drop }
    }

    /// Ends the section and tells whether the CPU is to reschedule now: only
    /// at the outermost level, only if this guard serves reschedules, and only
    /// if one is due.
    pub fn leave(self, state: &mut PreemptState) -> (reschedule: bool)
        requires
            old(state).count > 0,
        ensures
            *final(state) == (PreemptState {
                count: (old(state).count - 1) as usize,
                ..*old(state)
            }),
            reschedule == (self.service_on_drop && final(state).preemptible()),
    {
        preempt_leave_local(state) && self.service_on_drop && preempt_pending_local(state)
    }
}

/// What a section does to the state at its start.
pub open spec fn entered(state: PreemptState) -> PreemptState {
    PreemptState { count: (state.count + 1) as usize, ..state }
}

/// What a section does to the state at its end.
pub open spec fn left(state: PreemptState) -> PreemptState {
    PreemptState { count: (state.count - 1) as usize, ..state }
}

/// Leaving a section undoes entering it, whatever was requested in between:
/// the depth is back, and a request made inside is still due.
pub proof fn law_sections_balance(state: PreemptState)
    requires
        state.count < usize::MAX,
    ensures
        left(entered(state)) == state,
        left(PreemptState { need_resched: true, ..entered(state) }) == (PreemptState {
            need_resched: true,
            ..state
        }),
        !entered(state).preemptible(),
{
}

/// Pending-once yield point.
#[derive(Debug, Clone, Copy, PartialEq, Eq, Structural)]
pub struct Yield {
    pub yielded: bool,
}

impl Yield {
    /// A yield point that has not been reached.
    pub fn once() -> (point: Self)
        ensures
            point == (Yield { yielded: false }),
    {
        Yield { yielded: false }
    }

    /// Polls the yield point: pending the first time, ready from then on. The
    /// first time the running task gives way, a reschedule is due, and the waker
    /// of the caller is woken.
    pub fn poll(
        &mut self,
        dispatch: &mut SchedulerDispatch,
        set: &mut SchedulerSet,
        waker: u64,
        wakes: &mut Vec<u64>,
    ) -> (state: PollState<()>)
        requires
            old(set).wf(),
        ensures
            final(set).wf(),
            *final(self) == (Yield { yielded: true }),
            if old(self).yielded {
                &&& state == PollState::<()>::Ready(())
                &&& *final(dispatch) == *old(dispatch)
                &&& *final(set) == *old(set)
                &&& final(wakes)@ == old(wakes)@
            } else {
                &&& state == PollState::<()>::Pending
                &&& SchedulerDispatch::gives_way(
                    *old(dispatch),
                    *old(set),
                    *final(dispatch),
                    *final(set),
                )
                &&& final(wakes)@ == old(wakes)@.push(waker)
            },
    {
        if self.yielded {
            return PollState::Ready(());
        }
        self.yielded = true;
        dispatch.yield_current(set);
        wakes.push(waker);
        PollState::Pending
    }
}

/// Giving way makes a reschedule due, and the running task is ready to go on.
pub proof fn law_giving_way_makes_reschedule_due(
    before: SchedulerDispatch,
    set: SchedulerSet,
    after: SchedulerDispatch,
    set_after: SchedulerSet,
)
    requires
        set.wf(),
        SchedulerDispatch::gives_way(before, set, after, set_after),
    ensures
        after.preempt.need_resched,
        after.cpu_id == before.cpu_id,
        set.installed(before.cpu_id as int) ==> (set.cpu(before.cpu_id as int).current matches Some(
            id,
        ) ==> set_after.tasks@[id].execution.ready_state == TaskReadyState::Async),
{
}

} // verus!

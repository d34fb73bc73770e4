//! Virtual-time arithmetic of the EEVDF policy.

use super::clock::{Duration, cap_u128, saturating_mul};
use vstd::prelude::*;

verus! {

/// Fixed-point virtual time unit.
pub type VirtualTime = u128;

/// Virtual eligible timestamp of a task.
pub type TaskVirtualEligible = VirtualTime;

/// Virtual deadline timestamp of a task.
pub type TaskVirtualDeadline = VirtualTime;

/// Weight at which virtual time runs as fast as physical time.
pub const BASE_WEIGHT: u128 = 1024;

/// Weight that counts in divisions: a weight of zero counts as one.
pub open spec fn effective_weight(weight: u64) -> u64 {
    if weight == 0 {
        1
    } else {
        weight
    }
}

/// Virtual time that corresponds to `runtime` at the given weight.
pub open spec fn virtual_span(runtime: Duration, weight: u64) -> VirtualTime {
    (cap_u128(runtime.nanos * 1024) / (effective_weight(weight) as u128)) as u128
}

/// The earlier bound of a task's window: it may not run before the scheduler
/// has reached this virtual time.
pub open spec fn eligible_at(vtime: VirtualTime, vruntime: VirtualTime) -> VirtualTime {
    if vruntime >= vtime {
        vruntime
    } else {
        vtime
    }
}

/// The later bound of a task's window.
pub open spec fn deadline_at(
    veligible: VirtualTime,
    slice: Duration,
    weight: u64,
) -> VirtualTime {
    cap_u128(veligible + virtual_span(slice, weight))
}

/// Weight and slice of a task, from which its virtual timestamps derive.
#[derive(Debug, Clone, Copy, PartialEq, Eq, Structural)]
pub struct EevdfParams {
    pub weight: u64,
    pub slice: Duration,
}

impl Default for EevdfParams {
    fn default() -> (params: Self)
        ensures
            params.weight == 1024,
            params.slice.nanos == 5_000_000,
    {
        EevdfParams { weight: 1024, slice: Duration::from_millis(5) }
    }
}

impl EevdfParams {
    /// Virtual length of the slice.
    pub fn slice_to_virtual(self) -> (span: VirtualTime)
        ensures
            span == virtual_span(self.slice, self.weight),
    {
        self.runtime_to_virtual(self.slice)
    }

    /// Virtual time that the task is charged for `runtime`.
    pub fn runtime_to_virtual(self, runtime: Duration) -> (span: VirtualTime)
        ensures
            span == virtual_span(runtime, self.weight),
    {
        let weight: u128 = if self.weight == 0 {
            1
        } else {
            self.weight as u128
        };
        saturating_mul(runtime.as_nanos(), BASE_WEIGHT) / weight
    }

    /// Virtual time by which the scheduler advances while one of its tasks runs
    /// for `runtime`.
    pub fn scheduler_runtime_to_virtual(runtime: Duration, total_weight: u64) -> (span: VirtualTime)
        ensures
            span == virtual_span(runtime, total_weight),
    {
        let weight: u128 = if total_weight == 0 {
            1
        } else {
            total_weight as u128
        };
        saturating_mul(runtime.as_nanos(), BASE_WEIGHT) / weight
    }

    /// Virtual eligible timestamp of a task.
    pub fn eligible(self, scheduler_vtime: VirtualTime, vruntime: VirtualTime) -> (at:
        TaskVirtualEligible)
        ensures
            at == eligible_at(scheduler_vtime, vruntime),
    {
        if vruntime >= scheduler_vtime {
            vruntime
        } else {
            scheduler_vtime
        }
    }

    /// Virtual deadline that belongs to an eligible timestamp.
    pub fn deadline_from_eligible(self, veligible: TaskVirtualEligible) -> (at: TaskVirtualDeadline)
        ensures
            at == deadline_at(veligible, self.slice, self.weight),
    {
        veligible.saturating_add(self.slice_to_virtual())
    }
}

/// A window never closes before it opens, and it opens neither before the
/// scheduler's virtual time nor before the task's own.
pub proof fn law_window_is_ordered(vtime: VirtualTime, vruntime: VirtualTime, params: EevdfParams)
    ensures
        vtime <= eligible_at(vtime, vruntime),
        vruntime <= eligible_at(vtime, vruntime),
        eligible_at(vtime, vruntime) <= deadline_at(
            eligible_at(vtime, vruntime),
            params.slice,
            params.weight,
        ),
{
}

/// The same run costs a heavier task no more virtual time than a lighter one.
pub proof fn law_heavier_runs_cheaper(runtime: Duration, light: u64, heavy: u64)
    requires
        light <= heavy,
    ensures
        virtual_span(runtime, heavy) <= virtual_span(runtime, light),
{
    let work = cap_u128(runtime.nanos * 1024) as int;
    let l = effective_weight(light) as int;
    let h = effective_weight(heavy) as int;
    assert(work / h <= work / l) by (nonlinear_arith)
        requires
            0 < l <= h,
            0 <= work,
    ;
}

} // verus!

//! Probing of the kernel's devices.

use super::DeviceProbeError;
use crate::object::Handle;
use vstd::prelude::*;

verus! {

/// What to do after a probe.
#[derive(Debug, Clone, Copy, PartialEq, Eq, Structural)]
pub enum ProbeStep {
    /// The device stays published: its owner handle is given up.
    Keep(Handle),
    /// There is nothing to keep.
    Skip,
    /// The remaining probes are not run.
    Stop(DeviceProbeError),
}

/// What a probe leads to: a device that is not there is no failure.
pub open spec fn step_of(result: Result<Option<Handle>, DeviceProbeError>) -> ProbeStep {
    match result {
        Ok(Some(handle)) => ProbeStep::Keep(handle),
        Ok(None) => ProbeStep::Skip,
        Err(DeviceProbeError::NotPresent) => ProbeStep::Skip,
        Err(error) => ProbeStep::Stop(error),
    }
}

/// Decides what to do after a probe.
pub fn after_probe(result: Result<Option<Handle>, DeviceProbeError>) -> (step: ProbeStep)
    ensures
        step == step_of(result),
{
    match result {
        Ok(Some(handle)) => ProbeStep::Keep(handle),
        Ok(None) => ProbeStep::Skip,
        Err(DeviceProbeError::NotPresent) => ProbeStep::Skip,
        Err(error) => ProbeStep::Stop(error),
    }
}

/// Number of probes that run: all of them, or those up to the first failure.
pub open spec fn probes_run(
    results: Seq<Result<Option<Handle>, DeviceProbeError>>,
    from: int,
) -> int
    decreases results.len() - from,
{
    if from >= results.len() {
        results.len() as int
    } else if step_of(results[from]) is Stop {
        from + 1
    } else {
        probes_run(results, from + 1)
    }
}

/// The handles that the first probes leave behind.
pub open spec fn kept_handles(
    results: Seq<Result<Option<Handle>, DeviceProbeError>>,
    count: int,
) -> Seq<Handle>
    decreases count,
{
    if count <= 0 {
        Seq::empty()
    } else {
        let before = kept_handles(results, count - 1);
        match step_of(results[count - 1]) {
            ProbeStep::Keep(handle) => before.push(handle),
            _ => before,
        }
    }
}

/// How a run over all the probes ended.
pub struct ProbeRun {
    pub result: Result<(), DeviceProbeError>,
    /// Probes that were run.
    pub run: usize,
    /// Owner handles of the devices that stay published.
    pub kept: Vec<Handle>,
}

/// Goes over the results of the probes in order and stops at the first failure.
pub fn probe_all(results: &Vec<Result<Option<Handle>, DeviceProbeError>>) -> (outcome: ProbeRun)
    ensures
        outcome.run == probes_run(results@, 0),
        outcome.kept@ == kept_handles(results@, outcome.run as int),
        match outcome.result {
            Ok(_) => forall|i: int|
                0 <= i < results@.len() ==> !(step_of(#[trigger] results@[i]) is Stop),
            Err(error) => outcome.run > 0 && step_of(results@[outcome.run - 1]) == ProbeStep::Stop(
                error,
            ),
        },
{
    let mut kept: Vec<Handle> = Vec::new();
    let mut i: usize = 0;
    while i < results.len()
        invariant
            i <= results@.len(),
            kept@ == kept_handles(results@, i as int),
            probes_run(results@, 0) == probes_run(results@, i as int),
            forall|j: int| 0 <= j < i ==> !(step_of(#[trigger] results@[j]) is Stop),
        decreases results@.len() - i,
    {
        match after_probe(results[i]) {
            ProbeStep::Keep(handle) => {
                kept.push(handle);
            },
            ProbeStep::Skip => {},
            ProbeStep::Stop(error) => {
                return ProbeRun { result: Err(error), run: i + 1, kept };
            },
        }
        i = i + 1;
    }
    ProbeRun { result: Ok(()), run: i, kept }
}

} // verus!

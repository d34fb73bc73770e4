//! Placement of tasks on CPUs: the choice of a CPU for a new task and the
//! pulling of ready tasks from busier CPUs.

use super::clock::{Duration, Instant};
use super::cpus::{SchedulerSet, WakeNotice, notice_for, same_but_marker};
use super::scheduler::{MigrationPolicy, Scheduler, SchedulerError, cap_u64, read_task, stopped};
use super::task::{Task, TaskId, TaskPlacement};
use super::time::{SleepEntry, SleepWake, Timer};
use super::weights::ready_count;
use vstd::prelude::*;

verus! {

/// Weight by which another CPU must be ahead before a task moves.
pub const LOAD_BALANCE_WEIGHT_THRESHOLD: u64 = 1024;

/// Shortest time between two balance attempts of a CPU, in nanoseconds.
pub const LOAD_BALANCE_INTERVAL_NANOS: u128 = 1_000_000;

/// Time during which a stopped task counts as cache-hot, in nanoseconds.
pub const CACHE_HOT_THRESHOLD_NANOS: u128 = 250_000;

/// Load of one CPU as far as placement compares it.
#[derive(Debug, Clone, Copy, PartialEq, Eq, Structural)]
pub struct CpuLoad {
    pub weight: u64,
    pub runnable: usize,
    pub has_work: bool,
}

impl CpuLoad {
    /// Whether this load is strictly lighter: by weight, then by number of
    /// ready tasks, then by being idle.
    pub open spec fn lighter(self, other: CpuLoad) -> bool {
        ||| self.weight < other.weight
        ||| self.weight == other.weight && self.runnable < other.runnable
        ||| self.weight == other.weight && self.runnable == other.runnable && !self.has_work
            && other.has_work
    }
}

/// Whether the sequence ascends strictly.
pub open spec fn ascending_cpus(cpus: Seq<usize>) -> bool {
    forall|i: int, j: int| 0 <= i < j < cpus.len() ==> #[trigger] cpus[i] < #[trigger] cpus[j]
}

/// Two ascending sequences with the same members are equal.
pub proof fn lemma_ascending_unique(a: Seq<usize>, b: Seq<usize>)
    requires
        ascending_cpus(a),
        ascending_cpus(b),
        forall|c: usize| a.contains(c) <==> b.contains(c),
    ensures
        a == b,
    decreases a.len(),
{
    if a.len() == 0 {
        if b.len() > 0 {
            assert(b.contains(b[0]));
        }
        assert(a =~= b);
    } else {
        let x = a.last();
        assert(a.contains(x));
        assert(b.contains(x));
        let y = b.last();
        assert(b.contains(y));
        assert(a.contains(y));
        let ix = choose|i: int| 0 <= i < b.len() && b[i] == x;
        let iy = choose|i: int| 0 <= i < a.len() && a[i] == y;
        if ix < b.len() - 1 {
            assert(b[ix] < b[b.len() - 1]);
            if iy < a.len() - 1 {
                assert(a[iy] < a[a.len() - 1]);
            }
        }
        assert(x == y);
        let ra = a.drop_last();
        let rb = b.drop_last();
        assert forall|c: usize| ra.contains(c) <==> rb.contains(c) by {
            if ra.contains(c) {
                let i = choose|i: int| 0 <= i < ra.len() && ra[i] == c;
                assert(a[i] == c && a[i] < a[a.len() - 1]);
                assert(a.contains(c));
                let j = choose|j: int| 0 <= j < b.len() && b[j] == c;
                assert(j < b.len() - 1);
                assert(rb[j] == c);
            }
            if rb.contains(c) {
                let i = choose|i: int| 0 <= i < rb.len() && rb[i] == c;
                assert(b[i] == c && b[i] < b[b.len() - 1]);
                assert(b.contains(c));
                let j = choose|j: int| 0 <= j < a.len() && a[j] == c;
                assert(j < a.len() - 1);
                assert(ra[j] == c);
            }
        }
        lemma_ascending_unique(ra, rb);
        assert(a =~= ra.push(x));
        assert(b =~= rb.push(y));
    }
}

/// A task that may not migrate again before it has run.
pub open spec fn resting(task: Task) -> Task {
    Task {
        placement: (TaskPlacement { migration_ready: false, ..task.placement }),
        ..task
    }
}

impl SchedulerSet {
    pub open spec fn load(&self, cpu: int) -> CpuLoad {
        CpuLoad {
            weight: self.cpu(cpu).total_weight,
            runnable: ready_count(self.cpu(cpu).owned@.dom(), self.tasks@) as usize,
            has_work: self.cpu(cpu).has_work(),
        }
    }

    /// Whether the CPU is installed and none is lighter.
    pub open spec fn lightest(&self, cpu: int) -> bool {
        &&& self.installed(cpu)
        &&& forall|other: int| #[trigger]
            self.installed(other) ==> !self.load(other).lighter(self.load(cpu))
    }

    /// The lightest CPUs in ascending order.
    pub open spec fn lightest_cpus(&self, cpus: Seq<usize>) -> bool {
        &&& ascending_cpus(cpus)
        &&& forall|c: usize| #[trigger] cpus.contains(c) <==> self.lightest(c as int)
    }

    fn load_of(&self, cpu_id: usize) -> (load: Option<CpuLoad>)
        requires
            self.wf(),
        ensures
            load == (if self.installed(cpu_id as int) {
                Some(self.load(cpu_id as int))
            } else {
                None
            }),
            load matches Some(load) ==> load.runnable == ready_count(
                self.cpu(cpu_id as int).owned@.dom(),
                self.tasks@,
            ),
    {
        if cpu_id >= self.cpus.len() {
            return None;
        }
        match &self.cpus[cpu_id] {
            None => None,
            Some(cpu) => {
                assert(self.installed(cpu_id as int));
                Some(
                    CpuLoad {
                        weight: cpu.total_weight(),
                        runnable: cpu.runnable_task_count(&self.tasks),
                        has_work: cpu.has_runnable_work(),
                    },
                )
            },
        }
    }

    /// The CPU for a new task: one of the lightest, taken in turn.
    pub fn least_loaded_cpu(&mut self) -> (cpu: usize)
        requires
            old(self).wf(),
            exists|c: int| old(self).installed(c),
        ensures
            final(self).wf(),
            final(self).cpus == old(self).cpus,
            final(self).tasks == old(self).tasks,
            final(self).balance_hint == (if old(self).balance_hint == usize::MAX {
                0
            } else {
                old(self).balance_hint + 1
            }),
            old(self).lightest(cpu as int),
            forall|c: int| #[trigger]
                old(self).installed(c) ==> old(self).cpu(cpu as int).total_weight <= old(self).cpu(
                    c,
                ).total_weight,
            forall|c: int| #[trigger]
                old(self).installed(c) && old(self).cpu(c).total_weight == old(self).cpu(
                    cpu as int,
                ).total_weight ==> ready_count(
                    old(self).cpu(cpu as int).owned@.dom(),
                    old(self).tasks@,
                ) <= ready_count(old(self).cpu(c).owned@.dom(), old(self).tasks@),
            exists|candidates: Seq<usize>| #[trigger]
                old(self).lightest_cpus(candidates) && candidates.len() > 0 && cpu == candidates[(
                old(self).balance_hint as int) % (candidates.len() as int)],
    {
        let mut candidates: Vec<usize> = Vec::new();
        let mut best = CpuLoad { weight: u64::MAX, runnable: usize::MAX, has_work: true };
        let mut i: usize = 0;
        while i < self.cpus.len()
            invariant
                i <= self.cpus@.len(),
                self.wf(),
                *self == *old(self),
                ascending_cpus(candidates@),
                forall|k: int| 0 <= k < candidates@.len() ==> #[trigger] candidates@[k] < i,
                forall|c: usize| #[trigger]
                    candidates@.contains(c) <==> c < i && self.installed(c as int) && self.load(
                        c as int,
                    ) == best,
                forall|c: int| #[trigger]
                    self.installed(c) && c < i ==> !self.load(c).lighter(best),
                forall|c: int| #[trigger]
                    self.installed(c) && c < i ==> ready_count(
                        self.cpu(c).owned@.dom(),
                        self.tasks@,
                    ) <= usize::MAX,
                candidates@.len() == 0 ==> best == (CpuLoad {
                    weight: u64::MAX,
                    runnable: usize::MAX,
                    has_work: true,
                }) && forall|c: int| 0 <= c < i ==> !#[trigger] self.installed(c),
            decreases self.cpus@.len() - i,
        {
            match self.load_of(i) {
                None => {},
                Some(load) => {
                    assert(self.installed(i as int));
                    let ghost before = candidates@;
                    if load.weight < best.weight || (load.weight == best.weight && load.runnable
                        < best.runnable) || (load.weight == best.weight && load.runnable
                        == best.runnable && best.has_work && !load.has_work) {
                        candidates.clear();
                        candidates.push(i);
                        best = load;
                        proof {
                            assert(candidates@ =~= seq![i]);
                            assert forall|c: usize| #[trigger] candidates@.contains(c) <==> c < i + 1
                                && self.installed(c as int) && self.load(c as int) == best by {
                                if c == i {
                                    assert(candidates@[0] == i);
                                } else if c < i && self.installed(c as int) {
                                    assert(!self.load(c as int).lighter(best));
                                }
                            }
                        }
                    } else if load.weight == best.weight && load.runnable == best.runnable
                        && load.has_work == best.has_work {
                        candidates.push(i);
                        proof {
                            assert forall|c: usize| #[trigger] candidates@.contains(c) <==> c < i + 1
                                && self.installed(c as int) && self.load(c as int) == best by {
                                if c == i {
                                    assert(candidates@[before.len() as int] == i);
                                } else if before.contains(c) {
                                    let k = choose|k: int| 0 <= k < before.len() && before[k] == c;
                                    assert(candidates@[k] == c);
                                } else if candidates@.contains(c) {
                                    let k = choose|k: int|
                                        0 <= k < candidates@.len() && candidates@[k] == c;
                                    assert(before[k] == c);
                                }
                            }
                        }
                    }
                },
            }
            i = i + 1;
        }
        proof {
            let c = choose|c: int| old(self).installed(c);
            assert(self.installed(c));
            assert(candidates@.len() > 0);
            assert(candidates@.contains(candidates@[0]));
            assert forall|c: usize| #[trigger] candidates@.contains(c) <==> self.lightest(
                c as int,
            ) by {
                if self.lightest(c as int) {
                    assert(self.installed(candidates@[0] as int));
                    assert(!self.load(candidates@[0] as int).lighter(self.load(c as int)));
                }
            }
            assert(old(self).lightest_cpus(candidates@));
        }
        let hint: usize = self.balance_hint;
        self.balance_hint = hint.wrapping_add(1);
        let at: usize = hint % candidates.len();
        let cpu: usize = candidates[at];
        proof {
            assert(candidates@.contains(cpu));
            assert(old(self).lightest(cpu as int));
            assert forall|c: int| #[trigger] old(self).installed(c) implies !old(self).load(
                c,
            ).lighter(old(self).load(cpu as int)) && ready_count(
                old(self).cpu(c).owned@.dom(),
                old(self).tasks@,
            ) <= usize::MAX by {
                assert(0 <= c < old(self).cpus@.len());
            }
            self.lemma_same_wf(*old(self));
        }
        cpu
    }

    /// The invariant does not depend on the tie counter.
    proof fn lemma_same_wf(&self, before: SchedulerSet)
        requires
            before.wf(),
            self.cpus == before.cpus,
            self.tasks == before.tasks,
        ensures
            self.wf(),
    {
        assert forall|c: int| #[trigger] self.installed(c) implies self.cpu(c).cpu_id == c
            && self.cpu(c).wf(self.tasks@) by {
            assert(before.installed(c));
        }
        assert forall|c: int, d: int, id: TaskId|
            self.installed(c) && self.installed(d) && c != d
                && #[trigger] self.cpu(c).owns(id) implies !#[trigger] self.cpu(d).owns(id) by {
            assert(before.installed(c) && before.installed(d));
            assert(before.cpu(c).owns(id));
        }
        assert forall|c: int, d: int, i: int, j: int|
            self.installed(c) && self.installed(d) && c != d && 0 <= i < self.cpu(
                c,
            ).wake_inbox@.len() && 0 <= j < self.cpu(
                d,
            ).wake_inbox@.len() implies #[trigger] self.cpu(c).wake_inbox@[i]
            != #[trigger] self.cpu(d).wake_inbox@[j] by {
            assert(before.installed(c) && before.installed(d));
            assert(before.cpu(c).wake_inbox@[i] != before.cpu(d).wake_inbox@[j]);
        }
        assert forall|id: TaskId| #[trigger]
            self.tasks@.dom().contains(id) && self.tasks@[id].sched.exec_start is Some implies exists|
            c: int,
        | #[trigger] self.installed(c) && self.cpu(c).owns(id) by {
            let c = choose|c: int| #[trigger] before.installed(c) && before.cpu(c).owns(id);
            assert(self.installed(c));
        }
    }

    /// Whether work can be pulled from `cpu` by `puller`.
    pub open spec fn pull_source(&self, cpu: int, puller: usize) -> bool {
        &&& self.installed(cpu)
        &&& cpu != puller
        &&& self.cpu(cpu).has_work()
        &&& self.cpu(cpu).total_weight > 0
    }

    /// Whether the CPU is a pull source and none is heavier.
    pub open spec fn heaviest_source(&self, cpu: int, puller: usize) -> bool {
        &&& self.pull_source(cpu, puller)
        &&& forall|other: int| #[trigger]
            self.pull_source(other, puller) ==> self.cpu(other).total_weight <= self.cpu(
                cpu,
            ).total_weight
    }

    pub open spec fn heaviest_sources(&self, cpus: Seq<usize>, puller: usize) -> bool {
        &&& ascending_cpus(cpus)
        &&& forall|c: usize| #[trigger]
            cpus.contains(c) <==> self.heaviest_source(c as int, puller)
    }

    /// The CPU whose turn it is among the heaviest pull sources.
    pub open spec fn picked(&self, cpu: usize, puller: usize) -> bool {
        exists|candidates: Seq<usize>| #[trigger]
            self.heaviest_sources(candidates, puller) && candidates.len() > 0 && cpu
                == candidates[(self.balance_hint as int) % (candidates.len() as int)]
    }

    /// The tie counter after one more choice.
    pub open spec fn next_hint(&self) -> usize {
        if self.balance_hint == usize::MAX {
            0
        } else {
            (self.balance_hint + 1) as usize
        }
    }

    /// The CPU to pull from: one of the heaviest, taken in turn, with its
    /// weight.
    fn pick_source(&mut self, puller: usize) -> (source: Option<(usize, u64)>)
        requires
            old(self).wf(),
        ensures
            final(self).wf(),
            final(self).cpus == old(self).cpus,
            final(self).tasks == old(self).tasks,
            source is Some <==> exists|c: int| old(self).pull_source(c, puller),
            match source {
                None => final(self).balance_hint == old(self).balance_hint,
                Some((cpu, weight)) => {
                    &&& old(self).heaviest_source(cpu as int, puller)
                    &&& weight == old(self).cpu(cpu as int).total_weight
                    &&& old(self).picked(cpu, puller)
                    &&& final(self).balance_hint == old(self).next_hint()
                },
            },
    {
        let mut candidates: Vec<usize> = Vec::new();
        let mut best: u64 = 0;
        let mut i: usize = 0;
        while i < self.cpus.len()
            invariant
                i <= self.cpus@.len(),
                self.wf(),
                *self == *old(self),
                ascending_cpus(candidates@),
                forall|k: int| 0 <= k < candidates@.len() ==> #[trigger] candidates@[k] < i,
                forall|c: usize| #[trigger]
                    candidates@.contains(c) <==> c < i && self.pull_source(c as int, puller)
                        && self.cpu(c as int).total_weight == best,
                forall|c: int| #[trigger]
                    self.pull_source(c, puller) && c < i ==> self.cpu(c).total_weight <= best,
                candidates@.len() == 0 ==> best == 0 && forall|c: int|
                    0 <= c < i ==> !#[trigger] self.pull_source(c, puller),
            decreases self.cpus@.len() - i,
        {
            if i != puller {
                match &self.cpus[i] {
                    None => {
                        assert(!self.pull_source(i as int, puller));
                    },
                    Some(cpu) => {
                        assert(self.installed(i as int));
                        let weight: u64 = cpu.total_weight();
                        let ghost before = candidates@;
                        if cpu.has_runnable_work() && weight > 0 {
                            assert(self.pull_source(i as int, puller));
                            if weight > best {
                                candidates.clear();
                                candidates.push(i);
                                best = weight;
                                proof {
                                    assert(candidates@ =~= seq![i]);
                                    assert forall|c: usize| #[trigger] candidates@.contains(c)
                                        <==> c < i + 1 && self.pull_source(c as int, puller)
                                        && self.cpu(c as int).total_weight == best by {
                                        if c == i {
                                            assert(candidates@[0] == i);
                                        }
                                    }
                                }
                            } else if weight == best {
                                candidates.push(i);
                                proof {
                                    assert forall|c: usize| #[trigger] candidates@.contains(c)
                                        <==> c < i + 1 && self.pull_source(c as int, puller)
                                        && self.cpu(c as int).total_weight == best by {
                                        if c == i {
                                            assert(candidates@[before.len() as int] == i);
                                        } else if before.contains(c) {
                                            let k = choose|k: int|
                                                0 <= k < before.len() && before[k] == c;
                                            assert(candidates@[k] == c);
                                        } else if candidates@.contains(c) {
                                            let k = choose|k: int|
                                                0 <= k < candidates@.len() && candidates@[k] == c;
                                            assert(before[k] == c);
                                        }
                                    }
                                }
                            }
                        } else {
                            assert(!self.pull_source(i as int, puller));
                        }
                    },
                }
            }
            i = i + 1;
        }
        if candidates.len() == 0 {
            proof {
                assert forall|c: int| !old(self).pull_source(c, puller) by {
                    if self.pull_source(c, puller) {
                        assert(0 <= c < i);
                    }
                }
            }
            return None;
        }
        proof {
            assert(candidates@.contains(candidates@[0]));
            assert(old(self).pull_source(candidates@[0] as int, puller));
            assert forall|c: usize| #[trigger] candidates@.contains(c) <==> self.heaviest_source(
                c as int,
                puller,
            ) by {
                if self.heaviest_source(c as int, puller) {
                    assert(self.pull_source(candidates@[0] as int, puller));
                }
            }
            assert(old(self).heaviest_sources(candidates@, puller));
        }
        let hint: usize = self.balance_hint;
        self.balance_hint = hint.wrapping_add(1);
        let at: usize = hint % candidates.len();
        let cpu: usize = candidates[at];
        proof {
            assert(candidates@.contains(cpu));
            self.lemma_same_wf(*old(self));
        }
        Some((cpu, best))
    }

    /// Takes a migratable task off a CPU and records the balance attempt there.
    fn take_migratable_from(
        &mut self,
        cpu_id: usize,
        now: Instant,
        policy: MigrationPolicy,
    ) -> (taken: Option<TaskId>)
        requires
            old(self).wf(),
            old(self).installed(cpu_id as int),
        ensures
            final(self).wf(),
            final(self).only_cpu_changed(*old(self), cpu_id as int),
            final(self).balance_hint == old(self).balance_hint,
            ({
                let cpu = old(self).cpu(cpu_id as int);
                let threshold = Duration { nanos: CACHE_HOT_THRESHOLD_NANOS };
                &&& taken is Some <==> exists|id: TaskId| #[trigger]
                    cpu.migration_choice(old(self).tasks@, id, now, threshold, policy)
                &&& match taken {
                    None => final(self).cpu(cpu_id as int) == cpu && final(self).tasks == old(self).tasks,
                    Some(id) => {
                        &&& Scheduler::migration_effect(
                            cpu,
                            old(self).tasks@,
                            final(self).cpu(cpu_id as int),
                            final(self).tasks@,
                            id,
                            now,
                            threshold,
                            policy,
                        )
                        &&& final(self).cpu(cpu_id as int).last_balance == Some(now)
                        &&& final(self).tasks@.dom().contains(id)
                        &&& forall|c: int| #[trigger]
                            final(self).installed(c) ==> !final(self).cpu(c).owns(id)
                    },
                }
            }),
    {
        let ghost c = cpu_id as int;
        let mut taken: Option<TaskId> = None;
        let mut slot = self.cpus[cpu_id].take();
        match slot.as_mut() {
            Some(cpu) => {
                let ghost before = *cpu;
                taken = cpu.take_migratable(
                    &mut self.tasks,
                    now,
                    Duration { nanos: CACHE_HOT_THRESHOLD_NANOS },
                    policy,
                );
                let ghost plain = *cpu;
                if taken.is_some() {
                    cpu.mark_rebalanced(now);
                }
                proof {
                    if taken is Some {
                        assert(before.task_wf(old(self).tasks@, taken->Some_0));
                        assert forall|id: TaskId| #[trigger] cpu.owns(id) implies cpu.task_wf(
                            self.tasks@,
                            id,
                        ) by {
                            assert(plain.owns(id));
                            assert(plain.task_wf(self.tasks@, id));
                        }
                        assert forall|id: TaskId| #[trigger] cpu.owns(id) implies
                            self.tasks@[id].state.terminal is None by {
                            assert(plain.owns(id));
                        }
                        assert(cpu.wf(self.tasks@));
                    }
                    assert forall|i: int| 0 <= i < cpu.wake_inbox@.len() implies
                        before.wake_inbox@.contains(#[trigger] cpu.wake_inbox@[i]) by {
                        assert(before.wake_inbox@[i] == cpu.wake_inbox@[i]);
                    }
                }
            },
            None => {},
        }
        self.cpus[cpu_id] = slot;
        proof {
            self.lemma_after_cpu_op(*old(self), c);
            if taken is Some {
                let id = taken->Some_0;
                assert forall|d: int| #[trigger] self.installed(d) implies !self.cpu(d).owns(id) by {
                    if d != c {
                        assert(self.cpus@[d] == old(self).cpus@[d]);
                        assert(old(self).installed(d));
                        assert(old(self).cpu(c).owns(id));
                        assert(!old(self).cpu(d).owns(id));
                    }
                }
            }
        }
        taken
    }

    /// Records a balance attempt of a CPU.
    fn mark_cpu_rebalanced(&mut self, cpu_id: usize, now: Instant)
        requires
            old(self).wf(),
            old(self).installed(cpu_id as int),
        ensures
            final(self).wf(),
            final(self).only_cpu_changed(*old(self), cpu_id as int),
            final(self).tasks == old(self).tasks,
            final(self).balance_hint == old(self).balance_hint,
            final(self).cpu(cpu_id as int) == (Scheduler {
                last_balance: Some(now),
                ..old(self).cpu(cpu_id as int)
            }),
    {
        let ghost c = cpu_id as int;
        let mut slot = self.cpus[cpu_id].take();
        match slot.as_mut() {
            Some(cpu) => {
                let ghost before = *cpu;
                cpu.mark_rebalanced(now);
                proof {
                    assert forall|id: TaskId| #[trigger] cpu.owns(id) implies cpu.task_wf(
                        self.tasks@,
                        id,
                    ) by {
                        assert(before.owns(id));
                        assert(before.task_wf(self.tasks@, id));
                    }
                    assert forall|id: TaskId| #[trigger] cpu.owns(id) implies
                        self.tasks@[id].state.terminal is None by {
                        assert(before.owns(id));
                    }
                    assert forall|i: int| 0 <= i < cpu.wake_inbox@.len() implies
                        before.wake_inbox@.contains(#[trigger] cpu.wake_inbox@[i]) by {
                        assert(before.wake_inbox@[i] == cpu.wake_inbox@[i]);
                    }
                    assert(cpu.wf(self.tasks@));
                }
            },
            None => {},
        }
        self.cpus[cpu_id] = slot;
        proof {
            self.lemma_after_cpu_op(*old(self), c);
        }
    }

    /// Hands a task that no CPU owns to `cpu_id`, and tells how that CPU learns
    /// of it.
    fn migrate(&mut self, cpu_id: usize, task_id: TaskId, current_cpu: usize) -> (notice: WakeNotice)
        requires
            old(self).wf(),
            old(self).installed(cpu_id as int),
            old(self).tasks@.dom().contains(task_id),
            forall|c: int| #[trigger] old(self).installed(c) ==> !old(self).cpu(c).owns(task_id),
        ensures
            final(self).wf(),
            notice == notice_for(cpu_id, current_cpu),
            final(self).only_cpu_changed(*old(self), cpu_id as int),
            final(self).balance_hint == old(self).balance_hint,
            Scheduler::admit_effect(
                old(self).cpu(cpu_id as int),
                old(self).tasks@.insert(task_id, resting(old(self).tasks@[task_id])),
                final(self).cpu(cpu_id as int),
                final(self).tasks@,
                task_id,
            ),
            final(self).tasks@ == old(self).tasks@.insert(
                task_id,
                old(self).cpu(cpu_id as int).admitted(resting(old(self).tasks@[task_id])),
            ),
    {
        let mut task = read_task(&self.tasks, task_id);
        task.placement.set_migration_ready(false);
        let _ = self.tasks.insert(task_id, task);
        proof {
            let c = cpu_id as int;
            assert(self.cpu(c) == old(self).cpu(c));
            assert forall|id: TaskId| #[trigger] old(self).cpu(c).owns(id) implies
                self.tasks@.dom().contains(id) && same_but_marker(
                old(self).tasks@[id],
                self.tasks@[id],
            ) by {
                assert(old(self).cpu(c).task_wf(old(self).tasks@, id));
                assert(id != task_id);
            }
            assert forall|i: int| 0 <= i < old(self).cpu(c).wake_inbox@.len() implies
                self.tasks@.dom().contains(#[trigger] old(self).cpu(c).wake_inbox@[i])
                && self.tasks@[old(self).cpu(c).wake_inbox@[i]].wake_queued by {
                assert(old(self).cpu(c).inbox_wf(old(self).tasks@));
            }
            self.lemma_table_edit(*old(self), task_id);
        }
        let ghost mid = *self;
        proof {
            assert forall|c: int| #[trigger] self.installed(c) implies !self.cpu(c).owns(
                task_id,
            ) by {
                assert(old(self).installed(c));
            }
            assert(mid.tasks@ =~= old(self).tasks@.insert(
                task_id,
                resting(old(self).tasks@[task_id]),
            ));
        }
        let result = self.admit_task_on_cpu(cpu_id, task_id, current_cpu);
        proof {
            assert(mid.cpu_error(cpu_id) is None);
            assert(self.tasks@ =~= old(self).tasks@.insert(task_id, self.tasks@[task_id]));
        }
        match result {
            Ok((_, notice)) => notice,
            Err(_) => WakeNotice::PreemptLocal,
        }
    }
}

/// Outcome of an attempt to pull work.
#[derive(Debug, Clone, Copy, PartialEq, Eq, Structural)]
pub enum PullOutcome {
    /// Nothing to do.
    Balanced,
    /// No task could be stolen: ask that CPU to give one away.
    AskRemote(usize),
    /// The task has moved here; that CPU is to be notified.
    Pulled(TaskId),
}

/// Load balancer of one CPU at one point in time.
#[derive(Debug, Clone, Copy, PartialEq, Eq, Structural)]
pub struct LoadBalancer {
    pub cpu_id: usize,
    pub now: Instant,
}

impl LoadBalancer {
    pub fn new(cpu_id: usize, now: Instant) -> (balancer: Self)
        ensures
            balancer.cpu_id == cpu_id,
            balancer.now == now,
    {
        LoadBalancer { cpu_id, now }
    }

    /// Whether the CPU may try to balance now.
    pub open spec fn due(&self, set: SchedulerSet) -> bool {
        match set.cpu(self.cpu_id as int).last_balance {
            None => true,
            Some(last) => self.now.nanos < last.nanos || self.now.nanos - last.nanos
                >= LOAD_BALANCE_INTERVAL_NANOS,
        }
    }

    /// Whether `source` is so much heavier than `target` that a task may move.
    pub open spec fn unbalanced(&self, source: u64, target: u64) -> bool {
        source > cap_u64(target + LOAD_BALANCE_WEIGHT_THRESHOLD)
    }

    /// What an attempt of an installed CPU to pull work does. The source is the
    /// heaviest other CPU, taken in turn among equals; a task moves only off a
    /// source that is far heavier.
    pub open spec fn pull_effect(
        before: SchedulerSet,
        after: SchedulerSet,
        cpu_id: usize,
        now: Instant,
        outcome: PullOutcome,
    ) -> bool {
        let balancer = LoadBalancer { cpu_id, now };
        let local = cpu_id as int;
        let local_weight = before.cpu(local).total_weight;
        let sourced = exists|c: int| #[trigger] before.pull_source(c, cpu_id);
        match outcome {
            PullOutcome::Balanced => if !balancer.due(before) || !sourced {
                after == before
            } else {
                &&& after.cpus == before.cpus
                &&& after.tasks == before.tasks
                &&& after.balance_hint == before.next_hint()
                &&& exists|source: usize| #[trigger]
                    before.picked(source, cpu_id) && !balancer.unbalanced(
                        before.cpu(source as int).total_weight,
                        local_weight,
                    )
            },
            PullOutcome::AskRemote(source) => {
                &&& balancer.due(before)
                &&& before.picked(source, cpu_id)
                &&& before.heaviest_source(source as int, cpu_id)
                &&& balancer.unbalanced(before.cpu(source as int).total_weight, local_weight)
                &&& forall|id: TaskId| !#[trigger]
                    before.cpu(source as int).migration_choice(
                        before.tasks@,
                        id,
                        now,
                        (Duration { nanos: CACHE_HOT_THRESHOLD_NANOS }),
                        MigrationPolicy::Steal,
                    )
                &&& after.tasks == before.tasks
                &&& after.balance_hint == before.next_hint()
                &&& after.only_cpu_changed(before, local)
                &&& after.cpu(local) == (Scheduler {
                    last_balance: Some(now),
                    ..before.cpu(local)
                })
            },
            PullOutcome::Pulled(id) => {
                &&& balancer.due(before)
                &&& after.balance_hint == before.next_hint()
                &&& exists|source: usize| {
                    &&& #[trigger] before.picked(source, cpu_id)
                    &&& before.heaviest_source(source as int, cpu_id)
                    &&& balancer.unbalanced(before.cpu(source as int).total_weight, local_weight)
                    &&& SchedulerSet::migration(
                        before,
                        after,
                        source as int,
                        local,
                        id,
                        now,
                        MigrationPolicy::Steal,
                    )
                }
            },
        }
    }

    /// Tries to steal work for the local CPU.
    pub fn pull(&self, set: &mut SchedulerSet) -> (result: Result<PullOutcome, SchedulerError>)
        requires
            old(set).wf(),
        ensures
            final(set).wf(),
            match old(set).cpu_error(self.cpu_id) {
                Some(error) => result == Err::<PullOutcome, SchedulerError>(error) && *final(set)
                    == *old(set),
                None => {
                    &&& result is Ok
                    &&& Self::pull_effect(
                        *old(set),
                        *final(set),
                        self.cpu_id,
                        self.now,
                        result->Ok_0,
                    )
                },
            },
    {
        match set.check_cpu(self.cpu_id) {
            Err(error) => {
                return Err(error);
            },
            Ok(()) => {},
        }
        let ghost local = self.cpu_id as int;
        let ghost balancer = LoadBalancer { cpu_id: self.cpu_id, now: self.now };
        assert(balancer == *self);
        assert(set.installed(local));
        let (due, local_weight): (bool, u64) = match &set.cpus[self.cpu_id] {
            Some(cpu) => (
                cpu.should_rebalance(self.now, Duration { nanos: LOAD_BALANCE_INTERVAL_NANOS }),
                cpu.total_weight(),
            ),
            None => (false, 0),
        };
        if !due {
            return Ok(PullOutcome::Balanced);
        }
        let (source, source_weight): (usize, u64) = match set.pick_source(self.cpu_id) {
            None => {
                return Ok(PullOutcome::Balanced);
            },
            Some(found) => found,
        };
        assert(old(set).picked(source, self.cpu_id));
        assert(old(set).pull_source(source as int, self.cpu_id));
        assert(set.installed(source as int));
        assert(set.installed(local));
        if source_weight <= local_weight.saturating_add(LOAD_BALANCE_WEIGHT_THRESHOLD) {
            return Ok(PullOutcome::Balanced);
        }
        let ghost picked = *set;
        assert(picked.cpu(source as int) == old(set).cpu(source as int));
        match set.take_migratable_from(source, self.now, MigrationPolicy::Steal) {
            None => {
                assert(set.cpus@ =~= old(set).cpus@) by {
                    assert forall|c: int| 0 <= c < set.cpus@.len() implies set.cpus@[c] == old(set).cpus@[c] by {
                        if c != source {
                            assert(set.cpus@[c] == picked.cpus@[c]);
                        }
                    }
                }
                assert(set.installed(local));
                set.mark_cpu_rebalanced(self.cpu_id, self.now);
                Ok(PullOutcome::AskRemote(source))
            },
            Some(id) => {
                let ghost taken = *set;
                assert(taken.cpus@[local] == picked.cpus@[local]);
                assert(set.installed(local));
                let _ = set.migrate(self.cpu_id, id, self.cpu_id);
                let ghost moved = *set;
                set.mark_cpu_rebalanced(self.cpu_id, self.now);
                proof {
                    assert(old(set).cpu(source as int).task_wf(old(set).tasks@, id));
                    lemma_migration(
                        *old(set),
                        picked,
                        taken,
                        moved,
                        *set,
                        source as int,
                        local,
                        id,
                        self.now,
                        MigrationPolicy::Steal,
                    );
                }
                Ok(PullOutcome::Pulled(id))
            },
        }
    }

    /// What the request of another CPU for work does.
    pub open spec fn request_effect(
        &self,
        before: SchedulerSet,
        after: SchedulerSet,
        requester: usize,
        result: Result<Option<(TaskId, WakeNotice)>, SchedulerError>,
    ) -> bool {
        if self.cpu_id == requester {
            result == Ok::<Option<(TaskId, WakeNotice)>, SchedulerError>(None) && after == before
        } else if before.cpu_error(self.cpu_id) is Some {
            &&& result == Err::<Option<(TaskId, WakeNotice)>, SchedulerError>(
                before.cpu_error(self.cpu_id)->Some_0,
            )
            &&& after == before
        } else if before.cpu_error(requester) is Some {
            &&& result == Err::<Option<(TaskId, WakeNotice)>, SchedulerError>(
                before.cpu_error(requester)->Some_0,
            )
            &&& after == before
        } else {
            let source = before.cpu(self.cpu_id as int);
            let target = before.cpu(requester as int);
            let wanted = self.unbalanced(source.total_weight, target.total_weight);
            &&& result is Ok
            &&& result->Ok_0 is Some <==> wanted && exists|id: TaskId| #[trigger]
                source.migration_choice(
                    before.tasks@,
                    id,
                    self.now,
                    (Duration { nanos: CACHE_HOT_THRESHOLD_NANOS }),
                    MigrationPolicy::BalanceRequest,
                )
            &&& after.balance_hint == before.balance_hint
            &&& match result->Ok_0 {
                None => after.cpus@ == before.cpus@ && after.tasks == before.tasks,
                Some((id, notice)) => {
                    &&& notice == WakeNotice::Interrupt(requester)
                    &&& SchedulerSet::migration(
                        before,
                        after,
                        self.cpu_id as int,
                        requester as int,
                        id,
                        self.now,
                        MigrationPolicy::BalanceRequest,
                    )
                },
            }
        }
    }

    /// Answers another CPU that asked for work: with a task that has moved there,
    /// and how that CPU learns of it.
    pub fn handle_remote_request(&self, set: &mut SchedulerSet, requester: usize) -> (result: Result<
        Option<(TaskId, WakeNotice)>,
        SchedulerError,
    >)
        requires
            old(set).wf(),
        ensures
            final(set).wf(),
            self.request_effect(*old(set), *final(set), requester, result),
    {
        if self.cpu_id == requester {
            return Ok(None);
        }
        match set.check_cpu(self.cpu_id) {
            Err(error) => {
                return Err(error);
            },
            Ok(()) => {},
        }
        match set.check_cpu(requester) {
            Err(error) => {
                return Err(error);
            },
            Ok(()) => {},
        }
        let ghost local = self.cpu_id as int;
        let ghost remote = requester as int;
        assert(set.installed(local) && set.installed(remote));
        let source_weight: u64 = match &set.cpus[self.cpu_id] {
            Some(cpu) => cpu.total_weight(),
            None => 0,
        };
        let target_weight: u64 = match &set.cpus[requester] {
            Some(cpu) => cpu.total_weight(),
            None => 0,
        };
        if source_weight <= target_weight.saturating_add(LOAD_BALANCE_WEIGHT_THRESHOLD) {
            return Ok(None);
        }
        match set.take_migratable_from(self.cpu_id, self.now, MigrationPolicy::BalanceRequest) {
            None => {
                assert(set.cpus@ =~= old(set).cpus@) by {
                    assert forall|c: int| 0 <= c < set.cpus@.len() implies set.cpus@[c] == old(set).cpus@[c] by {
                        if c != local {
                            assert(set.cpus@[c] == old(set).cpus@[c]);
                        }
                    }
                }
                Ok(None)
            },
            Some(id) => {
                let ghost taken = *set;
                assert(taken.cpus@[remote] == old(set).cpus@[remote]);
                assert(set.installed(remote));
                let notice = set.migrate(requester, id, self.cpu_id);
                let ghost moved = *set;
                set.mark_cpu_rebalanced(requester, self.now);
                proof {
                    assert(old(set).cpu(local).task_wf(old(set).tasks@, id));
                    lemma_migration(
                        *old(set),
                        *old(set),
                        taken,
                        moved,
                        *set,
                        local,
                        remote,
                        id,
                        self.now,
                        MigrationPolicy::BalanceRequest,
                    );
                }
                Ok(Some((id, notice)))
            },
        }
    }
}

impl SchedulerSet {
    /// What moving a task from one CPU to another does: the source gives up its
    /// choice, the target takes it over, both have balanced, and nothing else
    /// has changed. Of the task itself only what its placement on the new CPU
    /// needs is different.
    pub open spec fn migration(
        before: SchedulerSet,
        after: SchedulerSet,
        source: int,
        target: int,
        id: TaskId,
        now: Instant,
        policy: MigrationPolicy,
    ) -> bool {
        let task = before.tasks@[id];
        let left = Task { sched: stopped(task.sched), ..task };
        &&& source != target
        &&& before.owner(id, source)
        &&& after.owner(id, target)
        &&& after.installed(source)
        &&& after.cpus@.len() == before.cpus@.len()
        &&& forall|c: int|
            0 <= c < before.cpus@.len() && c != source && c != target
                ==> #[trigger] after.cpus@[c] == before.cpus@[c]
        &&& after.tasks@ == before.tasks@.insert(id, before.cpu(target).admitted(resting(left)))
        &&& Scheduler::migration_effect(
            before.cpu(source),
            before.tasks@,
            after.cpu(source),
            before.tasks@.insert(id, left),
            id,
            now,
            (Duration { nanos: CACHE_HOT_THRESHOLD_NANOS }),
            policy,
        )
        &&& after.cpu(source).last_balance == Some(now)
        &&& Scheduler::admit_effect(
            before.cpu(target),
            before.tasks@.insert(id, resting(left)),
            (Scheduler { last_balance: before.cpu(target).last_balance, ..after.cpu(target) }),
            after.tasks@,
            id,
        )
        &&& after.cpu(target).last_balance == Some(now)
    }
}

proof fn lemma_migration(
    before: SchedulerSet,
    picked: SchedulerSet,
    taken: SchedulerSet,
    moved: SchedulerSet,
    after: SchedulerSet,
    source: int,
    target: int,
    id: TaskId,
    now: Instant,
    policy: MigrationPolicy,
)
    requires
        before.installed(source),
        before.installed(target),
        source != target,
        before.tasks@.dom().contains(id),
        picked.cpus == before.cpus,
        picked.tasks == before.tasks,
        taken.only_cpu_changed(picked, source),
        Scheduler::migration_effect(
            before.cpu(source),
            before.tasks@,
            taken.cpu(source),
            taken.tasks@,
            id,
            now,
            (Duration { nanos: CACHE_HOT_THRESHOLD_NANOS }),
            policy,
        ),
        taken.cpu(source).last_balance == Some(now),
        moved.only_cpu_changed(taken, target),
        Scheduler::admit_effect(
            taken.cpu(target),
            taken.tasks@.insert(id, resting(taken.tasks@[id])),
            moved.cpu(target),
            moved.tasks@,
            id,
        ),
        moved.tasks@ == taken.tasks@.insert(
            id,
            taken.cpu(target).admitted(resting(taken.tasks@[id])),
        ),
        after.only_cpu_changed(moved, target),
        after.tasks == moved.tasks,
        after.cpu(target) == (Scheduler { last_balance: Some(now), ..moved.cpu(target) }),
    ensures
        SchedulerSet::migration(before, after, source, target, id, now, policy),
{
    let task = before.tasks@[id];
    let left = Task { sched: stopped(task.sched), ..task };
    assert(taken.cpus@[target] == before.cpus@[target]);
    assert(moved.cpus@[source] == taken.cpus@[source]);
    assert(after.cpus@[source] == moved.cpus@[source]);
    assert(taken.tasks@[id] == left);
    assert(taken.tasks@.insert(id, resting(left)) =~= before.tasks@.insert(id, resting(left)));
    assert(after.tasks@ =~= before.tasks@.insert(id, before.cpu(target).admitted(resting(left))));
    assert forall|c: int|
        0 <= c < before.cpus@.len() && c != source && c != target implies #[trigger] after.cpus@[c]
        == before.cpus@[c] by {
        assert(moved.cpus@[c] == taken.cpus@[c]);
        assert(taken.cpus@[c] == picked.cpus@[c]);
    }
    let plain = Scheduler { last_balance: before.cpu(target).last_balance, ..after.cpu(target) };
    assert(plain == moved.cpu(target));
    assert(after.cpu(target).owned@.dom().contains(id));
}

/// What a timer tick asks the CPU to do afterwards.
#[derive(Debug, Clone, Copy, PartialEq, Eq, Structural)]
pub struct TickOutcome {
    pub reschedule: bool,
    pub pull: PullOutcome,
}

/// What a timer tick leads to: the CPUs that learn of sleepers that it woke, and
/// what the CPU itself is to do.
pub struct TickReport {
    pub notices: Vec<WakeNotice>,
    pub result: Result<TickOutcome, SchedulerError>,
}

/// What the ticks of all CPUs share: the timer, once there is one, and the number
/// of ticks of the first CPU.
pub struct TickState {
    pub timer: Option<Timer>,
    pub cpu0_ticks: u64,
}

impl TickState {
    pub open spec fn wf(&self) -> bool {
        self.timer matches Some(timer) ==> timer.wf()
    }

    /// No timer yet, and no tick.
    pub fn new() -> (state: Self)
        ensures
            state.wf(),
            state.timer is None,
            state.cpu0_ticks == 0,
    {
        TickState { timer: None, cpu0_ticks: 0 }
    }

    /// Installs the timer, unless there is one.
    pub fn init_timer(&mut self)
        requires
            old(self).wf(),
        ensures
            final(self).wf(),
            final(self).cpu0_ticks == old(self).cpu0_ticks,
            match old(self).timer {
                Some(timer) => final(self).timer == Some(timer),
                None => final(self).timer matches Some(timer) && timer.sleeps() == Map::<
                    u64,
                    SleepEntry,
                >::empty() && timer.places() == Set::<(u128, u64)>::empty(),
            },
    {
        if self.timer.is_none() {
            self.timer = Some(Timer::new());
        }
    }

    /// Number of ticks of the first CPU.
    pub fn cpu0_test_ticks(&self) -> (ticks: u64)
        ensures
            ticks == self.cpu0_ticks,
    {
        self.cpu0_ticks
    }

    /// What a tick does to the shared state: the ticks of the first CPU are
    /// counted, and the timer goes on to `now`. `woken` are the sleeps that
    /// ended.
    pub open spec fn advanced(
        before: TickState,
        after: TickState,
        cpu_id: usize,
        now: Instant,
        woken: Seq<SleepWake>,
    ) -> bool {
        &&& after.cpu0_ticks == (if cpu_id != 0 {
            before.cpu0_ticks
        } else if before.cpu0_ticks == u64::MAX {
            0
        } else {
            (before.cpu0_ticks + 1) as u64
        })
        &&& match before.timer {
            None => after.timer is None && woken == Seq::<SleepWake>::empty(),
            Some(timer) => after.timer matches Some(ticked) && Timer::tick_effect(
                timer,
                ticked,
                now,
                woken,
            ),
        }
    }

    /// Counts a tick and advances the timer; tells whom to wake, in order.
    fn advance(&mut self, cpu_id: usize, now: Instant) -> (wakers: Vec<TaskId>)
        requires
            old(self).wf(),
        ensures
            final(self).wf(),
            exists|woken: Seq<SleepWake>| #[trigger]
                Self::advanced(*old(self), *final(self), cpu_id, now, woken) && wakers@
                    == wakers_of(woken),
    {
        if cpu_id == 0 {
            self.cpu0_ticks = self.cpu0_ticks.wrapping_add(1);
        }
        let mut wakers: Vec<TaskId> = Vec::new();
        let mut slot = self.timer.take();
        let ghost mut ended = Seq::<SleepWake>::empty();
        match slot.as_mut() {
            None => {},
            Some(timer) => {
                let woken = timer.tick(now);
                proof {
                    ended = woken@;
                }
                let mut i: usize = 0;
                while i < woken.len()
                    invariant
                        i <= woken@.len(),
                        wakers@ == wakers_of(woken@).take(i as int),
                    decreases woken@.len() - i,
                {
                    wakers.push(woken[i].waker);
                    i = i + 1;
                    assert(wakers@ =~= wakers_of(woken@).take(i as int));
                }
                assert(wakers_of(woken@).take(i as int) =~= wakers_of(woken@));
            },
        }
        self.timer = slot;
        proof {
            assert(wakers@ =~= wakers_of(ended));
            assert(Self::advanced(*old(self), *self, cpu_id, now, ended));
        }
        wakers
    }
}

/// The tasks that sleep.
pub open spec fn wakers_of(woken: Seq<SleepWake>) -> Seq<TaskId> {
    woken.map_values(|wake: SleepWake| wake.waker)
}

impl SchedulerSet {
    /// What the tick of one CPU does: its own bookkeeping first, and then an
    /// attempt to pull work. The CPU is to reschedule if the bookkeeping asks for
    /// it or a task was pulled.
    pub open spec fn tick_and_pull(
        before: SchedulerSet,
        after: SchedulerSet,
        cpu_id: usize,
        now: Instant,
        outcome: TickOutcome,
    ) -> bool {
        exists|mid: SchedulerSet, tick: bool| {
            &&& mid.wf()
            &&& mid.only_cpu_changed(before, cpu_id as int)
            &&& mid.balance_hint == before.balance_hint
            &&& #[trigger] Scheduler::tick_effect(
                before.cpu(cpu_id as int),
                before.tasks@,
                mid.cpu(cpu_id as int),
                mid.tasks@,
                now,
                tick,
            )
            &&& LoadBalancer::pull_effect(mid, after, cpu_id, now, outcome.pull)
            &&& outcome.reschedule == (tick || outcome.pull is Pulled)
        }
    }

    /// What a timer tick of a CPU does: the timer wakes every sleep that has
    /// ended, and then the CPU ticks, if it has a scheduler.
    pub open spec fn ticked(
        before: SchedulerSet,
        after: SchedulerSet,
        state_before: TickState,
        state_after: TickState,
        cpu_id: usize,
        now: Instant,
        notices: Seq<WakeNotice>,
        result: Result<TickOutcome, SchedulerError>,
    ) -> bool {
        exists|woken: Seq<SleepWake>, roused: SchedulerSet| {
            &&& #[trigger] TickState::advanced(state_before, state_after, cpu_id, now, woken)
            &&& #[trigger] SchedulerSet::woken(before, roused, wakers_of(woken))
            &&& roused.wf()
            &&& notices == before.notices(wakers_of(woken), cpu_id)
            &&& match before.cpu_error(cpu_id) {
                Some(error) => result == Err::<TickOutcome, SchedulerError>(error) && after
                    == roused,
                None => result is Ok && Self::tick_and_pull(
                    roused,
                    after,
                    cpu_id,
                    now,
                    result->Ok_0,
                ),
            }
        }
    }

    /// Runs the tick of one CPU, on that CPU: wakes the sleepers whose time has
    /// come, charges the running task and then tries to pull work.
    pub fn on_tick_for_cpu(&mut self, state: &mut TickState, cpu_id: usize, now: Instant) -> (report:
        TickReport)
        requires
            old(self).wf(),
            old(state).wf(),
        ensures
            final(self).wf(),
            final(state).wf(),
            Self::ticked(
                *old(self),
                *final(self),
                *old(state),
                *final(state),
                cpu_id,
                now,
                report.notices@,
                report.result,
            ),
    {
        let wakers = state.advance(cpu_id, now);
        let ghost ended = choose|woken: Seq<SleepWake>| #[trigger]
            TickState::advanced(*old(state), *state, cpu_id, now, woken) && wakers@ == wakers_of(
                woken,
            );
        let notices = self.wake_tasks(&wakers, cpu_id);
        let ghost roused = *self;
        proof {
            assert(SchedulerSet::woken(*old(self), roused, wakers_of(ended)));
            assert(roused.cpu_error(cpu_id) == old(self).cpu_error(cpu_id)) by {
                assert(roused.installed(cpu_id as int) <==> old(self).installed(cpu_id as int));
            }
        }
        let tick = match self.tick_cpu(cpu_id, now) {
            Err(error) => {
                return TickReport { notices, result: Err(error) };
            },
            Ok(tick) => tick,
        };
        let ghost mid = *self;
        assert(Scheduler::tick_effect(
            roused.cpu(cpu_id as int),
            roused.tasks@,
            mid.cpu(cpu_id as int),
            mid.tasks@,
            now,
            tick,
        ));
        assert(mid.cpu_error(cpu_id) is None);
        match LoadBalancer::new(cpu_id, now).pull(self) {
            Err(error) => TickReport { notices, result: Err(error) },
            Ok(pull) => {
                let outcome = TickOutcome {
                    reschedule: tick || matches!(pull, PullOutcome::Pulled(_)),
                    pull,
                };
                assert(Self::tick_and_pull(roused, *self, cpu_id, now, outcome));
                TickReport { notices, result: Ok(outcome) }
            },
        }
    }

    /// One CPU has handled its wakeups; nothing else has changed.
    pub open spec fn drained(before: SchedulerSet, after: SchedulerSet, cpu: int) -> bool {
        &&& after.only_cpu_changed(before, cpu)
        &&& after.balance_hint == before.balance_hint
        &&& Scheduler::drain_effect(
            before.cpu(cpu),
            before.tasks@,
            after.cpu(cpu),
            after.tasks@,
        )
    }

    /// One CPU has chosen from its queues; nothing else has changed.
    pub open spec fn chosen(
        before: SchedulerSet,
        after: SchedulerSet,
        cpu: int,
        now: Instant,
        next: Option<TaskId>,
    ) -> bool {
        &&& after.only_cpu_changed(before, cpu)
        &&& after.balance_hint == before.balance_hint
        &&& Scheduler::take_next_effect(
            before.cpu(cpu),
            before.tasks@,
            after.cpu(cpu),
            after.tasks@,
            now,
            next,
        )
    }

    /// What a CPU without work of its own comes to: it tries to pull work, and
    /// chooses again if a task was pulled.
    pub open spec fn chosen_elsewhere(
        before: SchedulerSet,
        after: SchedulerSet,
        cpu_id: usize,
        now: Instant,
        next: Option<TaskId>,
    ) -> bool {
        exists|pulled: SchedulerSet, outcome: PullOutcome| {
            &&& #[trigger] LoadBalancer::pull_effect(before, pulled, cpu_id, now, outcome)
            &&& pulled.wf()
            &&& match outcome {
                PullOutcome::Pulled(_) => exists|ready: SchedulerSet| #[trigger]
                    Self::drained(pulled, ready, cpu_id as int) && ready.wf() && Self::chosen(
                        ready,
                        after,
                        cpu_id as int,
                        now,
                        next,
                    ),
                _ => next is None && after == pulled,
            }
        }
    }

    /// What choosing the next task of an installed CPU comes to. Its wakeups are
    /// handled first. A task in its queues is chosen by eligibility and deadline;
    /// only where they are empty is work pulled from elsewhere.
    pub open spec fn next_effect(
        before: SchedulerSet,
        after: SchedulerSet,
        cpu_id: usize,
        now: Instant,
        next: Option<TaskId>,
    ) -> bool {
        let local = cpu_id as int;
        exists|ready: SchedulerSet| {
            &&& #[trigger] Self::drained(before, ready, local)
            &&& ready.wf()
            &&& ({
                ||| next is Some && Self::chosen(ready, after, local, now, next)
                ||| exists|idle: SchedulerSet| #[trigger]
                    Self::chosen(ready, idle, local, now, None) && idle.wf()
                        && Self::chosen_elsewhere(
                        idle,
                        after,
                        cpu_id,
                        now,
                        next,
                    )
            })
        }
    }

    /// Chooses the next task of a CPU: wakeups first, then the queues, then
    /// what can be pulled from elsewhere.
    pub fn take_next_task_on_cpu(&mut self, cpu_id: usize, now: Instant) -> (result: Result<
        Option<TaskId>,
        SchedulerError,
    >)
        requires
            old(self).wf(),
            old(self).installed(cpu_id as int) ==> old(self).cpu(cpu_id as int).current is None,
        ensures
            final(self).wf(),
            match old(self).cpu_error(cpu_id) {
                Some(error) => result == Err::<Option<TaskId>, SchedulerError>(error)
                    && *final(self) == *old(self),
                None => result is Ok && Self::next_effect(
                    *old(self),
                    *final(self),
                    cpu_id,
                    now,
                    result->Ok_0,
                ),
            },
    {
        match self.check_cpu(cpu_id) {
            Err(error) => {
                return Err(error);
            },
            Ok(()) => {},
        }
        let ghost local = cpu_id as int;
        assert(self.installed(local));
        let _ = self.drain_cpu(cpu_id);
        let ghost ready = *self;
        assert(Self::drained(*old(self), ready, local));
        assert(self.installed(local));
        match self.take_next_cpu(cpu_id, now) {
            Some(id) => {
                assert(Self::chosen(ready, *self, local, now, Some(id)));
                return Ok(Some(id));
            },
            None => {},
        }
        let ghost idle = *self;
        assert(Self::chosen(ready, idle, local, now, None));
        assert(idle.installed(local) && idle.cpu(local).current is None);
        assert(idle.cpu_error(cpu_id) is None);
        match LoadBalancer::new(cpu_id, now).pull(self) {
            Err(error) => Err(error),
            Ok(outcome) => {
                let ghost pulled = *self;
                assert(LoadBalancer::pull_effect(idle, pulled, cpu_id, now, outcome));
                match outcome {
                    PullOutcome::Pulled(_) => {
                        assert(self.installed(local) && self.cpu(local).current is None);
                        let _ = self.drain_cpu(cpu_id);
                        let ghost again = *self;
                        assert(Self::drained(pulled, again, local));
                        let next = self.take_next_cpu(cpu_id, now);
                        assert(Self::chosen(again, *self, local, now, next));
                        assert(Self::chosen_elsewhere(idle, *self, cpu_id, now, next));
                        Ok(next)
                    },
                    _ => {
                        assert(Self::chosen_elsewhere(idle, *self, cpu_id, now, None));
                        Ok(None)
                    },
                }
            },
        }
    }
}

/// Work that a CPU has itself comes first: where a task is queued or about to be
/// woken there, one of these is chosen, and no other CPU changes.
pub proof fn law_own_work_comes_first(
    before: SchedulerSet,
    after: SchedulerSet,
    cpu_id: usize,
    now: Instant,
    next: Option<TaskId>,
    id: TaskId,
)
    requires
        before.wf(),
        before.installed(cpu_id as int),
        before.cpu(cpu_id as int).startable(before.tasks@, id),
        SchedulerSet::next_effect(before, after, cpu_id, now, next),
    ensures
        next is Some,
        before.cpu(cpu_id as int).startable(before.tasks@, next->Some_0),
        after.cpu(cpu_id as int).current == next,
        after.only_cpu_changed(before, cpu_id as int),
{
    let local = cpu_id as int;
    let cpu = before.cpu(local);
    let ready = choose|ready: SchedulerSet| {
        &&& #[trigger] SchedulerSet::drained(before, ready, local)
        &&& ready.wf()
        &&& ({
            ||| next is Some && SchedulerSet::chosen(ready, after, local, now, next)
            ||| exists|idle: SchedulerSet| #[trigger]
                SchedulerSet::chosen(ready, idle, local, now, None) && idle.wf()
                    && SchedulerSet::chosen_elsewhere(idle, after, cpu_id, now, next)
        })
    };
    assert(ready.cpu(local).in_eligible(ready.tasks@, id) || ready.cpu(local).in_ineligible(
        ready.tasks@,
        id,
    ));
    if next is Some && SchedulerSet::chosen(ready, after, local, now, next) {
        let found = next->Some_0;
        assert(ready.cpu(local).in_eligible(ready.tasks@, found) || ready.cpu(local).in_ineligible(
            ready.tasks@,
            found,
        ));
        assert forall|c: int| 0 <= c < before.cpus@.len() && c != local implies
            #[trigger] after.cpus@[c] == before.cpus@[c] by {
            assert(ready.cpus@[c] == before.cpus@[c]);
        }
    } else {
        let idle = choose|idle: SchedulerSet| #[trigger]
            SchedulerSet::chosen(ready, idle, local, now, None) && SchedulerSet::chosen_elsewhere(
                idle,
                after,
                cpu_id,
                now,
                next,
            );
        assert(ready.cpu(local).eligible@ == Set::<(u128, u64)>::empty());
        assert(false);
    }
}

/// A tick wakes every sleep whose time has come: the task that sleeps is marked,
/// if some CPU owns it.
pub proof fn law_tick_wakes_every_ended_sleep(
    before: SchedulerSet,
    roused: SchedulerSet,
    timer: Timer,
    ticked: Timer,
    now: Instant,
    woken: Seq<SleepWake>,
    sleep: u64,
)
    requires
        timer.wf(),
        Timer::tick_effect(timer, ticked, now, woken),
        SchedulerSet::woken(before, roused, wakers_of(woken)),
        timer.sleeps().dom().contains(sleep),
        timer.sleeps()[sleep].due(now),
    ensures
        timer.sleeps()[sleep].waker matches Some(task) && (before.is_owned(task)
            && before.tasks@.dom().contains(task) ==> roused.tasks@[task].wake_queued),
        ticked.sleeps()[sleep].completed,
{
    let i = choose|i: int| 0 <= i < woken.len() && #[trigger] woken[i].id == sleep;
    assert(wakers_of(woken)[i] == woken[i].waker);
    assert(wakers_of(woken).contains(woken[i].waker));
}

} // verus!

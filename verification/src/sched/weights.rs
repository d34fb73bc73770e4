//! Sum of the weights of the ready tasks of one CPU.

use super::task::Task;
use vstd::prelude::*;

verus! {

/// Weight that a task contributes to its CPU: nothing while it is blocked.
pub open spec fn contribution(task: Task) -> nat {
    if task.ready() {
        task.weight() as nat
    } else {
        0
    }
}

/// Sum of the contributions of the tasks in `ids`.
pub open spec fn ready_weight(ids: Set<u64>, tasks: Map<u64, Task>) -> nat
    decreases ids.len(),
{
    if ids.finite() && ids.len() > 0 {
        let id = ids.choose();
        contribution(tasks[id]) + ready_weight(ids.remove(id), tasks)
    } else {
        0
    }
}

/// Number of ready tasks in `ids`.
pub open spec fn ready_count(ids: Set<u64>, tasks: Map<u64, Task>) -> nat {
    ids.filter(|id: u64| tasks[id].ready()).len()
}

/// Any task can be split off the sum.
pub proof fn lemma_weight_split(ids: Set<u64>, tasks: Map<u64, Task>, id: u64)
    requires
        ids.finite(),
        ids.contains(id),
    ensures
        ready_weight(ids, tasks) == contribution(tasks[id]) + ready_weight(ids.remove(id), tasks),
    decreases ids.len(),
{
    let pick = ids.choose();
    if pick != id {
        assert(ids.contains(pick));
        let rest = ids.remove(pick);
        lemma_weight_split(rest, tasks, id);
        lemma_weight_split(ids.remove(id), tasks, pick);
        assert(rest.remove(id) =~= ids.remove(id).remove(pick));
    }
}

/// The sum depends on the tasks in `ids` alone.
pub proof fn lemma_weight_frame(ids: Set<u64>, before: Map<u64, Task>, after: Map<u64, Task>)
    requires
        ids.finite(),
        forall|id: u64|
            #![trigger before[id]]
            #![trigger after[id]]
            ids.contains(id) ==> contribution(before[id]) == contribution(after[id]),
    ensures
        ready_weight(ids, before) == ready_weight(ids, after),
    decreases ids.len(),
{
    if ids.len() > 0 {
        let pick = ids.choose();
        assert(ids.contains(pick));
        assert(contribution(before[pick]) == contribution(after[pick]));
        lemma_weight_frame(ids.remove(pick), before, after);
    }
}

/// Replacing one task exchanges its contribution.
pub proof fn lemma_weight_update(ids: Set<u64>, tasks: Map<u64, Task>, id: u64, task: Task)
    requires
        ids.finite(),
        ids.contains(id),
    ensures
        ready_weight(ids, tasks.insert(id, task)) + contribution(tasks[id]) == ready_weight(
            ids,
            tasks,
        ) + contribution(task),
{
    let after = tasks.insert(id, task);
    lemma_weight_split(ids, tasks, id);
    lemma_weight_split(ids, after, id);
    lemma_weight_frame(ids.remove(id), tasks, after);
}

/// Adding one task adds its contribution.
pub proof fn lemma_weight_insert(ids: Set<u64>, tasks: Map<u64, Task>, id: u64)
    requires
        ids.finite(),
        !ids.contains(id),
    ensures
        ready_weight(ids.insert(id), tasks) == contribution(tasks[id]) + ready_weight(ids, tasks),
{
    lemma_weight_split(ids.insert(id), tasks, id);
    assert(ids.insert(id).remove(id) =~= ids);
}

} // verus!

//! The order in which the tasks of a play are tried: the less risky first,
//! and among tasks of one risk level the shorter first.

use vstd::prelude::*;
use crate::planner::error::PlanError;
use crate::types::plan::{TaskPlan, TaskPlanView};

verus! {

/// Whether the first duration is shorter. No estimate is shorter than any
/// estimate.
pub open spec fn shorter(a: Option<u128>, b: Option<u128>) -> bool {
    match (a, b) {
        (None, Some(_)) => true,
        (Some(x), Some(y)) => x < y,
        _ => false,
    }
}

/// Whether the first task has to come before the second: it is less risky,
/// or as risky and shorter.
pub open spec fn comes_before(a: TaskPlanView, b: TaskPlanView) -> bool {
    a.risk_level.spec_rank() < b.risk_level.spec_rank() || (a.risk_level == b.risk_level
        && shorter(a.estimated_duration, b.estimated_duration))
}

/// The place of a task among ordered tasks: before the first task that it
/// has to come before, and so after every task that is its equal.
pub open spec fn place_of(ordered: Seq<TaskPlanView>, task: TaskPlanView) -> int
    decreases ordered.len(),
{
    if ordered.len() == 0 {
        0
    } else if comes_before(task, ordered[0]) {
        0
    } else {
        1 + place_of(ordered.skip(1), task)
    }
}

/// The first `n` tasks in order, equal tasks in the order in which they
/// came.
pub open spec fn ordered_tasks(tasks: Seq<TaskPlanView>, n: int) -> Seq<TaskPlanView>
    decreases n,
{
    if n <= 0 {
        Seq::empty()
    } else {
        let before = ordered_tasks(tasks, n - 1);
        before.insert(place_of(before, tasks[n - 1]), tasks[n - 1])
    }
}

/// The tasks in the order in which they are tried.
pub open spec fn optimized_order(tasks: Seq<TaskPlanView>) -> Seq<TaskPlanView> {
    ordered_tasks(tasks, tasks.len() as int)
}

/// Whether no task comes after one that it has to come before.
pub open spec fn is_ordered(tasks: Seq<TaskPlanView>) -> bool {
    forall|i: int, j: int| 0 <= i < j < tasks.len() ==> !comes_before(tasks[j], tasks[i])
}

/// A place is within the tasks or right after them.
pub proof fn lemma_place_in_range(ordered: Seq<TaskPlanView>, task: TaskPlanView)
    ensures
        0 <= place_of(ordered, task) <= ordered.len(),
        forall|i: int| 0 <= i < place_of(ordered, task) ==> !comes_before(task, ordered[i]),
        place_of(ordered, task) < ordered.len() ==> comes_before(
            task,
            ordered[place_of(ordered, task)],
        ),
    decreases ordered.len(),
{
    if ordered.len() > 0 && !comes_before(task, ordered[0]) {
        lemma_place_in_range(ordered.skip(1), task);
        let p = place_of(ordered.skip(1), task);
        assert forall|i: int| 0 <= i < p + 1 implies !comes_before(task, ordered[i]) by {
            if i > 0 {
                assert(ordered.skip(1)[i - 1] == ordered[i]);
            }
        }
        if p + 1 < ordered.len() {
            assert(ordered.skip(1)[p] == ordered[p + 1]);
        }
    }
}

/// The ordered tasks are the given tasks, each as often as given, and no
/// task comes after one that it has to come before.
pub proof fn lemma_ordered_tasks(tasks: Seq<TaskPlanView>, n: int)
    requires
        0 <= n <= tasks.len(),
    ensures
        ordered_tasks(tasks, n).len() == n,
        ordered_tasks(tasks, n).to_multiset() == tasks.take(n).to_multiset(),
        is_ordered(ordered_tasks(tasks, n)),
    decreases n,
{
    if n > 0 {
        lemma_ordered_tasks(tasks, n - 1);
        let before = ordered_tasks(tasks, n - 1);
        let task = tasks[n - 1];
        let p = place_of(before, task);
        lemma_place_in_range(before, task);
        let after = before.insert(p, task);
        assert(tasks.take(n) =~= tasks.take(n - 1).push(task));
        vstd::seq_lib::to_multiset_insert(before, p, task);
        vstd::seq_lib::to_multiset_build(tasks.take(n - 1), task);
        assert forall|i: int, j: int| 0 <= i < j < after.len() implies !comes_before(
            after[j],
            after[i],
        ) by {
            if j == p {
                assert(after[i] == before[i]);
            } else if i == p {
                assert(after[j] == before[j - 1]);
                assert(comes_before(task, before[p]));
                if j - 1 > p {
                    assert(!comes_before(before[j - 1], before[p]));
                }
            } else {
                let bi = if i < p {
                    i
                } else {
                    i - 1
                };
                let bj = if j < p {
                    j
                } else {
                    j - 1
                };
                assert(after[i] == before[bi] && after[j] == before[bj]);
            }
        }
    } else {
        assert(tasks.take(0) =~= Seq::<TaskPlanView>::empty());
    }
}

/// The ordered tasks are the given tasks.
pub proof fn lemma_order_keeps_tasks(tasks: Seq<TaskPlanView>)
    ensures
        optimized_order(tasks).len() == tasks.len(),
        forall|i: int|
            0 <= i < tasks.len() ==> tasks.contains(#[trigger] optimized_order(tasks)[i]),
        forall|k: int| 0 <= k < tasks.len() ==> optimized_order(tasks).contains(#[trigger] tasks[k]),
{
    let ordered = optimized_order(tasks);
    lemma_ordered_tasks(tasks, tasks.len() as int);
    assert(tasks.take(tasks.len() as int) =~= tasks);
    assert forall|i: int| 0 <= i < tasks.len() implies tasks.contains(#[trigger] ordered[i]) by {
        vstd::seq_lib::to_multiset_contains(ordered, ordered[i]);
        vstd::seq_lib::to_multiset_contains(tasks, ordered[i]);
        assert(ordered.contains(ordered[i]));
    }
    assert forall|k: int| 0 <= k < tasks.len() implies ordered.contains(#[trigger] tasks[k]) by {
        vstd::seq_lib::to_multiset_contains(ordered, tasks[k]);
        vstd::seq_lib::to_multiset_contains(tasks, tasks[k]);
        assert(tasks.contains(tasks[k]));
    }
}

pub struct ExecutionOptimizer;

impl ExecutionOptimizer {
    pub fn new() -> (r: Self) {
        ExecutionOptimizer
    }

    /// Whether the first task has to come before the second.
    pub fn comes_first(&self, a: &TaskPlan, b: &TaskPlan) -> (r: bool)
        ensures
            r == comes_before(a.deep_view(), b.deep_view()),
    {
        let rank_a = a.risk_level.rank();
        let rank_b = b.risk_level.rank();
        if rank_a < rank_b {
            true
        } else if rank_a == rank_b {
            match (a.estimated_duration, b.estimated_duration) {
                (None, Some(_)) => true,
                (Some(x), Some(y)) => x < y,
                _ => false,
            }
        } else {
            false
        }
    }

    /// The place of a task among ordered tasks.
    fn find_place(&self, ordered: &Vec<TaskPlan>, task: &TaskPlan) -> (r: usize)
        ensures
            r == place_of(ordered.deep_view(), task.deep_view()),
            r <= ordered.len(),
    {
        let ghost all = ordered.deep_view();
        let mut i: usize = 0;
        assert(all.skip(0) =~= all);
        while i < ordered.len()
            invariant
                i <= ordered.len(),
                all == ordered.deep_view(),
                place_of(all, task.deep_view()) == i + place_of(
                    all.skip(i as int),
                    task.deep_view(),
                ),
            decreases ordered.len() - i,
        {
            assert(all.skip(i as int)[0] == all[i as int]);
            assert(all.skip(i as int).skip(1) =~= all.skip(i + 1));
            if self.comes_first(task, &ordered[i]) {
                return i;
            }
            i += 1;
        }
        assert(all.skip(ordered.len() as int) =~= Seq::<TaskPlanView>::empty());
        i
    }

    /// The tasks with the less risky first and, among tasks of one risk
    /// level, the shorter first; tasks that are equal in both keep their
    /// order.
    pub fn optimize_order(&self, tasks: &Vec<TaskPlan>) -> (r: Result<Vec<TaskPlan>, PlanError>)
        ensures
            r matches Ok(ordered) && {
                &&& ordered.deep_view() == optimized_order(tasks.deep_view())
                &&& ordered.len() == tasks.len()
                &&& ordered.deep_view().to_multiset() == tasks.deep_view().to_multiset()
                &&& is_ordered(ordered.deep_view())
            },
    {
        let ghost all = tasks.deep_view();
        let mut ordered: Vec<TaskPlan> = Vec::new();
        let mut i: usize = 0;
        assert(ordered.deep_view() =~= ordered_tasks(all, 0));
        while i < tasks.len()
            invariant
                i <= tasks.len(),
                all == tasks.deep_view(),
                ordered.deep_view() == ordered_tasks(all, i as int),
            decreases tasks.len() - i,
        {
            let task = tasks[i].clone();
            let place = self.find_place(&ordered, &task);
            let ghost before = ordered.deep_view();
            ordered.insert(place, task);
            assert(ordered.deep_view() =~= before.insert(place as int, all[i as int]));
            i += 1;
        }
        proof {
            lemma_ordered_tasks(all, all.len() as int);
            assert(all.take(all.len() as int) =~= all);
        }
        Ok(ordered)
    }
}

impl Default for ExecutionOptimizer {
    fn default() -> (r: Self) {
        ExecutionOptimizer
    }
}

} // verus!

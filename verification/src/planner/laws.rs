//! What holds of every plan.

use vstd::prelude::*;
use crate::numbers::{lemma_total_bound, lemma_total_concat, total};
use crate::planner::assembly::{
    batch_sizes, deployments_of_plays, first_play_failure, network_efficiency_score,
    parallelism_score, plan_failure, planned, planned_tasks, planning_fits, play_deployments,
    play_failure, play_fits, play_inputs, play_is_sound, play_plan, play_plans, play_task_count,
    plays_task_count, PlannerSettings,
};
use crate::planner::binary_deployment::{
    binary_deployment, deployed_task_count, deployment_sizes, deployments_upto, groups_from,
    is_deployed, lemma_filter_split, optimized_deployments, place_by_size, planned_deployments,
    has_target_hosts, shares_binary, sorted_by_size, task_groups, without_repeated_hosts,
};
use crate::planner::bounds::{
    lemma_filter_keeps, lemma_place_by_size_range, lemma_planned_tasks_len,
    lemma_play_deployments_count, lemma_total_push,
};
use crate::planner::dependency::{dependencies_known, is_unknown_dependency, task_ids};
use crate::planner::execution_plan::{
    execution_batches, filtered_tasks, first_task_hosts, is_plan_result, keeps_task,
    layout_is_sound, limited_hosts, resolved_hosts, rolling_window, task_plans,
};
use crate::planner::error::PlanError;

use crate::planner::strategy::{
    chain_batches, free_batches, host_window, lemma_window_index, parallel_tasks,
    pinned_batches, rolling_batches, sequential_tasks, window_count,
};
use crate::planner::suitability::{make_group, network_operations, operation_counts};
use crate::text::{decimal, intersects, retain_in};
use crate::types::analysis::TaskGroupView;
use crate::types::parsed::{ParsedInventoryView, ParsedPlayView, ParsedPlaybookView, ParsedTaskView};
use crate::types::plan::{
    BinaryDeploymentView, ExecutionBatchView, ExecutionPlan, ExecutionPlanView,
    PlanningOptionsView, PlayPlanView, TaskPlanView, Timestamp,
};
use crate::types::strategy::ExecutionStrategy;

verus! {

/// Whether every element of the first list is one of the second.
pub open spec fn is_sublist(part: Seq<Seq<char>>, whole: Seq<Seq<char>>) -> bool {
    forall|i: int| 0 <= i < part.len() ==> whole.contains(#[trigger] part[i])
}

/// Whether some task of some batch has the id.
pub open spec fn batches_have_task(batches: Seq<ExecutionBatchView>, task_id: Seq<char>) -> bool {
    exists|b: int, j: int|
        0 <= b < batches.len() && 0 <= j < batches[b].tasks.len() && (
        #[trigger] batches[b].tasks[j]).task_id == task_id
}

/// Whether the two tasks differ at most in their hosts.
pub open spec fn same_but_hosts(a: TaskPlanView, b: TaskPlanView) -> bool {
    a.on_hosts(b.hosts) == b
}

/// Whether all tasks run on the given hosts.
pub open spec fn all_on_hosts(tasks: Seq<TaskPlanView>, hosts: Seq<Seq<char>>) -> bool {
    forall|k: int| 0 <= k < tasks.len() ==> (#[trigger] tasks[k]).hosts == hosts
}

/// Filtering what a filter kept keeps all of it.
pub proof fn lemma_filter_idempotent<A>(s: Seq<A>, pred: spec_fn(A) -> bool)
    ensures
        s.filter(pred).filter(pred) == s.filter(pred),
    decreases s.len(),
{
    reveal(Seq::filter);
    if s.len() > 0 {
        lemma_filter_idempotent(s.drop_last(), pred);
        let kept = s.drop_last().filter(pred);
        if pred(s.last()) {
            assert(kept.push(s.last()).drop_last() =~= kept);
        }
    }
}

/// Filtering the tasks by tags a second time changes nothing.
pub proof fn law_refiltering_is_idempotent(
    tasks: Seq<ParsedTaskView>,
    tags: Seq<Seq<char>>,
    skip_tags: Seq<Seq<char>>,
)
    ensures
        filtered_tasks(filtered_tasks(tasks, tags, skip_tags), tags, skip_tags) == filtered_tasks(
            tasks,
            tags,
            skip_tags,
        ),
{
    lemma_filter_idempotent(tasks, |t: ParsedTaskView| keeps_task(t, tags, skip_tags));
}

/// Under the linear strategy a play has one batch for every task that the
/// tag filters keep; the first batch waits for none, and every other batch
/// for the one before it and no other.
pub proof fn law_linear_strategy_is_a_chain(
    settings: PlannerSettings,
    play: ParsedPlayView,
    index: int,
    available: Seq<Seq<char>>,
    options: PlanningOptionsView,
)
    requires
        options.strategy == ExecutionStrategy::Linear,
    ensures
        ({
            let batches = play_plan(settings, play, index, available, options).batches;
            &&& batches.len() == play_inputs(play, options).len()
            &&& forall|i: int|
                0 <= i < batches.len() ==> (#[trigger] batches[i]).batch_id == "batch-"@ + decimal(
                    i as nat,
                )
            &&& batches.len() > 0 ==> batches[0].dependencies == Seq::<Seq<char>>::empty()
            &&& forall|i: int|
                0 < i < batches.len() ==> (#[trigger] batches[i]).dependencies
                    == seq![batches[i - 1].batch_id]
        }),
{
    lemma_planned_tasks_len(settings, play, available, options);
}

/// Planning the same inputs twice, at one time and with one version of the
/// tool, comes to the same: both fail, or both give the same plan.
pub proof fn law_planning_is_deterministic(
    first: Result<ExecutionPlan, PlanError>,
    second: Result<ExecutionPlan, PlanError>,
    settings: PlannerSettings,
    playbook: ParsedPlaybookView,
    inventory: ParsedInventoryView,
    options: PlanningOptionsView,
    created_at: Timestamp,
)
    requires
        is_plan_result(first, settings, playbook, inventory, options, created_at),
        is_plan_result(second, settings, playbook, inventory, options, created_at),
    ensures
        first is Ok <==> second is Ok,
        first is Ok ==> first->Ok_0.deep_view() == second->Ok_0.deep_view(),
{
}

/// Where every element is at least `bound`, the sum is at least `bound`
/// times the length.
pub proof fn lemma_total_at_least(s: Seq<nat>, bound: nat)
    requires
        forall|i: int| 0 <= i < s.len() ==> s[i] >= bound,
    ensures
        total(s) >= s.len() * bound,
    decreases s.len(),
{
    if s.len() > 0 {
        lemma_total_at_least(s.drop_last(), bound);
        assert(s.len() * bound == (s.len() - 1) * bound + bound) by (nonlinear_arith);
    }
}

/// What is true of the batches of tasks that all run on `hosts`: their
/// tasks are those tasks, on whatever hosts; where there is a batch, every
/// task is in one, and the batches hold at least as many tasks as there
/// are; the hosts of every batch are among `hosts`; and where there are
/// tasks and hosts, there is a batch.
pub open spec fn batches_cover(
    batches: Seq<ExecutionBatchView>,
    tasks: Seq<TaskPlanView>,
    hosts: Seq<Seq<char>>,
) -> bool {
    &&& forall|b: int, j: int|
        0 <= b < batches.len() && 0 <= j < batches[b].tasks.len() ==> exists|k: int|
            0 <= k < tasks.len() && same_but_hosts(tasks[k], #[trigger] batches[b].tasks[j])
    &&& batches.len() > 0 ==> forall|k: int|
        0 <= k < tasks.len() ==> batches_have_task(batches, (#[trigger] tasks[k]).task_id)
    &&& batches.len() > 0 ==> total(batch_sizes(batches)) >= tasks.len()
    &&& forall|b: int| 0 <= b < batches.len() ==> is_sublist((#[trigger] batches[b]).hosts, hosts)
    &&& tasks.len() > 0 && hosts.len() > 0 ==> batches.len() > 0
}

/// A chain of batches covers its tasks.
pub proof fn lemma_chain_covers(
    prefix: Seq<char>,
    first: Option<Seq<char>>,
    tasks: Seq<TaskPlanView>,
    hosts: Seq<Seq<char>>,
)
    requires
        all_on_hosts(tasks, hosts),
    ensures
        batches_cover(chain_batches(prefix, first, None, tasks), tasks, hosts),
{
    let batches = chain_batches(prefix, first, None, tasks);
    assert forall|b: int, j: int|
        0 <= b < batches.len() && 0 <= j < batches[b].tasks.len() implies exists|k: int|
        0 <= k < tasks.len() && same_but_hosts(tasks[k], #[trigger] batches[b].tasks[j]) by {
        assert(same_but_hosts(tasks[b], batches[b].tasks[j]));
    }
    assert forall|k: int| 0 <= k < tasks.len() implies batches_have_task(
        batches,
        (#[trigger] tasks[k]).task_id,
    ) by {
        assert(batches[k].tasks[0].task_id == tasks[k].task_id);
    }
    let sizes = batch_sizes(batches);
    assert forall|i: int| 0 <= i < sizes.len() implies sizes[i] >= 1 by {
        assert(batches[i].tasks.len() == 1);
    }
    lemma_total_at_least(sizes, 1);
    assert forall|b: int| 0 <= b < batches.len() implies is_sublist(
        (#[trigger] batches[b]).hosts,
        hosts,
    ) by {
        assert(batches[b].hosts == tasks[b].hosts);
        assert forall|i: int| 0 <= i < hosts.len() implies hosts.contains(#[trigger] hosts[i]) by {}
    }
}

/// The free layout covers its tasks.
pub proof fn lemma_free_covers(
    parallel_id: Seq<char>,
    prefix: Seq<char>,
    tasks: Seq<TaskPlanView>,
    hosts: Seq<Seq<char>>,
)
    requires
        all_on_hosts(tasks, hosts),
    ensures
        batches_cover(free_batches(parallel_id, prefix, None, tasks), tasks, hosts),
{
    let batches = free_batches(parallel_id, prefix, None, tasks);
    let can = |t: TaskPlanView| t.can_run_parallel;
    let cannot = |t: TaskPlanView| !t.can_run_parallel;
    let parallel = parallel_tasks(tasks);
    let sequential = sequential_tasks(tasks);
    let offset: int = if parallel.len() > 0 {
        1
    } else {
        0
    };
    lemma_filter_split(tasks, can, cannot);
    assert(batches.len() == offset + sequential.len());
    assert forall|b: int| offset <= b < batches.len() implies (#[trigger] batches[b]).tasks
        == seq![sequential[b - offset]] && batches[b].hosts == sequential[b - offset].hosts by {}
    assert forall|i: int| 0 <= i < hosts.len() implies hosts.contains(#[trigger] hosts[i]) by {}
    assert forall|b: int, j: int|
        0 <= b < batches.len() && 0 <= j < batches[b].tasks.len() implies exists|k: int|
        0 <= k < tasks.len() && same_but_hosts(tasks[k], #[trigger] batches[b].tasks[j]) by {
        if b < offset {
            lemma_filter_keeps(tasks, can, j);
            let k = choose|k: int| 0 <= k < tasks.len() && tasks[k] == parallel[j];
            assert(same_but_hosts(tasks[k], batches[b].tasks[j]));
        } else {
            lemma_filter_keeps(tasks, cannot, b - offset);
            let k = choose|k: int| 0 <= k < tasks.len() && tasks[k] == sequential[b - offset];
            assert(same_but_hosts(tasks[k], batches[b].tasks[j]));
        }
    }
    assert forall|k: int| 0 <= k < tasks.len() implies batches_have_task(
        batches,
        (#[trigger] tasks[k]).task_id,
    ) by {
        if tasks[k].can_run_parallel {
            tasks.lemma_filter_contains(can, k);
            let j = choose|j: int| 0 <= j < parallel.len() && parallel[j] == tasks[k];
            assert(batches[0].tasks[j].task_id == tasks[k].task_id);
        } else {
            tasks.lemma_filter_contains(cannot, k);
            let j = choose|j: int| 0 <= j < sequential.len() && sequential[j] == tasks[k];
            assert(batches[offset + j].tasks[0].task_id == tasks[k].task_id);
        }
    }
    let sizes = batch_sizes(batches);
    if offset == 1 {
        let chain = chain_batches(prefix, Some(parallel_id), None, sequential);
        let chain_sizes = batch_sizes(chain);
        assert(sizes =~= seq![parallel.len()] + chain_sizes);
        lemma_total_concat(seq![parallel.len()], chain_sizes);
        lemma_total_push(Seq::<nat>::empty(), parallel.len());
        assert(Seq::<nat>::empty().push(parallel.len()) =~= seq![parallel.len()]);
        assert forall|i: int| 0 <= i < chain_sizes.len() implies chain_sizes[i] >= 1 by {
            assert(chain[i].tasks.len() == 1);
        }
        lemma_total_at_least(chain_sizes, 1);
    } else {
        assert forall|i: int| 0 <= i < sizes.len() implies sizes[i] >= 1 by {
            assert(batches[i].tasks.len() == 1);
        }
        lemma_total_at_least(sizes, 1);
    }
    assert forall|b: int| 0 <= b < batches.len() implies is_sublist(
        (#[trigger] batches[b]).hosts,
        hosts,
    ) by {
        if b < offset {
            lemma_filter_keeps(tasks, can, 0);
            let k = choose|k: int| 0 <= k < tasks.len() && tasks[k] == parallel[0];
            assert(batches[b].hosts == tasks[k].hosts);
        } else {
            lemma_filter_keeps(tasks, cannot, b - offset);
            let k = choose|k: int| 0 <= k < tasks.len() && tasks[k] == sequential[b - offset];
            assert(batches[b].hosts == tasks[k].hosts);
        }
    }
}

/// The rolling layout covers its tasks.
pub proof fn lemma_rolling_covers(
    prefix: Seq<char>,
    tasks: Seq<TaskPlanView>,
    hosts: Seq<Seq<char>>,
    window: nat,
)
    requires
        window > 0 || tasks.len() == 0 || hosts.len() == 0,
        all_on_hosts(tasks, hosts),
    ensures
        batches_cover(
            rolling_batches(prefix, tasks, first_task_hosts(tasks), window),
            tasks,
            hosts,
        ),
{
    let batches = rolling_batches(prefix, tasks, first_task_hosts(tasks), window);
    if tasks.len() > 0 && hosts.len() > 0 {
        assert(first_task_hosts(tasks) == hosts);
        let count = window_count(hosts.len(), window);
        lemma_window_index(hosts.len(), window, 0);
        assert(0 * window == 0) by (nonlinear_arith);
        assert(batches.len() == count && count >= 1);
        assert forall|b: int, j: int|
            0 <= b < batches.len() && 0 <= j < batches[b].tasks.len() implies exists|k: int|
            0 <= k < tasks.len() && same_but_hosts(tasks[k], #[trigger] batches[b].tasks[j]) by {
            assert(same_but_hosts(tasks[j], batches[b].tasks[j]));
        }
        assert forall|k: int| 0 <= k < tasks.len() implies batches_have_task(
            batches,
            (#[trigger] tasks[k]).task_id,
        ) by {
            assert(batches[0].tasks[k].task_id == tasks[k].task_id);
        }
        let sizes = batch_sizes(batches);
        assert forall|i: int| 0 <= i < sizes.len() implies sizes[i] >= tasks.len() by {
            assert(batches[i].tasks.len() == tasks.len());
        }
        lemma_total_at_least(sizes, tasks.len());
        assert(sizes.len() * tasks.len() >= tasks.len()) by (nonlinear_arith)
            requires
                sizes.len() >= 1,
        ;
        assert forall|b: int| 0 <= b < batches.len() implies is_sublist(
            (#[trigger] batches[b]).hosts,
            hosts,
        ) by {
            lemma_window_index(hosts.len(), window, b as nat);
            let part = host_window(hosts, window, b);
            assert(batches[b].hosts == part);
            assert(b * window >= 0) by (nonlinear_arith)
                requires
                    b >= 0,
                    window > 0,
            ;
            assert forall|i: int| 0 <= i < part.len() implies hosts.contains(
                #[trigger] part[i],
            ) by {
                assert(part[i] == hosts[b * window + i]);
            }
        }
    } else if tasks.len() > 0 {
        assert(first_task_hosts(tasks) == hosts);
    }
}

/// The host-pinned layout covers its tasks.
pub proof fn lemma_pinned_covers(
    prefix: Seq<char>,
    tasks: Seq<TaskPlanView>,
    hosts: Seq<Seq<char>>,
)
    requires
        all_on_hosts(tasks, hosts),
    ensures
        batches_cover(pinned_batches(prefix, tasks, first_task_hosts(tasks)), tasks, hosts),
{
    let batches = pinned_batches(prefix, tasks, first_task_hosts(tasks));
    if tasks.len() > 0 {
        assert(first_task_hosts(tasks) == hosts);
        assert forall|b: int, j: int|
            0 <= b < batches.len() && 0 <= j < batches[b].tasks.len() implies exists|k: int|
            0 <= k < tasks.len() && same_but_hosts(tasks[k], #[trigger] batches[b].tasks[j]) by {
            assert(same_but_hosts(tasks[j], batches[b].tasks[j]));
        }
        if batches.len() > 0 {
            assert forall|k: int| 0 <= k < tasks.len() implies batches_have_task(
                batches,
                (#[trigger] tasks[k]).task_id,
            ) by {
                assert(batches[0].tasks[k].task_id == tasks[k].task_id);
            }
            let sizes = batch_sizes(batches);
            assert forall|i: int| 0 <= i < sizes.len() implies sizes[i] >= tasks.len() by {
                assert(batches[i].tasks.len() == tasks.len());
            }
            lemma_total_at_least(sizes, tasks.len());
            assert(sizes.len() * tasks.len() >= tasks.len()) by (nonlinear_arith)
                requires
                    sizes.len() >= 1,
            ;
        }
        assert forall|b: int| 0 <= b < batches.len() implies is_sublist(
            (#[trigger] batches[b]).hosts,
            hosts,
        ) by {
            assert(batches[b].hosts =~= seq![hosts[b]]);
        }
    }
}

/// The batches of a play cover its tasks.
pub proof fn lemma_batches_cover(
    tasks: Seq<TaskPlanView>,
    strategy: ExecutionStrategy,
    serial: Option<u32>,
    hosts: Seq<Seq<char>>,
)
    requires
        layout_is_sound(strategy, serial, tasks.len(), hosts.len()),
        all_on_hosts(tasks, hosts),
    ensures
        batches_cover(execution_batches(tasks, strategy, serial), tasks, hosts),
{
    let batches = execution_batches(tasks, strategy, serial);
    match strategy {
        ExecutionStrategy::Linear => {
            lemma_chain_covers("batch-"@, None, tasks, hosts);
        },
        ExecutionStrategy::Free => {
            lemma_free_covers("parallel-batch"@, "sequential-batch-"@, tasks, hosts);
        },
        ExecutionStrategy::Rolling { batch_size } => {
            lemma_rolling_covers("rolling-batch-"@, tasks, hosts, rolling_window(batch_size, serial));
        },
        ExecutionStrategy::HostPinned => {
            lemma_pinned_covers("host-"@, tasks, hosts);
        },
        _ => {
            assert forall|b: int, j: int|
                0 <= b < batches.len() && 0 <= j < batches[b].tasks.len() implies exists|k: int|
                0 <= k < tasks.len() && same_but_hosts(tasks[k], #[trigger] batches[b].tasks[j]) by {
                assert(same_but_hosts(tasks[j], batches[b].tasks[j]));
            }
            assert forall|k: int| 0 <= k < tasks.len() implies batches_have_task(
                batches,
                (#[trigger] tasks[k]).task_id,
            ) by {
                assert(batches[0].tasks[k].task_id == tasks[k].task_id);
            }
            let sizes = batch_sizes(batches);
            assert(sizes =~= Seq::<nat>::empty().push(tasks.len()));
            lemma_total_push(Seq::<nat>::empty(), tasks.len());
            assert forall|b: int| 0 <= b < batches.len() implies is_sublist(
                (#[trigger] batches[b]).hosts,
                hosts,
            ) by {
                if tasks.len() > 0 {
                    assert(batches[b].hosts == tasks[0].hosts);
                    assert forall|i: int| 0 <= i < hosts.len() implies hosts.contains(
                        #[trigger] hosts[i],
                    ) by {}
                }
            }
        },
    }
}

/// Whether the planned task is the plan of the given task on the hosts, as
/// far as its id, its dependencies and its hosts go.
pub open spec fn plans_input(task: TaskPlanView, input: ParsedTaskView, hosts: Seq<Seq<char>>) -> bool {
    task.task_id == input.id && task.dependencies == input.dependencies && task.hosts == hosts
}

/// Whether the planned task is the plan of one of the tasks.
pub open spec fn has_input(task: TaskPlanView, inputs: Seq<ParsedTaskView>, hosts: Seq<Seq<char>>) -> bool {
    exists|k: int| 0 <= k < inputs.len() && plans_input(task, #[trigger] inputs[k], hosts)
}

/// Whether the task has a plan among the planned tasks.
pub open spec fn has_plan(planned: Seq<TaskPlanView>, input: ParsedTaskView, hosts: Seq<Seq<char>>) -> bool {
    exists|i: int| 0 <= i < planned.len() && plans_input(#[trigger] planned[i], input, hosts)
}

/// Whether the planned tasks are the plans of the given tasks on the hosts:
/// every planned task is the plan of a given task, and every given task has
/// a plan.
pub open spec fn are_plans_of(
    planned: Seq<TaskPlanView>,
    inputs: Seq<ParsedTaskView>,
    hosts: Seq<Seq<char>>,
) -> bool {
    &&& planned.len() == inputs.len()
    &&& all_on_hosts(planned, hosts)
    &&& forall|i: int| 0 <= i < planned.len() ==> has_input(#[trigger] planned[i], inputs, hosts)
    &&& forall|k: int| 0 <= k < inputs.len() ==> has_plan(planned, #[trigger] inputs[k], hosts)
}

/// The planned tasks of a play are the plans of the tasks that the tag
/// filters keep, on the hosts of the play.
pub proof fn lemma_planned_tasks_origin(
    settings: PlannerSettings,
    play: ParsedPlayView,
    available: Seq<Seq<char>>,
    options: PlanningOptionsView,
)
    ensures
        are_plans_of(
            planned_tasks(settings, play, available, options),
            play_inputs(play, options),
            resolved_hosts(play.hosts, available),
        ),
{
    let inputs = play_inputs(play, options);
    let hosts = resolved_hosts(play.hosts, available);
    let plans = task_plans(inputs, hosts, settings.check_mode);
    let planned = planned_tasks(settings, play, available, options);
    assert forall|k: int| 0 <= k < plans.len() implies plans_input(
        #[trigger] plans[k],
        inputs[k],
        hosts,
    ) by {}
    if settings.optimize {
        crate::planner::optimization::lemma_order_keeps_tasks(plans);
    }
    assert forall|i: int| 0 <= i < planned.len() implies has_input(
        #[trigger] planned[i],
        inputs,
        hosts,
    ) by {
        if settings.optimize {
            assert(plans.contains(planned[i]));
            let k = choose|k: int| 0 <= k < plans.len() && plans[k] == planned[i];
            assert(plans_input(plans[k], inputs[k], hosts));
        } else {
            assert(plans_input(plans[i], inputs[i], hosts));
        }
    }
    assert forall|k: int| 0 <= k < inputs.len() implies has_plan(
        planned,
        #[trigger] inputs[k],
        hosts,
    ) by {
        if settings.optimize {
            assert(planned.contains(plans[k]));
            let i = choose|i: int| 0 <= i < planned.len() && planned[i] == plans[k];
            assert(plans_input(plans[k], inputs[k], hosts));
            assert(plans_input(planned[i], inputs[k], hosts));
        } else {
            assert(plans_input(plans[k], inputs[k], hosts));
        }
    }
    assert forall|i: int| 0 <= i < planned.len() implies (#[trigger] planned[i]).hosts
        == hosts by {
        assert(has_input(planned[i], inputs, hosts));
    }
}

/// In a play that can be planned every dependency of every task of every
/// batch is a task of a batch of the play.
pub proof fn law_dependencies_are_planned(
    settings: PlannerSettings,
    play: ParsedPlayView,
    index: int,
    available: Seq<Seq<char>>,
    options: PlanningOptionsView,
)
    requires
        play_is_sound(play, available, options),
        dependencies_known(play_inputs(play, options)),
    ensures
        ({
            let batches = play_plan(settings, play, index, available, options).batches;
            forall|b: int, j: int, d: int|
                0 <= b < batches.len() && 0 <= j < batches[b].tasks.len() && 0 <= d
                    < batches[b].tasks[j].dependencies.len() ==> batches_have_task(
                    batches,
                    #[trigger] batches[b].tasks[j].dependencies[d],
                )
        }),
{
    let inputs = play_inputs(play, options);
    let planned = planned_tasks(settings, play, available, options);
    let hosts = resolved_hosts(play.hosts, available);
    let batches = play_plan(settings, play, index, available, options).batches;
    lemma_planned_tasks_origin(settings, play, available, options);
    lemma_batches_cover(planned, options.strategy, options.serial, hosts);
    assert forall|b: int, j: int, d: int|
        0 <= b < batches.len() && 0 <= j < batches[b].tasks.len() && 0 <= d
            < batches[b].tasks[j].dependencies.len() implies batches_have_task(
        batches,
        #[trigger] batches[b].tasks[j].dependencies[d],
    ) by {
        let task = batches[b].tasks[j];
        let k = choose|k: int| 0 <= k < planned.len() && same_but_hosts(planned[k], task);
        assert(has_input(planned[k], inputs, hosts));
        let m = choose|m: int| 0 <= m < inputs.len() && plans_input(planned[k], inputs[m], hosts);
        let dep = task.dependencies[d];
        assert(dep == inputs[m].dependencies[d]);
        assert(!is_unknown_dependency(inputs, m, d));
        assert(task_ids(inputs).contains(dep));
        let n = choose|n: int| 0 <= n < task_ids(inputs).len() && task_ids(inputs)[n] == dep;
        assert(inputs[n].id == dep);
        assert(has_plan(planned, inputs[n], hosts));
        let i = choose|i: int| 0 <= i < planned.len() && plans_input(planned[i], inputs[n], hosts);
        assert(batches_have_task(batches, planned[i].task_id));
    }
}

/// The hosts of a play are among those that are available.
pub proof fn lemma_resolved_hosts_available(named: Seq<Seq<char>>, available: Seq<Seq<char>>)
    ensures
        is_sublist(resolved_hosts(named, available), available),
{
    let hosts = resolved_hosts(named, available);
    assert forall|i: int| 0 <= i < hosts.len() implies available.contains(#[trigger] hosts[i]) by {
        if !named.contains("all"@) {
            lemma_filter_keeps(named, |s: Seq<char>| available.contains(s), i);
        }
    }
}

/// What is true of a group that was formed of tasks that the network
/// operations of can be counted in 32 bits: its tasks are among them, it has
/// at most two network operations for every one of its tasks, and where it
/// has a second task its first task has a host.
pub open spec fn group_is_sound(group: TaskGroupView, tasks: Seq<TaskPlanView>) -> bool {
    &&& group.tasks.len() >= 1
    &&& forall|j: int| 0 <= j < group.tasks.len() ==> tasks.contains(#[trigger] group.tasks[j])
    &&& group.network_operations <= 2 * group.tasks.len()
    &&& group.tasks.len() >= 2 ==> group.tasks[0].hosts.len() > 0
}

/// No task has more than two network operations.
pub proof fn lemma_operations_bound(tasks: Seq<TaskPlanView>)
    ensures
        total(operation_counts(tasks)) <= 2 * tasks.len(),
{
    let counts = operation_counts(tasks);
    assert forall|i: int| 0 <= i < counts.len() implies counts[i] <= 2 by {}
    lemma_total_bound(counts, 2);
}

/// The groups that are formed of tasks are sound.
pub proof fn lemma_groups_are_sound(
    remaining: Seq<TaskPlanView>,
    groups: Seq<TaskGroupView>,
    tasks: Seq<TaskPlanView>,
)
    requires
        2 * tasks.len() <= u32::MAX,
        remaining.len() <= tasks.len(),
        forall|i: int| 0 <= i < remaining.len() ==> tasks.contains(#[trigger] remaining[i]),
        forall|g: int| 0 <= g < groups.len() ==> group_is_sound(#[trigger] groups[g], tasks),
    ensures
        forall|g: int|
            0 <= g < groups_from(remaining, groups).len() ==> group_is_sound(
                #[trigger] groups_from(remaining, groups)[g],
                tasks,
            ),
    decreases remaining.len(),
{
    if remaining.len() > 0 {
        let seed = remaining[0];
        let rest = remaining.skip(1);
        let joining = |t: TaskPlanView| shares_binary(seed, t);
        let staying = |t: TaskPlanView| !shares_binary(seed, t);
        let members = rest.filter(joining);
        let left = rest.filter(staying);
        lemma_filter_split(rest, joining, staying);
        assert forall|i: int| 0 <= i < left.len() implies tasks.contains(#[trigger] left[i]) by {
            lemma_filter_keeps(rest, staying, i);
            let k = choose|k: int| 0 <= k < rest.len() && rest[k] == left[i];
            assert(rest[k] == remaining[k + 1]);
        }
        let group = make_group(groups.len(), seed, members);
        if group.network_operations > 3 {
            let longer = groups.push(group);
            lemma_operations_bound(group.tasks);
            assert forall|j: int| 0 <= j < group.tasks.len() implies tasks.contains(
                #[trigger] group.tasks[j],
            ) by {
                if j > 0 {
                    lemma_filter_keeps(rest, joining, j - 1);
                    let k = choose|k: int| 0 <= k < rest.len() && rest[k] == members[j - 1];
                    assert(rest[k] == remaining[k + 1]);
                }
            }
            if group.tasks.len() >= 2 {
                lemma_filter_keeps(rest, joining, 0);
                assert(intersects(seed.hosts, members[0].hosts));
            }
            assert(group_is_sound(group, tasks));
            assert forall|g: int| 0 <= g < longer.len() implies group_is_sound(
                #[trigger] longer[g],
                tasks,
            ) by {
                if g < groups.len() {
                    assert(longer[g] == groups[g]);
                }
            }
            lemma_groups_are_sound(left, longer, tasks);
            assert(groups_from(remaining, groups) == groups_from(left, longer));
        } else {
            lemma_groups_are_sound(left, groups, tasks);
            assert(groups_from(remaining, groups) == groups_from(left, groups));
        }
    }
}

/// Whether a binary is the one of a group of the tasks that is sound and
/// worth a binary.
pub open spec fn is_binary_of_tasks(
    deployment: BinaryDeploymentView,
    tasks: Seq<TaskPlanView>,
    hosts: Seq<Seq<char>>,
) -> bool {
    exists|group: TaskGroupView|
        {
            &&& #[trigger] group_is_sound(group, tasks)
            &&& group.network_operations > 4
            &&& deployment.tasks == group.tasks.map_values(|t: TaskPlanView| t.task_id)
            &&& deployment.target_hosts == retain_in(hosts, group.hosts)
        }
}

/// The binaries for sound groups are binaries of the tasks.
pub proof fn lemma_deployments_of_groups(
    groups: Seq<TaskGroupView>,
    n: int,
    tasks: Seq<TaskPlanView>,
    hosts: Seq<Seq<char>>,
    threshold: u32,
    inventory: Option<ParsedInventoryView>,
    host_arch: Seq<char>,
    host_os: Seq<char>,
)
    requires
        0 <= n <= groups.len(),
        forall|g: int| 0 <= g < groups.len() ==> group_is_sound(#[trigger] groups[g], tasks),
    ensures
        forall|i: int|
            0 <= i < deployments_upto(
                groups,
                n,
                hosts,
                threshold,
                inventory,
                host_arch,
                host_os,
            ).len() ==> is_binary_of_tasks(
                #[trigger] deployments_upto(
                    groups,
                    n,
                    hosts,
                    threshold,
                    inventory,
                    host_arch,
                    host_os,
                )[i],
                tasks,
                hosts,
            ),
    decreases n,
{
    if n > 0 {
        lemma_deployments_of_groups(
            groups,
            n - 1,
            tasks,
            hosts,
            threshold,
            inventory,
            host_arch,
            host_os,
        );
        let before = deployments_upto(
            groups,
            n - 1,
            hosts,
            threshold,
            inventory,
            host_arch,
            host_os,
        );
        let all = deployments_upto(groups, n, hosts, threshold, inventory, host_arch, host_os);
        let group = groups[n - 1];
        if is_deployed(group, threshold) {
            let d = binary_deployment(group, hosts, inventory, host_arch, host_os);
            assert(all == before.push(d));
            assert(group.tasks.map_values(|t: TaskPlanView| t.task_id) == d.tasks);
            assert(is_binary_of_tasks(d, tasks, hosts));
            assert forall|i: int| 0 <= i < all.len() implies is_binary_of_tasks(
                #[trigger] all[i],
                tasks,
                hosts,
            ) by {
                if i < before.len() {
                    assert(all[i] == before[i]);
                }
            }
        }
    }
}

/// Sorting and leaving out bring in no binary.
pub proof fn lemma_optimized_are_given(deployments: Seq<BinaryDeploymentView>)
    ensures
        forall|i: int|
            0 <= i < optimized_deployments(deployments).len() ==> deployments.contains(
                #[trigger] optimized_deployments(deployments)[i],
            ),
{
    let n = deployments.len() as int;
    lemma_sorted_are_given(deployments, n);
    let sorted = sorted_by_size(deployments, n);
    lemma_kept_are_given(sorted, sorted.len() as int);
    let kept = optimized_deployments(deployments);
    assert forall|i: int| 0 <= i < kept.len() implies deployments.contains(#[trigger] kept[i]) by {
        assert(sorted.contains(kept[i]));
        let k = choose|k: int| 0 <= k < sorted.len() && sorted[k] == kept[i];
        assert(deployments.contains(sorted[k]));
    }
}

/// Sorting brings in no binary.
pub proof fn lemma_sorted_are_given(deployments: Seq<BinaryDeploymentView>, n: int)
    requires
        0 <= n <= deployments.len(),
    ensures
        forall|i: int|
            0 <= i < sorted_by_size(deployments, n).len() ==> deployments.contains(
                #[trigger] sorted_by_size(deployments, n)[i],
            ),
    decreases n,
{
    if n > 0 {
        lemma_sorted_are_given(deployments, n - 1);
        let before = sorted_by_size(deployments, n - 1);
        let item = deployments[n - 1];
        let p = place_by_size(before, item.estimated_size);
        lemma_place_by_size_range(before, item.estimated_size);
        let after = before.insert(p, item);
        assert forall|i: int| 0 <= i < after.len() implies deployments.contains(
            #[trigger] after[i],
        ) by {
            if i < p {
                assert(after[i] == before[i]);
            } else if i > p {
                assert(after[i] == before[i - 1]);
            }
        }
    }
}

/// Leaving out brings in no binary.
pub proof fn lemma_kept_are_given(deployments: Seq<BinaryDeploymentView>, n: int)
    requires
        0 <= n <= deployments.len(),
    ensures
        forall|i: int|
            0 <= i < without_repeated_hosts(deployments, n).len() ==> deployments.contains(
                #[trigger] without_repeated_hosts(deployments, n)[i],
            ),
    decreases n,
{
    if n > 0 {
        lemma_kept_are_given(deployments, n - 1);
        let before = without_repeated_hosts(deployments, n - 1);
        let after = without_repeated_hosts(deployments, n);
        assert forall|i: int| 0 <= i < after.len() implies deployments.contains(
            #[trigger] after[i],
        ) by {
            if i < before.len() {
                assert(after[i] == before[i]);
            }
        }
    }
}

/// The binaries that are planned for tasks are binaries of the tasks.
pub proof fn lemma_planned_deployments_origin(
    tasks: Seq<TaskPlanView>,
    hosts: Seq<Seq<char>>,
    threshold: u32,
    inventory: Option<ParsedInventoryView>,
    host_arch: Seq<char>,
    host_os: Seq<char>,
)
    requires
        2 * tasks.len() <= u32::MAX,
    ensures
        forall|i: int|
            0 <= i < planned_deployments(
                tasks,
                hosts,
                threshold,
                inventory,
                host_arch,
                host_os,
            ).len() ==> is_binary_of_tasks(
                #[trigger] planned_deployments(
                    tasks,
                    hosts,
                    threshold,
                    inventory,
                    host_arch,
                    host_os,
                )[i],
                tasks,
                hosts,
            ),
{
    let groups = task_groups(tasks);
    assert forall|i: int| 0 <= i < tasks.len() implies tasks.contains(#[trigger] tasks[i]) by {}
    lemma_groups_are_sound(tasks, Seq::empty(), tasks);
    let n = groups.len() as int;
    lemma_deployments_of_groups(groups, n, tasks, hosts, threshold, inventory, host_arch, host_os);
    let all = deployments_upto(groups, n, hosts, threshold, inventory, host_arch, host_os);
    lemma_optimized_are_given(all);
    let kept = optimized_deployments(all);
    assert forall|i: int| 0 <= i < kept.len() implies is_binary_of_tasks(
        #[trigger] kept[i],
        tasks,
        hosts,
    ) by {
        assert(all.contains(kept[i]));
        let k = choose|k: int| 0 <= k < all.len() && all[k] == kept[i];
        assert(is_binary_of_tasks(all[k], tasks, hosts));
    }
}

/// Where a play gets a binary, it has a host and its batches hold every
/// planned task.
pub proof fn lemma_binary_needs_batches(
    settings: PlannerSettings,
    play: ParsedPlayView,
    index: int,
    available: Seq<Seq<char>>,
    inventory: ParsedInventoryView,
    options: PlanningOptionsView,
    deployment: BinaryDeploymentView,
)
    requires
        play_is_sound(play, available, options),
        play_fits(play, options),
        play_deployments(settings, play, available, inventory, options).contains(deployment),
    ensures
        is_binary_of_tasks(
            deployment,
            planned_tasks(settings, play, available, options),
            resolved_hosts(play.hosts, available),
        ),
        play_plan(settings, play, index, available, options).batches.len() > 0,
        batches_cover(
            play_plan(settings, play, index, available, options).batches,
            planned_tasks(settings, play, available, options),
            resolved_hosts(play.hosts, available),
        ),
{
    let planned = planned_tasks(settings, play, available, options);
    let hosts = resolved_hosts(play.hosts, available);
    let deployments = play_deployments(settings, play, available, inventory, options);
    lemma_planned_tasks_origin(settings, play, available, options);
    lemma_batches_cover(planned, options.strategy, options.serial, hosts);
    assert(!options.force_ssh);
    lemma_planned_deployments_origin(
        planned,
        hosts,
        settings.binary_threshold,
        Some(inventory),
        settings.host_arch,
        settings.host_os,
    );
    let i = choose|i: int| 0 <= i < deployments.len() && deployments[i] == deployment;
    assert(is_binary_of_tasks(deployments[i], planned, hosts));
    let group = choose|group: TaskGroupView|
        {
            &&& #[trigger] group_is_sound(group, planned)
            &&& group.network_operations > 4
            &&& deployment.tasks == group.tasks.map_values(|t: TaskPlanView| t.task_id)
            &&& deployment.target_hosts == retain_in(hosts, group.hosts)
        };
    assert(group.tasks.len() >= 2);
    assert(planned.contains(group.tasks[0]));
    let k = choose|k: int| 0 <= k < planned.len() && planned[k] == group.tasks[0];
    assert(planned[k].hosts == hosts);
}

/// Every task of every binary of a play is a task of a batch of the play.
pub proof fn law_binaries_run_planned_tasks(
    settings: PlannerSettings,
    play: ParsedPlayView,
    index: int,
    available: Seq<Seq<char>>,
    inventory: ParsedInventoryView,
    options: PlanningOptionsView,
)
    requires
        play_is_sound(play, available, options),
        play_fits(play, options),
    ensures
        ({
            let batches = play_plan(settings, play, index, available, options).batches;
            let deployments = play_deployments(settings, play, available, inventory, options);
            forall|i: int, t: int|
                0 <= i < deployments.len() && 0 <= t < deployments[i].tasks.len()
                    ==> batches_have_task(batches, #[trigger] deployments[i].tasks[t])
        }),
{
    let planned = planned_tasks(settings, play, available, options);
    let hosts = resolved_hosts(play.hosts, available);
    let batches = play_plan(settings, play, index, available, options).batches;
    let deployments = play_deployments(settings, play, available, inventory, options);
    assert forall|i: int, t: int|
        0 <= i < deployments.len() && 0 <= t < deployments[i].tasks.len() implies batches_have_task(
        batches,
        #[trigger] deployments[i].tasks[t],
    ) by {
        let d = deployments[i];
        assert(deployments.contains(d));
        lemma_binary_needs_batches(settings, play, index, available, inventory, options, d);
        let group = choose|group: TaskGroupView|
            {
                &&& #[trigger] group_is_sound(group, planned)
                &&& group.network_operations > 4
                &&& d.tasks == group.tasks.map_values(|t: TaskPlanView| t.task_id)
                &&& d.target_hosts == retain_in(hosts, group.hosts)
            };
        assert(d.tasks[t] == group.tasks[t].task_id);
        assert(planned.contains(group.tasks[t]));
        let k = choose|k: int| 0 <= k < planned.len() && planned[k] == group.tasks[t];
        assert(batches_have_task(batches, planned[k].task_id));
    }
}

/// A part of a part is a part.
pub proof fn lemma_sublist_transitive(a: Seq<Seq<char>>, b: Seq<Seq<char>>, c: Seq<Seq<char>>)
    requires
        is_sublist(a, b),
        is_sublist(b, c),
    ensures
        is_sublist(a, c),
{
    assert forall|i: int| 0 <= i < a.len() implies c.contains(#[trigger] a[i]) by {
        assert(b.contains(a[i]));
        let k = choose|k: int| 0 <= k < b.len() && b[k] == a[i];
        assert(c.contains(b[k]));
    }
}

/// What is kept of a list is part of it.
pub proof fn lemma_retained_is_sublist(a: Seq<Seq<char>>, b: Seq<Seq<char>>)
    ensures
        is_sublist(retain_in(a, b), a),
{
    let kept = retain_in(a, b);
    assert forall|i: int| 0 <= i < kept.len() implies a.contains(#[trigger] kept[i]) by {
        lemma_filter_keeps(a, |s: Seq<char>| b.contains(s), i);
    }
}

/// The hosts of every batch of a play are among the hosts that are
/// available.
pub proof fn lemma_batch_hosts_available(
    settings: PlannerSettings,
    play: ParsedPlayView,
    index: int,
    available: Seq<Seq<char>>,
    options: PlanningOptionsView,
)
    requires
        play_is_sound(play, available, options),
    ensures
        forall|b: int|
            0 <= b < play_plan(settings, play, index, available, options).batches.len()
                ==> is_sublist(
                (#[trigger] play_plan(settings, play, index, available, options).batches[b]).hosts,
                available,
            ),
{
    let planned = planned_tasks(settings, play, available, options);
    let hosts = resolved_hosts(play.hosts, available);
    let batches = play_plan(settings, play, index, available, options).batches;
    lemma_planned_tasks_origin(settings, play, available, options);
    lemma_batches_cover(planned, options.strategy, options.serial, hosts);
    lemma_resolved_hosts_available(play.hosts, available);
    assert forall|b: int| 0 <= b < batches.len() implies is_sublist(
        (#[trigger] batches[b]).hosts,
        available,
    ) by {
        lemma_sublist_transitive(batches[b].hosts, hosts, available);
    }
}

/// The hosts of a binary of a play are among the hosts that are available.
pub proof fn lemma_binary_hosts_available(
    settings: PlannerSettings,
    play: ParsedPlayView,
    index: int,
    available: Seq<Seq<char>>,
    inventory: ParsedInventoryView,
    options: PlanningOptionsView,
    deployment: BinaryDeploymentView,
)
    requires
        play_is_sound(play, available, options),
        play_fits(play, options),
        play_deployments(settings, play, available, inventory, options).contains(deployment),
    ensures
        is_sublist(deployment.target_hosts, available),
{
    let planned = planned_tasks(settings, play, available, options);
    let hosts = resolved_hosts(play.hosts, available);
    lemma_binary_needs_batches(settings, play, index, available, inventory, options, deployment);
    let group = choose|group: TaskGroupView|
        {
            &&& #[trigger] group_is_sound(group, planned)
            &&& group.network_operations > 4
            &&& deployment.tasks == group.tasks.map_values(|t: TaskPlanView| t.task_id)
            &&& deployment.target_hosts == retain_in(hosts, group.hosts)
        };
    lemma_retained_is_sublist(hosts, group.hosts);
    lemma_resolved_hosts_available(play.hosts, available);
    lemma_sublist_transitive(deployment.target_hosts, hosts, available);
}

/// The hosts of every batch and of every binary of a play are among the
/// hosts that are available, which are the hosts of the plan.
pub proof fn law_hosts_are_plan_hosts(
    settings: PlannerSettings,
    play: ParsedPlayView,
    index: int,
    available: Seq<Seq<char>>,
    inventory: ParsedInventoryView,
    options: PlanningOptionsView,
)
    requires
        play_is_sound(play, available, options),
        play_fits(play, options),
    ensures
        forall|b: int|
            0 <= b < play_plan(settings, play, index, available, options).batches.len()
                ==> is_sublist(
                (#[trigger] play_plan(settings, play, index, available, options).batches[b]).hosts,
                available,
            ),
        forall|i: int|
            0 <= i < play_deployments(settings, play, available, inventory, options).len()
                ==> is_sublist(
                (#[trigger] play_deployments(
                    settings,
                    play,
                    available,
                    inventory,
                    options,
                )[i]).target_hosts,
                available,
            ),
{
    lemma_batch_hosts_available(settings, play, index, available, options);
    let deployments = play_deployments(settings, play, available, inventory, options);
    assert forall|i: int| 0 <= i < deployments.len() implies is_sublist(
        (#[trigger] deployments[i]).target_hosts,
        available,
    ) by {
        assert(deployments.contains(deployments[i]));
        lemma_binary_hosts_available(
            settings,
            play,
            index,
            available,
            inventory,
            options,
            deployments[i],
        );
    }
}

/// The binaries of a play run no more tasks than its batches hold.
pub proof fn lemma_play_binaries_within_batches(
    settings: PlannerSettings,
    play: ParsedPlayView,
    index: int,
    available: Seq<Seq<char>>,
    inventory: ParsedInventoryView,
    options: PlanningOptionsView,
)
    requires
        play_is_sound(play, available, options),
        play_fits(play, options),
    ensures
        deployed_task_count(
            play_deployments(settings, play, available, inventory, options),
        ) <= play_task_count(play_plan(settings, play, index, available, options)),
{
    let found = play_deployments(settings, play, available, inventory, options);
    assert(deployment_sizes(Seq::<BinaryDeploymentView>::empty()) =~= Seq::<nat>::empty());
    if found.len() > 0 {
        let d = found[0];
        assert(found.contains(d));
        lemma_binary_needs_batches(settings, play, index, available, inventory, options, d);
        lemma_play_deployments_count(settings, play, available, inventory, options);
        lemma_planned_tasks_len(settings, play, available, options);
    } else {
        assert(found =~= Seq::<BinaryDeploymentView>::empty());
    }
}

/// The binaries of the plays run no more tasks than the batches of the
/// plays hold.
pub proof fn lemma_binaries_within_batches(
    settings: PlannerSettings,
    plays: Seq<ParsedPlayView>,
    n: int,
    available: Seq<Seq<char>>,
    inventory: ParsedInventoryView,
    options: PlanningOptionsView,
)
    requires
        0 <= n <= plays.len(),
        forall|i: int|
            0 <= i < plays.len() ==> play_is_sound(#[trigger] plays[i], available, options),
        forall|i: int| 0 <= i < plays.len() ==> play_fits(#[trigger] plays[i], options),
    ensures
        deployed_task_count(
            deployments_of_plays(settings, plays, n, available, inventory, options),
        ) <= plays_task_count(play_plans(settings, plays, n, available, options)),
    decreases n,
{
    if n > 0 {
        lemma_binaries_within_batches(settings, plays, n - 1, available, inventory, options);
        lemma_play_binaries_within_batches(
            settings,
            plays[n - 1],
            n - 1,
            available,
            inventory,
            options,
        );
        let before = deployments_of_plays(settings, plays, n - 1, available, inventory, options);
        let added = play_deployments(settings, plays[n - 1], available, inventory, options);
        assert(deployment_sizes(before + added) =~= deployment_sizes(before) + deployment_sizes(
            added,
        ));
        lemma_total_concat(deployment_sizes(before), deployment_sizes(added));
        let shorter = play_plans(settings, plays, n - 1, available, options);
        let longer = play_plans(settings, plays, n, available, options);
        let last = play_plan(settings, plays[n - 1], n - 1, available, options);
        assert(longer =~= shorter.push(last));
        assert(longer.map_values(|p: PlayPlanView| play_task_count(p)) =~= shorter.map_values(
            |p: PlayPlanView| play_task_count(p),
        ).push(play_task_count(last)));
        lemma_total_push(
            shorter.map_values(|p: PlayPlanView| play_task_count(p)),
            play_task_count(last),
        );
    } else {
        assert(deployment_sizes(Seq::<BinaryDeploymentView>::empty()) =~= Seq::<nat>::empty());
    }
}

/// No more tasks may run in parallel than there are.
pub proof fn lemma_parallel_within_tasks(plays: Seq<PlayPlanView>)
    ensures
        crate::planner::assembly::plays_parallel_count(plays) <= plays_task_count(plays),
{
    let parallel = plays.map_values(
        |p: PlayPlanView| crate::planner::assembly::play_parallel_count(p),
    );
    let sizes = plays.map_values(|p: PlayPlanView| play_task_count(p));
    assert forall|i: int| 0 <= i < parallel.len() implies #[trigger] parallel[i] <= 1 * sizes[i]
        + 0 by {
        let batches = plays[i].batches;
        let inner = batches.map_values(
            |b: ExecutionBatchView| crate::planner::assembly::parallel_count(b.tasks),
        );
        let inner_sizes = batch_sizes(batches);
        assert forall|j: int| 0 <= j < inner.len() implies #[trigger] inner[j] <= 1
            * inner_sizes[j] + 0 by {
            batches[j].tasks.lemma_filter_len(|t: TaskPlanView| t.can_run_parallel);
        }
        crate::planner::bounds::lemma_total_affine(inner, inner_sizes, 1, 0);
    }
    crate::planner::bounds::lemma_total_affine(parallel, sizes, 1, 0);
}

/// Whether a score is a share: at least nothing and at most all.
pub open spec fn is_share(score: crate::types::plan::Ratio) -> bool {
    score.denominator > 0 && score.numerator <= score.denominator
}

/// The scores of a plan are shares, and the network efficiency is at least
/// a fifth.
pub proof fn law_scores_are_in_range(
    settings: PlannerSettings,
    playbook: ParsedPlaybookView,
    inventory: ParsedInventoryView,
    options: PlanningOptionsView,
    created_at: Timestamp,
)
    requires
        planning_fits(settings, playbook, inventory, options),
        limited_hosts(inventory.hosts, options.limit) is Some,
    ensures
        ({
            let plan = planned(settings, playbook, inventory, options, created_at);
            &&& is_share(plan.parallelism_score)
            &&& is_share(plan.network_efficiency_score)
            &&& 5 * plan.network_efficiency_score.numerator
                >= plan.network_efficiency_score.denominator
        }),
{
    let available = limited_hosts(inventory.hosts, options.limit)->0;
    let n = playbook.plays.len() as int;
    let plays = play_plans(settings, playbook.plays, n, available, options);
    let deployments = deployments_of_plays(
        settings,
        playbook.plays,
        n,
        available,
        inventory,
        options,
    );
    lemma_parallel_within_tasks(plays);
    lemma_binaries_within_batches(settings, playbook.plays, n, available, inventory, options);
}

/// Where no play fails, each play can be planned.
pub proof fn lemma_each_play_is_planned(
    settings: PlannerSettings,
    plays: Seq<ParsedPlayView>,
    n: int,
    available: Seq<Seq<char>>,
    inventory: ParsedInventoryView,
    options: PlanningOptionsView,
    p: int,
)
    requires
        0 <= p < n <= plays.len(),
        first_play_failure(plays, n, options) is None,
    ensures
        play_failure(plays[p], options) is None,
    decreases n,
{
    if p < n - 1 {
        lemma_each_play_is_planned(settings, plays, n - 1, available, inventory, options, p);
    }
}

/// Whether the binary is one of play `p`.
pub open spec fn is_binary_of_play(
    deployment: BinaryDeploymentView,
    settings: PlannerSettings,
    plays: Seq<ParsedPlayView>,
    p: int,
    available: Seq<Seq<char>>,
    inventory: ParsedInventoryView,
    options: PlanningOptionsView,
) -> bool {
    &&& 0 <= p < plays.len()
    &&& play_deployments(settings, plays[p], available, inventory, options).contains(deployment)
}

/// Whether the binary is one of one of the first `n` plays.
pub open spec fn is_binary_of_plays(
    deployment: BinaryDeploymentView,
    settings: PlannerSettings,
    plays: Seq<ParsedPlayView>,
    n: int,
    available: Seq<Seq<char>>,
    inventory: ParsedInventoryView,
    options: PlanningOptionsView,
) -> bool {
    exists|p: int|
        p < n && #[trigger] is_binary_of_play(
            deployment,
            settings,
            plays,
            p,
            available,
            inventory,
            options,
        )
}

/// Every binary of the plays is a binary of one of them.
pub proof fn lemma_binaries_of_plays(
    settings: PlannerSettings,
    plays: Seq<ParsedPlayView>,
    n: int,
    available: Seq<Seq<char>>,
    inventory: ParsedInventoryView,
    options: PlanningOptionsView,
    i: int,
)
    requires
        0 <= n <= plays.len(),
        0 <= i < deployments_of_plays(settings, plays, n, available, inventory, options).len(),
    ensures
        is_binary_of_plays(
            deployments_of_plays(settings, plays, n, available, inventory, options)[i],
            settings,
            plays,
            n,
            available,
            inventory,
            options,
        ),
    decreases n,
{
    let before = deployments_of_plays(settings, plays, n - 1, available, inventory, options);
    let found = play_deployments(settings, plays[n - 1], available, inventory, options);
    let all = deployments_of_plays(settings, plays, n, available, inventory, options);
    if i < before.len() {
        lemma_binaries_of_plays(settings, plays, n - 1, available, inventory, options, i);
        let p = choose|p: int|
            p < n - 1 && #[trigger] is_binary_of_play(
                before[i],
                settings,
                plays,
                p,
                available,
                inventory,
                options,
            );
        assert(is_binary_of_play(all[i], settings, plays, p, available, inventory, options));
    } else {
        assert(all[i] == found[i - before.len()]);
        assert(is_binary_of_play(all[i], settings, plays, n - 1, available, inventory, options));
    }
}

/// Whether some task of some batch of some play of the plan has the id.
pub open spec fn plan_has_task(plan: ExecutionPlanView, task_id: Seq<char>) -> bool {
    exists|p: int|
        0 <= p < plan.plays.len() && batches_have_task((#[trigger] plan.plays[p]).batches, task_id)
}

/// In a plan, every task of every binary is a task of a batch of a play.
pub proof fn law_plan_binaries_run_planned_tasks(
    settings: PlannerSettings,
    playbook: ParsedPlaybookView,
    inventory: ParsedInventoryView,
    options: PlanningOptionsView,
    created_at: Timestamp,
)
    requires
        planning_fits(settings, playbook, inventory, options),
        plan_failure(playbook, inventory, options) is None,
    ensures
        ({
            let plan = planned(settings, playbook, inventory, options, created_at);
            forall|i: int, t: int|
                0 <= i < plan.binary_deployments.len() && 0 <= t
                    < plan.binary_deployments[i].tasks.len() ==> plan_has_task(
                    plan,
                    #[trigger] plan.binary_deployments[i].tasks[t],
                )
        }),
{
    let plan = planned(settings, playbook, inventory, options, created_at);
    let available = limited_hosts(inventory.hosts, options.limit)->0;
    let n = playbook.plays.len() as int;
    assert forall|i: int, t: int|
        0 <= i < plan.binary_deployments.len() && 0 <= t
            < plan.binary_deployments[i].tasks.len() implies plan_has_task(
        plan,
        #[trigger] plan.binary_deployments[i].tasks[t],
    ) by {
        let d = plan.binary_deployments[i];
        lemma_binaries_of_plays(settings, playbook.plays, n, available, inventory, options, i);
        let p = choose|p: int|
            p < n && #[trigger] is_binary_of_play(
                d,
                settings,
                playbook.plays,
                p,
                available,
                inventory,
                options,
            );
        let play = playbook.plays[p];
        assert(play_fits(play, options));
        law_binaries_run_planned_tasks(settings, play, p, available, inventory, options);
        let deployments = play_deployments(settings, play, available, inventory, options);
        let k = choose|k: int| 0 <= k < deployments.len() && deployments[k] == d;
        assert(batches_have_task(
            play_plan(settings, play, p, available, options).batches,
            deployments[k].tasks[t],
        ));
        assert(plan.plays[p] == play_plan(settings, play, p, available, options));
    }
}

/// In a plan, the hosts of every batch and of every binary are hosts of
/// the plan.
pub proof fn law_plan_hosts_are_plan_hosts(
    settings: PlannerSettings,
    playbook: ParsedPlaybookView,
    inventory: ParsedInventoryView,
    options: PlanningOptionsView,
    created_at: Timestamp,
)
    requires
        planning_fits(settings, playbook, inventory, options),
        plan_failure(playbook, inventory, options) is None,
    ensures
        ({
            let plan = planned(settings, playbook, inventory, options, created_at);
            &&& forall|p: int, b: int|
                0 <= p < plan.plays.len() && 0 <= b < plan.plays[p].batches.len() ==> is_sublist(
                    (#[trigger] plan.plays[p].batches[b]).hosts,
                    plan.hosts,
                )
            &&& forall|i: int|
                0 <= i < plan.binary_deployments.len() ==> is_sublist(
                    (#[trigger] plan.binary_deployments[i]).target_hosts,
                    plan.hosts,
                )
        }),
{
    let plan = planned(settings, playbook, inventory, options, created_at);
    let available = limited_hosts(inventory.hosts, options.limit)->0;
    let n = playbook.plays.len() as int;
    assert forall|p: int, b: int|
        0 <= p < plan.plays.len() && 0 <= b < plan.plays[p].batches.len() implies is_sublist(
        (#[trigger] plan.plays[p].batches[b]).hosts,
        plan.hosts,
    ) by {
        lemma_batch_hosts_available(settings, playbook.plays[p], p, available, options);
    }
    assert forall|i: int| 0 <= i < plan.binary_deployments.len() implies is_sublist(
        (#[trigger] plan.binary_deployments[i]).target_hosts,
        plan.hosts,
    ) by {
        let d = plan.binary_deployments[i];
        lemma_binaries_of_plays(settings, playbook.plays, n, available, inventory, options, i);
        let p = choose|p: int|
            p < n && #[trigger] is_binary_of_play(
                d,
                settings,
                playbook.plays,
                p,
                available,
                inventory,
                options,
            );
        assert(play_fits(playbook.plays[p], options));
        lemma_binary_hosts_available(
            settings,
            playbook.plays[p],
            p,
            available,
            inventory,
            options,
            d,
        );
    }
}

/// In a plan, every dependency of every task of every batch of a play is a
/// task of a batch of that play.
pub proof fn law_plan_dependencies_are_planned(
    settings: PlannerSettings,
    playbook: ParsedPlaybookView,
    inventory: ParsedInventoryView,
    options: PlanningOptionsView,
    created_at: Timestamp,
)
    requires
        planning_fits(settings, playbook, inventory, options),
        plan_failure(playbook, inventory, options) is None,
    ensures
        ({
            let plan = planned(settings, playbook, inventory, options, created_at);
            forall|p: int, b: int, j: int, d: int|
                0 <= p < plan.plays.len() && 0 <= b < plan.plays[p].batches.len() && 0 <= j
                    < plan.plays[p].batches[b].tasks.len() && 0 <= d
                    < plan.plays[p].batches[b].tasks[j].dependencies.len() ==> batches_have_task(
                    plan.plays[p].batches,
                    #[trigger] plan.plays[p].batches[b].tasks[j].dependencies[d],
                )
        }),
{
    let plan = planned(settings, playbook, inventory, options, created_at);
    let available = limited_hosts(inventory.hosts, options.limit)->0;
    let n = playbook.plays.len() as int;
    assert forall|p: int, b: int, j: int, d: int|
        0 <= p < plan.plays.len() && 0 <= b < plan.plays[p].batches.len() && 0 <= j
            < plan.plays[p].batches[b].tasks.len() && 0 <= d
            < plan.plays[p].batches[b].tasks[j].dependencies.len() implies batches_have_task(
        plan.plays[p].batches,
        #[trigger] plan.plays[p].batches[b].tasks[j].dependencies[d],
    ) by {
        lemma_each_play_is_planned(settings, playbook.plays, n, available, inventory, options, p);
        law_dependencies_are_planned(settings, playbook.plays[p], p, available, options);
    }
}

/// Whether no binary comes before a larger one.
pub open spec fn is_descending(deployments: Seq<BinaryDeploymentView>) -> bool {
    forall|i: int, j: int|
        0 <= i < j < deployments.len() ==> deployments[i].estimated_size
            >= deployments[j].estimated_size
}

/// Before its place among sorted binaries all are at least as large as a
/// binary, and at its place stands a smaller one.
pub proof fn lemma_place_by_size(sorted: Seq<BinaryDeploymentView>, size: u64)
    ensures
        0 <= place_by_size(sorted, size) <= sorted.len(),
        forall|i: int| 0 <= i < place_by_size(sorted, size) ==> sorted[i].estimated_size >= size,
        place_by_size(sorted, size) < sorted.len() ==> sorted[place_by_size(
            sorted,
            size,
        )].estimated_size < size,
    decreases sorted.len(),
{
    if sorted.len() > 0 && !(sorted[0].estimated_size < size) {
        lemma_place_by_size(sorted.skip(1), size);
        let p = place_by_size(sorted.skip(1), size);
        assert forall|i: int| 0 <= i < p + 1 implies sorted[i].estimated_size >= size by {
            if i > 0 {
                assert(sorted.skip(1)[i - 1] == sorted[i]);
            }
        }
        if p + 1 < sorted.len() {
            assert(sorted.skip(1)[p] == sorted[p + 1]);
        }
    }
}

/// Sorted binaries are in descending order of size.
pub proof fn lemma_sorted_is_descending(deployments: Seq<BinaryDeploymentView>, n: int)
    requires
        0 <= n <= deployments.len(),
    ensures
        is_descending(sorted_by_size(deployments, n)),
    decreases n,
{
    if n > 0 {
        lemma_sorted_is_descending(deployments, n - 1);
        let before = sorted_by_size(deployments, n - 1);
        let item = deployments[n - 1];
        let p = place_by_size(before, item.estimated_size);
        lemma_place_by_size(before, item.estimated_size);
        let after = before.insert(p, item);
        assert forall|i: int, j: int| 0 <= i < j < after.len() implies after[i].estimated_size
            >= after[j].estimated_size by {
            if j == p {
                assert(after[i] == before[i]);
            } else if i == p {
                assert(after[j] == before[j - 1]);
                if j - 1 > p {
                    assert(before[p].estimated_size >= before[j - 1].estimated_size);
                }
            } else {
                let bi = if i < p {
                    i
                } else {
                    i - 1
                };
                let bj = if j < p {
                    j
                } else {
                    j - 1
                };
                assert(after[i] == before[bi] && after[j] == before[bj]);
            }
        }
    }
}

/// What is kept of binaries in descending order is in descending order, and
/// no smaller than the binaries that follow.
pub proof fn lemma_kept_is_descending(deployments: Seq<BinaryDeploymentView>, n: int)
    requires
        0 <= n <= deployments.len(),
        is_descending(deployments),
    ensures
        is_descending(without_repeated_hosts(deployments, n)),
        forall|k: int, m: int|
            0 <= k < without_repeated_hosts(deployments, n).len() && n <= m < deployments.len()
                ==> without_repeated_hosts(deployments, n)[k].estimated_size
                >= deployments[m].estimated_size,
    decreases n,
{
    if n > 0 {
        lemma_kept_is_descending(deployments, n - 1);
        let before = without_repeated_hosts(deployments, n - 1);
        let after = without_repeated_hosts(deployments, n);
        assert forall|k: int, m: int|
            0 <= k < after.len() && n <= m < deployments.len() implies after[k].estimated_size
            >= deployments[m].estimated_size by {
            if k < before.len() {
                assert(after[k] == before[k]);
            }
        }
        assert forall|i: int, j: int| 0 <= i < j < after.len() implies after[i].estimated_size
            >= after[j].estimated_size by {
            assert(after[i] == before[i]);
            if j < before.len() {
                assert(after[j] == before[j]);
            }
        }
    }
}

/// The binaries of a play are in descending order of size.
pub proof fn law_binaries_are_ordered_by_size(deployments: Seq<BinaryDeploymentView>)
    ensures
        is_descending(optimized_deployments(deployments)),
{
    let n = deployments.len() as int;
    lemma_sorted_is_descending(deployments, n);
    crate::planner::bounds::lemma_sorted_count(deployments, n);
    let sorted = sorted_by_size(deployments, n);
    lemma_kept_is_descending(sorted, sorted.len() as int);
}

/// Whether no two binaries have the same target hosts.
pub open spec fn has_distinct_hosts(deployments: Seq<BinaryDeploymentView>) -> bool {
    forall|i: int, j: int|
        0 <= i < j < deployments.len() ==> deployments[i].target_hosts
            != deployments[j].target_hosts
}

/// What is kept of binaries has no list of target hosts twice.
pub proof fn lemma_kept_has_distinct_hosts(deployments: Seq<BinaryDeploymentView>, n: int)
    requires
        0 <= n <= deployments.len(),
    ensures
        has_distinct_hosts(without_repeated_hosts(deployments, n)),
    decreases n,
{
    if n > 0 {
        lemma_kept_has_distinct_hosts(deployments, n - 1);
        let before = without_repeated_hosts(deployments, n - 1);
        let after = without_repeated_hosts(deployments, n);
        assert forall|i: int, j: int| 0 <= i < j < after.len() implies after[i].target_hosts
            != after[j].target_hosts by {
            assert(after[i] == before[i]);
            if j < before.len() {
                assert(after[j] == before[j]);
            } else {
                assert(!has_target_hosts(before, deployments[n - 1].target_hosts));
            }
        }
    }
}

/// No two binaries of a play have the same target hosts.
pub proof fn law_binaries_have_distinct_hosts(deployments: Seq<BinaryDeploymentView>)
    ensures
        has_distinct_hosts(optimized_deployments(deployments)),
{
    let sorted = sorted_by_size(deployments, deployments.len() as int);
    crate::planner::bounds::lemma_sorted_count(deployments, deployments.len() as int);
    lemma_kept_has_distinct_hosts(sorted, sorted.len() as int);
}

/// Whether every batch waits only for batches before it.
pub open spec fn waits_for_earlier_batches(batches: Seq<ExecutionBatchView>) -> bool {
    forall|b: int, d: int|
        0 <= b < batches.len() && 0 <= d < batches[b].dependencies.len() ==> exists|e: int|
            0 <= e < b && batches[e].batch_id == #[trigger] batches[b].dependencies[d]
}

/// Every batch that a batch of a play waits for is a batch of the play,
/// and comes before it.
pub proof fn law_batches_wait_for_earlier_batches(
    tasks: Seq<TaskPlanView>,
    strategy: ExecutionStrategy,
    serial: Option<u32>,
)
    ensures
        waits_for_earlier_batches(execution_batches(tasks, strategy, serial)),
{
    let batches = execution_batches(tasks, strategy, serial);
    assert forall|b: int, d: int|
        0 <= b < batches.len() && 0 <= d < batches[b].dependencies.len() implies exists|e: int|
        0 <= e < b && batches[e].batch_id == #[trigger] batches[b].dependencies[d] by {
        match strategy {
            ExecutionStrategy::Free => {
                if parallel_tasks(tasks).len() > 0 {
                    if b == 1 {
                        assert(batches[0].batch_id == batches[b].dependencies[d]);
                    } else {
                        assert(batches[b - 1].batch_id == batches[b].dependencies[d]);
                    }
                } else {
                    assert(batches[b - 1].batch_id == batches[b].dependencies[d]);
                }
            },
            ExecutionStrategy::Linear => {
                assert(batches[b - 1].batch_id == batches[b].dependencies[d]);
            },
            ExecutionStrategy::Rolling { .. } => {
                assert(batches[b - 1].batch_id == batches[b].dependencies[d]);
            },
            _ => {},
        }
    }
}

} // verus!

//! How large the numbers of a plan can get.

use vstd::prelude::*;
use crate::numbers::{lemma_greatest_bounds, lemma_total_bound, lemma_total_concat, total};
use crate::planner::assembly::{
    batch_sizes, planned_tasks, play_inputs, play_task_count, plays_task_count, PlannerSettings,
};
use crate::planner::binary_deployment::{
    deployed_task_count, deployment_sizes, deployments_upto, groups_from, is_deployed,
    lemma_filter_split, place_by_size, planned_deployments, shares_binary, sorted_by_size,
    task_groups, without_repeated_hosts,
};
use crate::planner::estimation::{
    argument_factor, base_duration, batch_duration, batch_durations, complexity_multiplier,
    module_factor, planned_duration, planned_durations, play_duration_peak, play_duration_peaks,
    sequential_durations, task_duration, BINARY_OVERHEAD_NANOS,
};
use crate::planner::execution_plan::{execution_batches, task_plans};
use crate::planner::optimization::{lemma_ordered_tasks, optimized_order};
use crate::planner::strategy::{parallel_tasks, sequential_tasks};
use crate::planner::suitability::make_group;
use crate::types::analysis::TaskGroupView;
use crate::types::parsed::{ParsedInventoryView, ParsedPlayView, ParsedTaskView};
use crate::types::plan::{
    BinaryDeploymentView, ExecutionBatchView, ParallelGroupView, PlanningOptionsView,
    PlayPlanView, TaskPlanView,
};
use crate::types::strategy::ExecutionStrategy;

verus! {

/// The longest that a task is expected to take: thirty seconds, under every
/// factor at its highest.
pub const MAX_TASK_NANOS: u128 = 108_900_000_000;

/// No task is expected to take longer than `MAX_TASK_NANOS`.
pub proof fn lemma_task_duration_bound(task: ParsedTaskView)
    ensures
        task_duration(task) <= MAX_TASK_NANOS,
{
    let base = base_duration(task.module);
    let a = argument_factor(task.args.len());
    let w: nat = if task.when is Some {
        11
    } else {
        10
    };
    let n: nat = if task.notify.len() > 0 {
        11
    } else {
        10
    };
    let m = module_factor(task);
    assert(complexity_multiplier(task) == a * w * n * m);
    assert(a * w * n * m <= 36_300) by (nonlinear_arith)
        requires
            a <= 15,
            w <= 11,
            n <= 11,
            m <= 20,
    ;
    assert(base * (a * w * n * m) <= 30_000_000_000 * 36_300) by (nonlinear_arith)
        requires
            base <= 30_000_000_000,
            a * w * n * m <= 36_300,
    ;
}

/// Whether no task is estimated above `MAX_TASK_NANOS`.
pub open spec fn bounded_tasks(tasks: Seq<TaskPlanView>) -> bool {
    forall|i: int| 0 <= i < tasks.len() ==> planned_duration(#[trigger] tasks[i]) <= MAX_TASK_NANOS
}

/// Whether the batches have no parallel groups and no task that is
/// estimated above `MAX_TASK_NANOS`.
pub open spec fn plain_batches(batches: Seq<ExecutionBatchView>) -> bool {
    forall|b: int|
        0 <= b < batches.len() ==> (#[trigger] batches[b]).parallel_groups.len() == 0
            && bounded_tasks(batches[b].tasks)
}

/// The planned tasks of a play are estimated within `MAX_TASK_NANOS`.
pub proof fn lemma_planned_tasks_bounded(
    settings: PlannerSettings,
    play: ParsedPlayView,
    available: Seq<Seq<char>>,
    options: PlanningOptionsView,
)
    ensures
        bounded_tasks(planned_tasks(settings, play, available, options)),
{
    let inputs = play_inputs(play, options);
    let hosts = crate::planner::execution_plan::resolved_hosts(play.hosts, available);
    let plans = task_plans(inputs, hosts, settings.check_mode);
    assert forall|i: int| 0 <= i < plans.len() implies planned_duration(#[trigger] plans[i])
        <= MAX_TASK_NANOS by {
        lemma_task_duration_bound(inputs[i]);
    }
    if settings.optimize {
        let ordered = optimized_order(plans);
        lemma_ordered_tasks(plans, plans.len() as int);
        assert(plans.take(plans.len() as int) =~= plans);
        assert forall|i: int| 0 <= i < ordered.len() implies planned_duration(
            #[trigger] ordered[i],
        ) <= MAX_TASK_NANOS by {
            vstd::seq_lib::to_multiset_contains(ordered, ordered[i]);
            vstd::seq_lib::to_multiset_contains(plans, ordered[i]);
            assert(ordered.contains(ordered[i]));
            assert(plans.contains(ordered[i]));
            let k = choose|k: int| 0 <= k < plans.len() && plans[k] == ordered[i];
            assert(planned_duration(plans[k]) <= MAX_TASK_NANOS);
        }
    }
}

/// What a filter keeps was there before.
pub proof fn lemma_filter_keeps<A>(s: Seq<A>, pred: spec_fn(A) -> bool, i: int)
    requires
        0 <= i < s.filter(pred).len(),
    ensures
        s.contains(s.filter(pred)[i]),
        pred(s.filter(pred)[i]),
{
    let kept = s.filter(pred);
    assert(kept.contains(kept[i]));
    s.lemma_filter_contains_rev(pred, kept[i]);
    s.lemma_filter_pred(pred, i);
}

/// The batches of bounded tasks are plain.
pub proof fn lemma_batches_plain(
    tasks: Seq<TaskPlanView>,
    strategy: ExecutionStrategy,
    serial: Option<u32>,
)
    requires
        bounded_tasks(tasks),
    ensures
        plain_batches(execution_batches(tasks, strategy, serial)),
{
    let batches = execution_batches(tasks, strategy, serial);
    match strategy {
        ExecutionStrategy::Free => {
            let parallel = parallel_tasks(tasks);
            let sequential = sequential_tasks(tasks);
            assert forall|i: int| 0 <= i < parallel.len() implies planned_duration(
                #[trigger] parallel[i],
            ) <= MAX_TASK_NANOS by {
                lemma_filter_keeps(tasks, |t: TaskPlanView| t.can_run_parallel, i);
                let k = choose|k: int| 0 <= k < tasks.len() && tasks[k] == parallel[i];
                assert(planned_duration(tasks[k]) <= MAX_TASK_NANOS);
            }
            assert forall|i: int| 0 <= i < sequential.len() implies planned_duration(
                #[trigger] sequential[i],
            ) <= MAX_TASK_NANOS by {
                lemma_filter_keeps(tasks, |t: TaskPlanView| !t.can_run_parallel, i);
                let k = choose|k: int| 0 <= k < tasks.len() && tasks[k] == sequential[i];
                assert(planned_duration(tasks[k]) <= MAX_TASK_NANOS);
            }
            assert forall|b: int| 0 <= b < batches.len() implies (
            #[trigger] batches[b]).parallel_groups.len() == 0 && bounded_tasks(batches[b].tasks) by {
                if parallel.len() > 0 && b > 0 {
                    assert(batches[b].tasks =~= seq![sequential[b - 1]]);
                } else if parallel.len() == 0 {
                    assert(batches[b].tasks =~= seq![sequential[b]]);
                }
            }
        },
        ExecutionStrategy::Linear => {
            assert forall|b: int| 0 <= b < batches.len() implies (
            #[trigger] batches[b]).parallel_groups.len() == 0 && bounded_tasks(batches[b].tasks) by {
                assert(batches[b].tasks =~= seq![tasks[b]]);
            }
        },
        ExecutionStrategy::Rolling { .. } => {
            assert forall|b: int| 0 <= b < batches.len() implies (
            #[trigger] batches[b]).parallel_groups.len() == 0 && bounded_tasks(batches[b].tasks) by {
                let inner = batches[b].tasks;
                assert forall|j: int| 0 <= j < inner.len() implies planned_duration(
                    #[trigger] inner[j],
                ) <= MAX_TASK_NANOS by {
                    assert(planned_duration(tasks[j]) <= MAX_TASK_NANOS);
                }
            }
        },
        ExecutionStrategy::HostPinned => {
            assert forall|b: int| 0 <= b < batches.len() implies (
            #[trigger] batches[b]).parallel_groups.len() == 0 && bounded_tasks(batches[b].tasks) by {
                let inner = batches[b].tasks;
                assert forall|j: int| 0 <= j < inner.len() implies planned_duration(
                    #[trigger] inner[j],
                ) <= MAX_TASK_NANOS by {
                    assert(planned_duration(tasks[j]) <= MAX_TASK_NANOS);
                }
            }
        },
        _ => {},
    }
}

/// A batch without parallel groups takes as long as its tasks together.
pub proof fn lemma_plain_batch_duration(batch: ExecutionBatchView)
    requires
        batch.parallel_groups.len() == 0,
    ensures
        batch_duration(batch) == total(planned_durations(batch.tasks)),
{
    assert(batch.parallel_groups.map_values(
        |g: ParallelGroupView| crate::planner::estimation::group_duration(batch.tasks, g),
    ) =~= Seq::<nat>::empty());
    assert(sequential_durations(batch) =~= planned_durations(batch.tasks));
}

/// Where every element is at most `k` times its counterpart and `c`, the
/// sum is at most `k` times the sum of the counterparts and `c` for every
/// element.
pub proof fn lemma_total_affine(a: Seq<nat>, b: Seq<nat>, k: nat, c: nat)
    requires
        a.len() == b.len(),
        forall|i: int| 0 <= i < a.len() ==> #[trigger] a[i] <= k * b[i] + c,
    ensures
        total(a) <= k * total(b) + c * a.len(),
    decreases a.len(),
{
    if a.len() > 0 {
        lemma_total_affine(a.drop_last(), b.drop_last(), k, c);
        assert(a.last() <= k * b.last() + c);
        assert(k * (total(b.drop_last()) + b.last()) == k * total(b.drop_last()) + k * b.last())
            by (nonlinear_arith);
        assert(c * a.len() == c * (a.len() - 1) + c) by (nonlinear_arith);
    }
}

/// Plain batches take at most `MAX_TASK_NANOS` for each of their tasks.
pub proof fn lemma_plain_batches_duration(batches: Seq<ExecutionBatchView>)
    requires
        plain_batches(batches),
    ensures
        total(batch_durations(batches)) <= MAX_TASK_NANOS * total(batch_sizes(batches)),
{
    let durations = batch_durations(batches);
    let sizes = batch_sizes(batches);
    assert forall|i: int| 0 <= i < durations.len() implies #[trigger] durations[i]
        <= MAX_TASK_NANOS as nat * sizes[i] + 0 by {
        lemma_plain_batch_duration(batches[i]);
        let d = planned_durations(batches[i].tasks);
        assert forall|j: int| 0 <= j < d.len() implies d[j] <= MAX_TASK_NANOS by {
            assert(planned_duration(batches[i].tasks[j]) <= MAX_TASK_NANOS);
        }
        lemma_total_bound(d, MAX_TASK_NANOS as nat);
        assert(d.len() * MAX_TASK_NANOS == MAX_TASK_NANOS * sizes[i]) by (nonlinear_arith)
            requires
                d.len() == sizes[i],
        ;
    }
    lemma_total_affine(durations, sizes, MAX_TASK_NANOS as nat, 0);
}

/// The most that computing the duration of a play of plain batches passes
/// through.
pub proof fn lemma_play_peak_bound(play: PlayPlanView)
    requires
        plain_batches(play.batches),
    ensures
        play_duration_peak(play) <= 8 * MAX_TASK_NANOS * play_task_count(play)
            + BINARY_OVERHEAD_NANOS,
{
    lemma_plain_batches_duration(play.batches);
    lemma_greatest_bounds(batch_durations(play.batches));
    let t = total(batch_durations(play.batches));
    let n = play_task_count(play);
    assert(t <= MAX_TASK_NANOS * n);
    assert(8 * MAX_TASK_NANOS * n == 8 * (MAX_TASK_NANOS * n)) by (nonlinear_arith);
}

/// The most that computing the durations of plays of plain batches passes
/// through.
pub proof fn lemma_plays_peak_bound(plays: Seq<PlayPlanView>)
    requires
        forall|i: int| 0 <= i < plays.len() ==> plain_batches((#[trigger] plays[i]).batches),
    ensures
        total(play_duration_peaks(plays)) <= 8 * MAX_TASK_NANOS * plays_task_count(plays)
            + BINARY_OVERHEAD_NANOS * plays.len(),
{
    let peaks = play_duration_peaks(plays);
    let counts = plays.map_values(|p: PlayPlanView| play_task_count(p));
    assert forall|i: int| 0 <= i < peaks.len() implies #[trigger] peaks[i] <= (8
        * MAX_TASK_NANOS) as nat * counts[i] + BINARY_OVERHEAD_NANOS as nat by {
        lemma_play_peak_bound(plays[i]);
    }
    lemma_total_affine(peaks, counts, (8 * MAX_TASK_NANOS) as nat, BINARY_OVERHEAD_NANOS as nat);
}

/// The numbers of tasks of the groups, in their order.
pub open spec fn group_sizes(groups: Seq<TaskGroupView>) -> Seq<nat> {
    groups.map_values(|g: TaskGroupView| g.tasks.len())
}

/// The groups that are formed of tasks hold no more tasks than there were.
pub proof fn lemma_groups_task_total(remaining: Seq<TaskPlanView>, groups: Seq<TaskGroupView>)
    ensures
        total(group_sizes(groups_from(remaining, groups))) <= total(group_sizes(groups))
            + remaining.len(),
    decreases remaining.len(),
{
    if remaining.len() > 0 {
        let seed = remaining[0];
        let rest = remaining.skip(1);
        let joining = |t: TaskPlanView| shares_binary(seed, t);
        let staying = |t: TaskPlanView| !shares_binary(seed, t);
        let members = rest.filter(joining);
        let left = rest.filter(staying);
        lemma_filter_split(rest, joining, staying);
        let group = make_group(groups.len(), seed, members);
        if group.network_operations > 3 {
            let longer = groups.push(group);
            lemma_groups_task_total(left, longer);
            assert(groups_from(remaining, groups) == groups_from(left, longer));
            assert(group_sizes(longer) =~= group_sizes(groups).push(group.tasks.len()));
            assert(group_sizes(longer).drop_last() =~= group_sizes(groups));
        } else {
            lemma_groups_task_total(left, groups);
            assert(groups_from(remaining, groups) == groups_from(left, groups));
        }
    }
}

/// A sum with one more element.
pub proof fn lemma_total_push(s: Seq<nat>, x: nat)
    ensures
        total(s.push(x)) == total(s) + x,
{
    assert(s.push(x).drop_last() =~= s);
}

/// A sum with one more element somewhere.
pub proof fn lemma_total_insert(s: Seq<nat>, p: int, x: nat)
    requires
        0 <= p <= s.len(),
    ensures
        total(s.insert(p, x)) == total(s) + x,
{
    assert(s.insert(p, x) =~= s.take(p).push(x) + s.skip(p));
    assert(s =~= s.take(p) + s.skip(p));
    lemma_total_concat(s.take(p).push(x), s.skip(p));
    lemma_total_concat(s.take(p), s.skip(p));
    lemma_total_push(s.take(p), x);
}

/// The place of a binary among sorted binaries is within them or right
/// after them.
pub proof fn lemma_place_by_size_range(sorted: Seq<BinaryDeploymentView>, size: u64)
    ensures
        0 <= place_by_size(sorted, size) <= sorted.len(),
    decreases sorted.len(),
{
    if sorted.len() > 0 && !(sorted[0].estimated_size < size) {
        lemma_place_by_size_range(sorted.skip(1), size);
    }
}

/// Sorting keeps the binaries, and so the number of their tasks.
pub proof fn lemma_sorted_count(deployments: Seq<BinaryDeploymentView>, n: int)
    requires
        0 <= n <= deployments.len(),
    ensures
        sorted_by_size(deployments, n).len() == n,
        deployed_task_count(sorted_by_size(deployments, n)) == deployed_task_count(
            deployments.take(n),
        ),
    decreases n,
{
    if n > 0 {
        lemma_sorted_count(deployments, n - 1);
        let before = sorted_by_size(deployments, n - 1);
        let item = deployments[n - 1];
        let p = place_by_size(before, item.estimated_size);
        lemma_place_by_size_range(before, item.estimated_size);
        assert(deployment_sizes(before.insert(p, item)) =~= deployment_sizes(before).insert(
            p,
            item.tasks.len(),
        ));
        lemma_total_insert(deployment_sizes(before), p, item.tasks.len());
        assert(deployment_sizes(deployments.take(n)) =~= deployment_sizes(
            deployments.take(n - 1),
        ).push(item.tasks.len()));
        lemma_total_push(deployment_sizes(deployments.take(n - 1)), item.tasks.len());
    } else {
        assert(deployment_sizes(deployments.take(0)) =~= Seq::<nat>::empty());
        assert(deployment_sizes(sorted_by_size(deployments, 0)) =~= Seq::<nat>::empty());
    }
}

/// Leaving binaries out leaves no more tasks.
pub proof fn lemma_without_repeated_count(deployments: Seq<BinaryDeploymentView>, n: int)
    requires
        0 <= n <= deployments.len(),
    ensures
        deployed_task_count(without_repeated_hosts(deployments, n)) <= deployed_task_count(
            deployments.take(n),
        ),
    decreases n,
{
    if n > 0 {
        lemma_without_repeated_count(deployments, n - 1);
        let before = without_repeated_hosts(deployments, n - 1);
        let item = deployments[n - 1];
        assert(deployment_sizes(deployments.take(n)) =~= deployment_sizes(
            deployments.take(n - 1),
        ).push(item.tasks.len()));
        lemma_total_push(deployment_sizes(deployments.take(n - 1)), item.tasks.len());
        assert(deployment_sizes(before.push(item)) =~= deployment_sizes(before).push(
            item.tasks.len(),
        ));
        lemma_total_push(deployment_sizes(before), item.tasks.len());
    } else {
        assert(deployment_sizes(deployments.take(0)) =~= Seq::<nat>::empty());
        assert(deployment_sizes(without_repeated_hosts(deployments, 0)) =~= Seq::<nat>::empty());
    }
}

/// The binaries for groups have no more tasks than the groups.
pub proof fn lemma_deployments_count(
    groups: Seq<TaskGroupView>,
    n: int,
    hosts: Seq<Seq<char>>,
    threshold: u32,
    inventory: Option<ParsedInventoryView>,
    host_arch: Seq<char>,
    host_os: Seq<char>,
)
    requires
        0 <= n <= groups.len(),
    ensures
        deployed_task_count(
            deployments_upto(groups, n, hosts, threshold, inventory, host_arch, host_os),
        ) <= total(group_sizes(groups.take(n))),
    decreases n,
{
    if n > 0 {
        lemma_deployments_count(groups, n - 1, hosts, threshold, inventory, host_arch, host_os);
        let before = deployments_upto(
            groups,
            n - 1,
            hosts,
            threshold,
            inventory,
            host_arch,
            host_os,
        );
        let group = groups[n - 1];
        assert(group_sizes(groups.take(n)) =~= group_sizes(groups.take(n - 1)).push(
            group.tasks.len(),
        ));
        lemma_total_push(group_sizes(groups.take(n - 1)), group.tasks.len());
        if is_deployed(group, threshold) {
            let d = crate::planner::binary_deployment::binary_deployment(
                group,
                hosts,
                inventory,
                host_arch,
                host_os,
            );
            assert(d.tasks.len() == group.tasks.len());
            assert(deployment_sizes(before.push(d)) =~= deployment_sizes(before).push(
                d.tasks.len(),
            ));
            lemma_total_push(deployment_sizes(before), d.tasks.len());
        }
    } else {
        assert(deployment_sizes(Seq::<BinaryDeploymentView>::empty()) =~= Seq::<nat>::empty());
        assert(group_sizes(groups.take(0)) =~= Seq::<nat>::empty());
    }
}

/// The binaries that are planned for tasks have no more tasks than there
/// are.
pub proof fn lemma_planned_deployments_count(
    tasks: Seq<TaskPlanView>,
    hosts: Seq<Seq<char>>,
    threshold: u32,
    inventory: Option<ParsedInventoryView>,
    host_arch: Seq<char>,
    host_os: Seq<char>,
)
    ensures
        deployed_task_count(
            planned_deployments(tasks, hosts, threshold, inventory, host_arch, host_os),
        ) <= tasks.len(),
{
    let groups = task_groups(tasks);
    lemma_groups_task_total(tasks, Seq::empty());
    assert(group_sizes(Seq::<TaskGroupView>::empty()) =~= Seq::<nat>::empty());
    let n = groups.len() as int;
    lemma_deployments_count(groups, n, hosts, threshold, inventory, host_arch, host_os);
    assert(groups.take(n) =~= groups);
    let all = deployments_upto(groups, n, hosts, threshold, inventory, host_arch, host_os);
    let m = all.len() as int;
    lemma_sorted_count(all, m);
    assert(all.take(m) =~= all);
    let sorted = sorted_by_size(all, m);
    lemma_without_repeated_count(sorted, sorted.len() as int);
    assert(sorted.take(sorted.len() as int) =~= sorted);
}

/// A play has as many planned tasks as the tag filters keep.
pub proof fn lemma_planned_tasks_len(
    settings: PlannerSettings,
    play: ParsedPlayView,
    available: Seq<Seq<char>>,
    options: PlanningOptionsView,
)
    ensures
        planned_tasks(settings, play, available, options).len() == play_inputs(
            play,
            options,
        ).len(),
{
    let plans = task_plans(
        play_inputs(play, options),
        crate::planner::execution_plan::resolved_hosts(play.hosts, available),
        settings.check_mode,
    );
    lemma_ordered_tasks(plans, plans.len() as int);
}

/// The binaries of a play have no more tasks than the play.
pub proof fn lemma_play_deployments_count(
    settings: PlannerSettings,
    play: ParsedPlayView,
    available: Seq<Seq<char>>,
    inventory: ParsedInventoryView,
    options: PlanningOptionsView,
)
    ensures
        deployed_task_count(
            crate::planner::assembly::play_deployments(
                settings,
                play,
                available,
                inventory,
                options,
            ),
        ) <= play_inputs(play, options).len(),
{
    assert(deployment_sizes(Seq::<BinaryDeploymentView>::empty()) =~= Seq::<nat>::empty());
    lemma_planned_tasks_len(settings, play, available, options);
    if !options.force_ssh {
        lemma_planned_deployments_count(
            planned_tasks(settings, play, available, options),
            crate::planner::execution_plan::resolved_hosts(play.hosts, available),
            settings.binary_threshold,
            Some(inventory),
            settings.host_arch,
            settings.host_os,
        );
    }
}

/// The binaries of plays whose tasks can be numbered in 32 bits have at
/// most 2^32 tasks for every play.
pub proof fn lemma_deployments_of_plays_count(
    settings: PlannerSettings,
    plays: Seq<ParsedPlayView>,
    n: int,
    available: Seq<Seq<char>>,
    inventory: ParsedInventoryView,
    options: PlanningOptionsView,
)
    requires
        0 <= n <= plays.len(),
        forall|i: int| 0 <= i < plays.len() ==> play_inputs(#[trigger] plays[i], options).len()
            <= u32::MAX,
    ensures
        deployed_task_count(
            crate::planner::assembly::deployments_of_plays(
                settings,
                plays,
                n,
                available,
                inventory,
                options,
            ),
        ) <= u32::MAX * n,
    decreases n,
{
    if n > 0 {
        lemma_deployments_of_plays_count(settings, plays, n - 1, available, inventory, options);
        lemma_play_deployments_count(settings, plays[n - 1], available, inventory, options);
        let before = crate::planner::assembly::deployments_of_plays(
            settings,
            plays,
            n - 1,
            available,
            inventory,
            options,
        );
        let added = crate::planner::assembly::play_deployments(
            settings,
            plays[n - 1],
            available,
            inventory,
            options,
        );
        assert(deployment_sizes(before + added) =~= deployment_sizes(before) + deployment_sizes(
            added,
        ));
        lemma_total_concat(deployment_sizes(before), deployment_sizes(added));
        assert(u32::MAX * n == u32::MAX * (n - 1) + u32::MAX) by (nonlinear_arith);
    } else {
        assert(deployment_sizes(Seq::<BinaryDeploymentView>::empty()) =~= Seq::<nat>::empty());
    }
}

} // verus!

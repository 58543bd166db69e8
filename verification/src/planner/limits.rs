//! How large a playbook the planner takes. The graph of the dependencies of
//! a play numbers its nodes and edges in 32 bits, and a plan counts the
//! tasks of its batches in a machine word.

use vstd::prelude::*;
use crate::numbers::{lemma_total_bound, lemma_total_concat, total};
use crate::planner::assembly::{
    batch_sizes, planned_tasks, planning_fits, play_fits, play_inputs, play_is_sound, play_plan,
    play_plans,
    play_task_count, plays_task_count, PlannerSettings,
};
use crate::planner::binary_deployment::lemma_filter_split;
use crate::planner::bounds::lemma_total_push;
use crate::planner::dependency::{
    dependency_edges, edges_upto, implicit_edges, lemma_explicit_edges_len,
};
use crate::planner::execution_plan::{
    execution_batches, first_task_hosts, limited_hosts, resolved_hosts, rolling_window,
    layout_is_sound,
};
use crate::planner::laws::{all_on_hosts, lemma_planned_tasks_origin};
use crate::planner::strategy::{
    chain_batches, lemma_window_index, parallel_tasks, sequential_tasks, window_count,
};
use crate::types::parsed::{
    ParsedInventoryView, ParsedPlayView, ParsedPlaybookView, ParsedTask, ParsedTaskView,
};
use crate::types::plan::{PlanningOptionsView, PlayPlanView, TaskPlanView};
use crate::types::strategy::ExecutionStrategy;

verus! {

/// Room for the edges into the first `t` tasks: every task can have an edge
/// from each task that it names and one from each task.
pub open spec fn edge_allowance(tasks: Seq<ParsedTaskView>, t: int) -> nat
    decreases t,
{
    if t <= 0 {
        0
    } else {
        edge_allowance(tasks, t - 1) + tasks[t - 1].dependencies.len() + tasks.len()
    }
}

/// Whether the tasks of a play are few enough for the graph of their
/// dependencies.
pub open spec fn tasks_within_limits(tasks: Seq<ParsedTaskView>) -> bool {
    edge_allowance(tasks, tasks.len() as int) < u32::MAX
}

/// Room for the tasks in the batches of a play of `tasks` tasks on `hosts`
/// hosts: every task once, or once for every host where the hosts are
/// rolled over or pinned.
pub open spec fn layout_allowance(strategy: ExecutionStrategy, tasks: nat, hosts: nat) -> nat {
    match strategy {
        ExecutionStrategy::Rolling { .. } | ExecutionStrategy::HostPinned => tasks * hosts,
        _ => tasks,
    }
}

/// Room for the tasks in the batches of a play.
pub open spec fn play_allowance(
    play: ParsedPlayView,
    available: Seq<Seq<char>>,
    options: PlanningOptionsView,
) -> nat {
    layout_allowance(
        options.strategy,
        play_inputs(play, options).len(),
        resolved_hosts(play.hosts, available).len(),
    )
}

/// Room for the tasks in the batches of the first `n` plays.
pub open spec fn plays_allowance(
    plays: Seq<ParsedPlayView>,
    n: int,
    available: Seq<Seq<char>>,
    options: PlanningOptionsView,
) -> nat
    decreases n,
{
    if n <= 0 {
        0
    } else {
        plays_allowance(plays, n - 1, available, options) + play_allowance(
            plays[n - 1],
            available,
            options,
        )
    }
}

/// Whether the planner takes the inputs: the tasks of every play are few
/// enough for the graph of their dependencies and, where the limit leaves
/// hosts, a rolling window has a host in every play that has tasks and
/// hosts, and there is room in a machine word for the tasks of all batches.
pub open spec fn within_planning_limits(
    playbook: ParsedPlaybookView,
    inventory: ParsedInventoryView,
    options: PlanningOptionsView,
) -> bool {
    &&& forall|i: int|
        0 <= i < playbook.plays.len() ==> tasks_within_limits(
            play_inputs(#[trigger] playbook.plays[i], options),
        )
    &&& limited_hosts(inventory.hosts, options.limit) matches Some(available) ==> {
        &&& forall|i: int|
            0 <= i < playbook.plays.len() ==> play_is_sound(
                #[trigger] playbook.plays[i],
                available,
                options,
            )
        &&& plays_allowance(playbook.plays, playbook.plays.len() as int, available, options)
            <= usize::MAX
    }
}

/// The room grows with the tasks, by at least the number of tasks for each.
pub proof fn lemma_edge_allowance_grows(tasks: Seq<ParsedTaskView>, t: int, u: int)
    requires
        0 <= t <= u,
    ensures
        edge_allowance(tasks, u) >= edge_allowance(tasks, t) + (u - t) * tasks.len(),
    decreases u - t,
{
    if t < u {
        lemma_edge_allowance_grows(tasks, t, u - 1);
        assert((u - t) * tasks.len() == (u - 1 - t) * tasks.len() + tasks.len())
            by (nonlinear_arith);
    } else {
        assert((u - t) * tasks.len() == 0) by (nonlinear_arith)
            requires
                u - t == 0,
        ;
    }
}

/// There are no more inferred edges into a task than tasks looked at.
pub proof fn lemma_implicit_edges_len(tasks: Seq<ParsedTaskView>, t: int, o: int)
    requires
        0 <= o,
    ensures
        implicit_edges(tasks, t, o).len() <= o,
    decreases o,
{
    if o > 0 {
        lemma_implicit_edges_len(tasks, t, o - 1);
    }
}

/// The edges into the first tasks have room.
pub proof fn lemma_edges_have_room(tasks: Seq<ParsedTaskView>, t: int)
    requires
        0 <= t <= tasks.len(),
    ensures
        edges_upto(tasks, t).len() <= edge_allowance(tasks, t),
    decreases t,
{
    if t > 0 {
        lemma_edges_have_room(tasks, t - 1);
        lemma_explicit_edges_len(tasks, t - 1, tasks[t - 1].dependencies.len() as int);
        lemma_implicit_edges_len(tasks, t - 1, tasks.len() as int);
    }
}

/// Tasks within the limits fit the graph of their dependencies and the
/// count of their network operations.
pub proof fn lemma_tasks_within_limits_fit(tasks: Seq<ParsedTaskView>)
    requires
        tasks_within_limits(tasks),
    ensures
        tasks.len() < u32::MAX,
        dependency_edges(tasks).len() < u32::MAX,
        2 * tasks.len() <= u32::MAX,
{
    let n = tasks.len();
    lemma_edges_have_room(tasks, n as int);
    lemma_edge_allowance_grows(tasks, 0, n as int);
    assert(edge_allowance(tasks, n as int) >= n * n);
    if n >= 65536 {
        assert(n * n >= 65536 * 65536) by (nonlinear_arith)
            requires
                n >= 65536,
        ;
    }
}

/// A window has at least one host, so there are no more windows than hosts.
pub proof fn lemma_window_count_bound(hosts: nat, window: nat)
    requires
        window > 0,
    ensures
        window_count(hosts, window) <= hosts,
{
    lemma_window_index(hosts, window, hosts);
    assert(hosts * window >= hosts) by (nonlinear_arith)
        requires
            window >= 1,
    ;
}

/// The batches of a play hold no more tasks than there is room for.
pub proof fn lemma_batches_have_room(
    tasks: Seq<TaskPlanView>,
    strategy: ExecutionStrategy,
    serial: Option<u32>,
    hosts: Seq<Seq<char>>,
)
    requires
        layout_is_sound(strategy, serial, tasks.len(), hosts.len()),
        all_on_hosts(tasks, hosts),
    ensures
        total(batch_sizes(execution_batches(tasks, strategy, serial))) <= layout_allowance(
            strategy,
            tasks.len(),
            hosts.len(),
        ),
{
    let batches = execution_batches(tasks, strategy, serial);
    let sizes = batch_sizes(batches);
    match strategy {
        ExecutionStrategy::Linear => {
            assert forall|i: int| 0 <= i < sizes.len() implies sizes[i] <= 1 by {
                assert(batches[i].tasks.len() == 1);
            }
            lemma_total_bound(sizes, 1);
        },
        ExecutionStrategy::Free => {
            let parallel = parallel_tasks(tasks);
            let sequential = sequential_tasks(tasks);
            lemma_filter_split(
                tasks,
                |t: TaskPlanView| t.can_run_parallel,
                |t: TaskPlanView| !t.can_run_parallel,
            );
            if parallel.len() > 0 {
                let chain = chain_batches(
                    "sequential-batch-"@,
                    Some("parallel-batch"@),
                    None,
                    sequential,
                );
                let chain_sizes = batch_sizes(chain);
                assert(sizes =~= seq![parallel.len()] + chain_sizes);
                lemma_total_concat(seq![parallel.len()], chain_sizes);
                lemma_total_push(Seq::<nat>::empty(), parallel.len());
                assert(Seq::<nat>::empty().push(parallel.len()) =~= seq![parallel.len()]);
                assert forall|i: int| 0 <= i < chain_sizes.len() implies chain_sizes[i] <= 1 by {
                    assert(chain[i].tasks.len() == 1);
                }
                lemma_total_bound(chain_sizes, 1);
            } else {
                assert forall|i: int| 0 <= i < sizes.len() implies sizes[i] <= 1 by {
                    assert(batches[i].tasks.len() == 1);
                }
                lemma_total_bound(sizes, 1);
            }
        },
        ExecutionStrategy::Rolling { batch_size } => {
            if tasks.len() > 0 && hosts.len() > 0 {
                let window = rolling_window(batch_size, serial);
                assert(first_task_hosts(tasks) == hosts);
                lemma_window_count_bound(hosts.len(), window);
                assert forall|i: int| 0 <= i < sizes.len() implies sizes[i] <= tasks.len() by {
                    assert(batches[i].tasks.len() == tasks.len());
                }
                lemma_total_bound(sizes, tasks.len());
                assert(sizes.len() * tasks.len() <= tasks.len() * hosts.len())
                    by (nonlinear_arith)
                    requires
                        sizes.len() <= hosts.len(),
                ;
            } else {
                assert(sizes =~= Seq::<nat>::empty());
            }
        },
        ExecutionStrategy::HostPinned => {
            if tasks.len() > 0 {
                assert(first_task_hosts(tasks) == hosts);
                assert forall|i: int| 0 <= i < sizes.len() implies sizes[i] <= tasks.len() by {
                    assert(batches[i].tasks.len() == tasks.len());
                }
                lemma_total_bound(sizes, tasks.len());
                assert(sizes.len() * tasks.len() == tasks.len() * hosts.len())
                    by (nonlinear_arith)
                    requires
                        sizes.len() == hosts.len(),
                ;
            } else {
                assert(sizes =~= Seq::<nat>::empty());
            }
        },
        _ => {
            assert(sizes =~= Seq::<nat>::empty().push(tasks.len()));
            lemma_total_push(Seq::<nat>::empty(), tasks.len());
        },
    }
}

/// The batches of the plays hold no more tasks than there is room for.
pub proof fn lemma_plays_have_room(
    settings: PlannerSettings,
    plays: Seq<ParsedPlayView>,
    n: int,
    available: Seq<Seq<char>>,
    options: PlanningOptionsView,
)
    requires
        0 <= n <= plays.len(),
        forall|i: int| 0 <= i < plays.len() ==> play_is_sound(#[trigger] plays[i], available, options),
    ensures
        plays_task_count(play_plans(settings, plays, n, available, options)) <= plays_allowance(
            plays,
            n,
            available,
            options,
        ),
    decreases n,
{
    if n > 0 {
        lemma_plays_have_room(settings, plays, n - 1, available, options);
        let play = plays[n - 1];
        let planned = planned_tasks(settings, play, available, options);
        let hosts = resolved_hosts(play.hosts, available);
        lemma_planned_tasks_origin(settings, play, available, options);
        assert(play_is_sound(play, available, options));
        lemma_batches_have_room(planned, options.strategy, options.serial, hosts);
        let shorter = play_plans(settings, plays, n - 1, available, options);
        let longer = play_plans(settings, plays, n, available, options);
        let last = play_plan(settings, play, n - 1, available, options);
        assert(longer =~= shorter.push(last));
        assert(longer.map_values(|p: PlayPlanView| play_task_count(p)) =~= shorter.map_values(
            |p: PlayPlanView| play_task_count(p),
        ).push(play_task_count(last)));
        lemma_total_push(
            shorter.map_values(|p: PlayPlanView| play_task_count(p)),
            play_task_count(last),
        );
    } else {
        assert(play_plans(settings, plays, 0, available, options).map_values(
            |p: PlayPlanView| play_task_count(p),
        ) =~= Seq::<nat>::empty());
    }
}

/// Whatever the planner brings to it, a plan for inputs within the limits
/// can be held.
pub proof fn lemma_limits_suffice(
    settings: PlannerSettings,
    playbook: ParsedPlaybookView,
    inventory: ParsedInventoryView,
    options: PlanningOptionsView,
)
    requires
        within_planning_limits(playbook, inventory, options),
    ensures
        planning_fits(settings, playbook, inventory, options),
{
    assert forall|i: int| 0 <= i < playbook.plays.len() implies play_fits(
        #[trigger] playbook.plays[i],
        options,
    ) by {
        lemma_tasks_within_limits_fit(play_inputs(playbook.plays[i], options));
    }
    if limited_hosts(inventory.hosts, options.limit) is Some {
        lemma_plays_have_room(
            settings,
            playbook.plays,
            playbook.plays.len() as int,
            limited_hosts(inventory.hosts, options.limit)->0,
            options,
        );
    }
}

/// The room does not shrink with the plays.
pub proof fn lemma_plays_allowance_grows(
    plays: Seq<ParsedPlayView>,
    n: int,
    m: int,
    available: Seq<Seq<char>>,
    options: PlanningOptionsView,
)
    requires
        0 <= n <= m,
    ensures
        plays_allowance(plays, n, available, options) <= plays_allowance(
            plays,
            m,
            available,
            options,
        ),
    decreases m - n,
{
    if n < m {
        lemma_plays_allowance_grows(plays, n, m - 1, available, options);
    }
}

/// Whether the tasks of a play are few enough for the graph of their
/// dependencies.
pub fn check_task_limits(tasks: &Vec<ParsedTask>) -> (ok: bool)
    ensures
        ok == tasks_within_limits(tasks.deep_view()),
{
    let ghost view = tasks.deep_view();
    let count = tasks.len() as u128;
    let mut room: u128 = 0;
    let mut t: usize = 0;
    while t < tasks.len()
        invariant
            t <= tasks.len(),
            view == tasks.deep_view(),
            count == tasks.len(),
            room == edge_allowance(view, t as int),
            room < u32::MAX,
        decreases tasks.len() - t,
    {
        room = room + tasks[t].dependencies.len() as u128 + count;
        if room >= u32::MAX as u128 {
            proof {
                lemma_edge_allowance_grows(view, t + 1, tasks.len() as int);
            }
            return false;
        }
        t += 1;
    }
    true
}

} // verus!

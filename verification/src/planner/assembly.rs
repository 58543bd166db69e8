//! What a plan is, as a function of what it is made from.

use vstd::prelude::*;
use crate::hashing::content_hash;
use crate::json::{inventory_json, playbook_json};
use crate::numbers::total;
use crate::planner::binary_deployment::{compilation_time, deployed_task_count, planned_deployments};
use crate::planner::dependency::{
    acyclic_tasks, cycle_message, dependencies_known, dependency_edges,
    is_first_unknown_dependency,
};
use crate::planner::error::PlanErrorView;
use crate::types::graph::on_cycle;
use crate::planner::estimation::plays_duration;
use crate::planner::execution_plan::{
    execution_batches, filtered_tasks, handler_plans, limited_hosts, resolved_hosts,
    layout_is_sound, task_plans,
};
use crate::planner::optimization::optimized_order;
use crate::text::decimal;
use crate::types::parsed::{ParsedInventoryView, ParsedPlayView, ParsedPlaybookView, ParsedTaskView};
use crate::types::plan::{
    BinaryDeploymentView, ExecutionBatchView, ExecutionPlanView, PlanMetadataView,
    PlanningOptionsView, PlayPlanView, Ratio, TaskPlanView, Timestamp,
};
use crate::types::strategy::ExecutionStrategy;

verus! {

/// What the planner brings to a plan besides its inputs.
pub struct PlannerSettings {
    pub optimize: bool,
    pub check_mode: bool,
    pub binary_threshold: u32,
    pub host_arch: Seq<char>,
    pub host_os: Seq<char>,
    pub version: Seq<char>,
}

/// The tasks of a play that the tag filters of the options keep.
pub open spec fn play_inputs(play: ParsedPlayView, options: PlanningOptionsView) -> Seq<
    ParsedTaskView,
> {
    filtered_tasks(play.tasks, options.tags, options.skip_tags)
}

/// The planned tasks of a play, in the order in which they are laid out.
pub open spec fn planned_tasks(
    settings: PlannerSettings,
    play: ParsedPlayView,
    available: Seq<Seq<char>>,
    options: PlanningOptionsView,
) -> Seq<TaskPlanView> {
    let plans = task_plans(
        play_inputs(play, options),
        resolved_hosts(play.hosts, available),
        settings.check_mode,
    );
    if settings.optimize {
        optimized_order(plans)
    } else {
        plans
    }
}

/// The plan of play `index`.
pub open spec fn play_plan(
    settings: PlannerSettings,
    play: ParsedPlayView,
    index: int,
    available: Seq<Seq<char>>,
    options: PlanningOptionsView,
) -> PlayPlanView {
    PlayPlanView {
        play_id: "play-"@ + decimal(index as nat),
        name: play.name,
        strategy: options.strategy,
        serial: options.serial,
        hosts: resolved_hosts(play.hosts, available),
        batches: execution_batches(
            planned_tasks(settings, play, available, options),
            options.strategy,
            options.serial,
        ),
        handlers: handler_plans(play.handlers),
        estimated_duration: None,
    }
}

/// The binaries of a play: none where the options force remote commands.
pub open spec fn play_deployments(
    settings: PlannerSettings,
    play: ParsedPlayView,
    available: Seq<Seq<char>>,
    inventory: ParsedInventoryView,
    options: PlanningOptionsView,
) -> Seq<BinaryDeploymentView> {
    if options.force_ssh {
        Seq::empty()
    } else {
        planned_deployments(
            planned_tasks(settings, play, available, options),
            resolved_hosts(play.hosts, available),
            settings.binary_threshold,
            Some(inventory),
            settings.host_arch,
            settings.host_os,
        )
    }
}

/// Why a play cannot be planned.
pub enum PlayFailure {
    /// A task names a dependency that is no task of the play.
    UnknownDependency,
    /// The dependencies of the tasks hold a cycle.
    Cycle,
}

/// Why the play cannot be planned, if it cannot.
pub open spec fn play_failure(play: ParsedPlayView, options: PlanningOptionsView) -> Option<
    PlayFailure,
> {
    let inputs = play_inputs(play, options);
    if !dependencies_known(inputs) {
        Some(PlayFailure::UnknownDependency)
    } else if !acyclic_tasks(inputs) {
        Some(PlayFailure::Cycle)
    } else {
        None
    }
}

/// The plans of the first `n` plays.
pub open spec fn play_plans(
    settings: PlannerSettings,
    plays: Seq<ParsedPlayView>,
    n: int,
    available: Seq<Seq<char>>,
    options: PlanningOptionsView,
) -> Seq<PlayPlanView> {
    Seq::new(n as nat, |i: int| play_plan(settings, plays[i], i, available, options))
}

/// The binaries of the first `n` plays, play by play.
pub open spec fn deployments_of_plays(
    settings: PlannerSettings,
    plays: Seq<ParsedPlayView>,
    n: int,
    available: Seq<Seq<char>>,
    inventory: ParsedInventoryView,
    options: PlanningOptionsView,
) -> Seq<BinaryDeploymentView>
    decreases n,
{
    if n <= 0 {
        Seq::empty()
    } else {
        deployments_of_plays(settings, plays, n - 1, available, inventory, options)
            + play_deployments(settings, plays[n - 1], available, inventory, options)
    }
}

/// The first of the first `n` plays that cannot be planned, and why.
pub open spec fn first_play_failure(
    plays: Seq<ParsedPlayView>,
    n: int,
    options: PlanningOptionsView,
) -> Option<(int, PlayFailure)>
    decreases n,
{
    if n <= 0 {
        None
    } else {
        match first_play_failure(plays, n - 1, options) {
            Some(f) => Some(f),
            None => match play_failure(plays[n - 1], options) {
                Some(f) => Some((n - 1, f)),
                None => None,
            },
        }
    }
}

/// The numbers of tasks of the batches, in their order.
pub open spec fn batch_sizes(batches: Seq<ExecutionBatchView>) -> Seq<nat> {
    batches.map_values(|b: ExecutionBatchView| b.tasks.len())
}

/// The number of tasks in the batches of a play.
pub open spec fn play_task_count(play: PlayPlanView) -> nat {
    total(batch_sizes(play.batches))
}

/// The number of tasks in the batches of the plays.
pub open spec fn plays_task_count(plays: Seq<PlayPlanView>) -> nat {
    total(plays.map_values(|p: PlayPlanView| play_task_count(p)))
}

/// The number of the tasks that may run in parallel.
pub open spec fn parallel_count(tasks: Seq<TaskPlanView>) -> nat {
    tasks.filter(|t: TaskPlanView| t.can_run_parallel).len()
}

/// The number of tasks in the batches of a play that may run in parallel.
pub open spec fn play_parallel_count(play: PlayPlanView) -> nat {
    total(play.batches.map_values(|b: ExecutionBatchView| parallel_count(b.tasks)))
}

/// The number of tasks in the batches of the plays that may run in
/// parallel.
pub open spec fn plays_parallel_count(plays: Seq<PlayPlanView>) -> nat {
    total(plays.map_values(|p: PlayPlanView| play_parallel_count(p)))
}

/// The share of the tasks that may run in parallel, and zero where there
/// is no task.
pub open spec fn parallelism_score(plays: Seq<PlayPlanView>) -> Ratio {
    let tasks = plays_task_count(plays);
    if tasks == 0 {
        Ratio { numerator: 0, denominator: 1 }
    } else {
        Ratio { numerator: plays_parallel_count(plays) as u128, denominator: tasks as u128 }
    }
}

/// How much of the network traffic the binaries save: a fifth, and four
/// fifths of the share of the tasks that binaries run; one where there is
/// no task.
pub open spec fn network_efficiency_score(
    plays: Seq<PlayPlanView>,
    deployments: Seq<BinaryDeploymentView>,
) -> Ratio {
    let tasks = plays_task_count(plays);
    if tasks == 0 {
        Ratio { numerator: 1, denominator: 1 }
    } else {
        Ratio {
            numerator: (8 * deployed_task_count(deployments) + 2 * tasks) as u128,
            denominator: (10 * tasks) as u128,
        }
    }
}

/// Why a plan cannot be made.
pub enum PlanFailure {
    /// The limit leaves no host.
    HostPattern,
    /// A play cannot be planned.
    Play(int, PlayFailure),
}

/// Why the plan cannot be made, if it cannot: the first of these that
/// holds.
pub open spec fn plan_failure(
    playbook: ParsedPlaybookView,
    inventory: ParsedInventoryView,
    options: PlanningOptionsView,
) -> Option<PlanFailure> {
    match limited_hosts(inventory.hosts, options.limit) {
        None => Some(PlanFailure::HostPattern),
        Some(available) => match first_play_failure(
            playbook.plays,
            playbook.plays.len() as int,
            options,
        ) {
            Some((index, failure)) => Some(PlanFailure::Play(index, failure)),
            None => None,
        },
    }
}

/// The plan, where it can be made.
pub open spec fn planned(
    settings: PlannerSettings,
    playbook: ParsedPlaybookView,
    inventory: ParsedInventoryView,
    options: PlanningOptionsView,
    created_at: Timestamp,
) -> ExecutionPlanView {
    let available = limited_hosts(inventory.hosts, options.limit)->0;
    let plays = play_plans(
        settings,
        playbook.plays,
        playbook.plays.len() as int,
        available,
        options,
    );
    let deployments = deployments_of_plays(
        settings,
        playbook.plays,
        playbook.plays.len() as int,
        available,
        inventory,
        options,
    );
    ExecutionPlanView {
        metadata: PlanMetadataView {
            created_at,
            rustle_version: settings.version,
            playbook_hash: content_hash(playbook_json(playbook)),
            inventory_hash: content_hash(inventory_json(inventory)),
            planning_options: options,
        },
        plays,
        binary_deployments: deployments,
        total_tasks: plays_task_count(plays) as usize,
        estimated_duration: if options.strategy == ExecutionStrategy::BinaryOnly {
            None
        } else {
            Some(plays_duration(plays) as u128)
        },
        estimated_compilation_time: if deployments.len() > 0 {
            Some(compilation_time(deployments) as u128)
        } else {
            None
        },
        parallelism_score: parallelism_score(plays),
        network_efficiency_score: network_efficiency_score(plays, deployments),
        hosts: available,
    }
}

/// Whether the tasks of a play are few enough for the graph of their
/// dependencies, whose nodes and edges are numbered in 32 bits, and for the
/// count of their network operations, which is kept in 32 bits.
pub open spec fn play_fits(play: ParsedPlayView, options: PlanningOptionsView) -> bool {
    let inputs = play_inputs(play, options);
    &&& inputs.len() < u32::MAX
    &&& dependency_edges(inputs).len() < u32::MAX
    &&& !options.force_ssh ==> 2 * inputs.len() <= u32::MAX
}

/// Whether the batches of a play can be laid out: a rolling window has at
/// least one host, unless the play has no task or no host.
pub open spec fn play_is_sound(
    play: ParsedPlayView,
    available: Seq<Seq<char>>,
    options: PlanningOptionsView,
) -> bool {
    layout_is_sound(
        options.strategy,
        options.serial,
        play_inputs(play, options).len(),
        resolved_hosts(play.hosts, available).len(),
    )
}

/// Whether a plan for the inputs can be held: every play fits and, where
/// the limit leaves hosts, the batches of every play can be laid out and
/// the number of tasks in all batches can be counted.
pub open spec fn planning_fits(
    settings: PlannerSettings,
    playbook: ParsedPlaybookView,
    inventory: ParsedInventoryView,
    options: PlanningOptionsView,
) -> bool {
    &&& forall|i: int| 0 <= i < playbook.plays.len() ==> play_fits(#[trigger] playbook.plays[i], options)
    &&& limited_hosts(inventory.hosts, options.limit) matches Some(available) ==> {
        &&& forall|i: int|
            0 <= i < playbook.plays.len() ==> play_is_sound(
                #[trigger] playbook.plays[i],
                available,
                options,
            )
        &&& plays_task_count(
            play_plans(settings, playbook.plays, playbook.plays.len() as int, available, options),
        ) <= usize::MAX
    }
}

/// Whether an error tells why a play cannot be planned: an unknown
/// dependency is reported with the first one, a cycle with a task on it.
pub open spec fn play_error_matches(
    error: PlanErrorView,
    failure: PlayFailure,
    inputs: Seq<ParsedTaskView>,
) -> bool {
    match failure {
        PlayFailure::UnknownDependency => error matches PlanErrorView::UnknownTaskDependency {
            task_id,
        } && exists|t: int, d: int|
            is_first_unknown_dependency(inputs, t, d) && task_id == inputs[t].dependencies[d],
        PlayFailure::Cycle => error matches PlanErrorView::CircularDependency { cycle }
            && exists|n: int|
            0 <= n < inputs.len() && on_cycle(dependency_edges(inputs), n) && cycle
                == cycle_message(#[trigger] inputs[n].id),
    }
}

/// Whether an error tells why the plan cannot be made.
pub open spec fn plan_error_matches(
    error: PlanErrorView,
    failure: PlanFailure,
    playbook: ParsedPlaybookView,
    options: PlanningOptionsView,
) -> bool {
    match failure {
        PlanFailure::HostPattern => error == (PlanErrorView::InvalidHostPattern {
            pattern: options.limit->0,
            reason: "No hosts match the pattern"@,
        }),
        PlanFailure::Play(index, failure) => 0 <= index < playbook.plays.len()
            && play_error_matches(error, failure, play_inputs(playbook.plays[index], options)),
    }
}

/// A play that cannot be planned stays the first such play when more plays
/// are looked at.
pub proof fn lemma_failure_persists(
    plays: Seq<ParsedPlayView>,
    n: int,
    m: int,
    options: PlanningOptionsView,
)
    requires
        0 <= n <= m,
        first_play_failure(plays, n, options) is Some,
    ensures
        first_play_failure(plays, m, options) == first_play_failure(plays, n, options),
    decreases m - n,
{
    if n < m {
        lemma_failure_persists(plays, n, m - 1, options);
    }
}

} // verus!

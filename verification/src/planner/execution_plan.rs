//! The planner: from a playbook, an inventory and options to a plan.

use vstd::prelude::*;
use crate::clock::current_timestamp;
use crate::hashing::{calculate_inventory_hash, calculate_playbook_hash};
use crate::numbers::{lemma_total_prefix, lemma_total_step, total};
use crate::planner::assembly::{
    batch_sizes, deployments_of_plays, first_play_failure, lemma_failure_persists,
    network_efficiency_score, parallel_count, parallelism_score, plan_error_matches,
    plan_failure, planned, planned_tasks, planning_fits, play_deployments, play_error_matches,
    play_failure, play_fits, play_inputs, play_is_sound, play_parallel_count, play_plan, play_plans,
    play_task_count, plays_parallel_count, plays_task_count, PlannerSettings,
};
use crate::planner::binary_deployment::{
    compilation_time, deployed_task_count, deployment_sizes, deployments_are,
    planned_deployments, BinaryDeploymentPlanner, BASE_COMPILATION_NANOS,
    PER_TASK_COMPILATION_NANOS,
};
use crate::planner::bounds::{
    lemma_batches_plain, lemma_deployments_of_plays_count, lemma_planned_tasks_bounded,
    lemma_plays_peak_bound, plain_batches, MAX_TASK_NANOS,
};
use crate::planner::dependency::{
    acyclic_tasks, cycle_message, dependencies_known, dependency_edges,
    is_first_unknown_dependency, is_unknown_dependency, task_ids, DependencyAnalyzer,
};
use crate::planner::error::{PlanError, PlanErrorView};
use crate::planner::estimation::{
    play_duration_peaks, plays_duration, task_duration, TaskEstimator, BINARY_OVERHEAD_NANOS,
};
use crate::planner::laws::{is_share, law_scores_are_in_range, lemma_planned_tasks_origin};
use crate::planner::limits::{
    check_task_limits, lemma_limits_suffice, lemma_plays_allowance_grows,
    lemma_tasks_within_limits_fit, plays_allowance, tasks_within_limits, within_planning_limits,
};
use crate::planner::optimization::{optimized_order, ExecutionOptimizer};
use crate::planner::suitability::{suitability_analysis, BinarySuitabilityAnalyzer};
use crate::planner::validation::{validation_report, PlanValidator};
use crate::text::numbered;
use crate::types::analysis::{BinarySuitabilityAnalysis, ValidationReport};
use crate::types::graph::{on_cycle, DependencyGraph};
use crate::types::parsed::{ParsedInventoryView, ParsedPlaybook, ParsedPlaybookView};
use crate::types::plan::{
    BinaryDeployment, BinaryDeploymentView, ExecutionPlan, PlanMetadata, PlayPlan, PlayPlanView,
    Ratio, Timestamp,
};
use crate::planner::strategy::{
    build_free, chain_batches, composite_batch, free_batches, make_composite_batch,
    pinned_batches, push_chain, push_pinned, push_rolling, rolling_batches,
};
use crate::text::{
    clone_strings, contains_string, intersects, lemma_filter_take_step, lists_intersect,
    retain_containing, retain_in, retain_listed, retain_matching, str_eq,
};
use crate::types::parsed::{
    ParsedHandler, ParsedHandlerView, ParsedInventory, ParsedPlay, ParsedTask, ParsedTaskView,
};
use crate::types::plan::{
    clone_entries, clone_tasks, ExecutionBatch, ExecutionBatchView, ExecutionCondition,
    ExecutionConditionView, HandlerPlan, HandlerPlanView, PlanningOptions, PlanningOptionsView,
    RiskLevel, TaskPlan, TaskPlanView,
};
use crate::types::strategy::ExecutionStrategy;

verus! {

/// The hosts that planning is limited to: all of them without a limit and
/// under the limit `all`, else those whose name holds the limit. `None`
/// where a limit that is not empty leaves no host.
pub open spec fn limited_hosts(hosts: Seq<Seq<char>>, limit: Option<Seq<char>>) -> Option<
    Seq<Seq<char>>,
> {
    match limit {
        None => Some(hosts),
        Some(pattern) => if pattern == "all"@ {
            Some(hosts)
        } else {
            let matching = retain_matching(hosts, pattern);
            if matching.len() == 0 && pattern.len() > 0 {
                None
            } else {
                Some(matching)
            }
        },
    }
}

/// The hosts of a play: all that are available where the play names `all`,
/// else those that it names and that are available, in the order in which it
/// names them.
pub open spec fn resolved_hosts(named: Seq<Seq<char>>, available: Seq<Seq<char>>) -> Seq<
    Seq<char>,
> {
    if named.contains("all"@) {
        available
    } else {
        retain_in(named, available)
    }
}

/// Whether the tag filters keep the task: it has none of the tags to skip
/// and, where tags are asked for, one of those.
pub open spec fn keeps_task(task: ParsedTaskView, tags: Seq<Seq<char>>, skip_tags: Seq<Seq<char>>) -> bool {
    !intersects(task.tags, skip_tags) && (tags.len() == 0 || intersects(task.tags, tags))
}

/// The tasks that the tag filters keep, in their order.
pub open spec fn filtered_tasks(
    tasks: Seq<ParsedTaskView>,
    tags: Seq<Seq<char>>,
    skip_tags: Seq<Seq<char>>,
) -> Seq<ParsedTaskView> {
    tasks.filter(|t: ParsedTaskView| keeps_task(t, tags, skip_tags))
}

/// The risk of running a module.
pub open spec fn risk_of(module: Seq<char>) -> RiskLevel {
    if module == "debug"@ || module == "assert"@ || module == "fail"@ || module == "meta"@ {
        RiskLevel::Low
    } else if module == "copy"@ || module == "template"@ || module == "file"@ || module
        == "lineinfile"@ {
        RiskLevel::Medium
    } else if module == "service"@ || module == "systemd"@ || module == "package"@ || module
        == "yum"@ || module == "apt"@ {
        RiskLevel::High
    } else if module == "shell"@ || module == "command"@ || module == "raw"@ {
        RiskLevel::Critical
    } else {
        RiskLevel::Medium
    }
}

/// Whether a task of the module and risk may run beside others.
pub open spec fn parallel_safe(module: Seq<char>, risk: RiskLevel) -> bool {
    match risk {
        RiskLevel::Critical => false,
        RiskLevel::High => module == "debug"@ || module == "assert"@ || module == "meta"@,
        _ => true,
    }
}

/// The list with the condition at its end, if `wanted`.
pub open spec fn condition_if(
    list: Seq<ExecutionConditionView>,
    wanted: bool,
    condition: ExecutionConditionView,
) -> Seq<ExecutionConditionView> {
    if wanted {
        list.push(condition)
    } else {
        list
    }
}

/// The conditions of a task: its `when`, its tags, and the check mode where
/// the planner is in check mode.
pub open spec fn conditions_of(task: ParsedTaskView, check_mode: bool) -> Seq<
    ExecutionConditionView,
> {
    condition_if(
        condition_if(
            condition_if(
                Seq::empty(),
                task.when is Some,
                ExecutionConditionView::When { expression: task.when->0 },
            ),
            task.tags.len() > 0,
            ExecutionConditionView::Tag { tags: task.tags },
        ),
        check_mode,
        ExecutionConditionView::CheckMode { enabled: true },
    )
}

/// The plan of task `index` of a play on the hosts of the play.
pub open spec fn task_plan(
    task: ParsedTaskView,
    hosts: Seq<Seq<char>>,
    index: int,
    check_mode: bool,
) -> TaskPlanView {
    TaskPlanView {
        task_id: task.id,
        name: task.name,
        module: task.module,
        args: task.args,
        hosts,
        dependencies: task.dependencies,
        conditions: conditions_of(task, check_mode),
        tags: task.tags,
        notify: task.notify,
        execution_order: index as u32,
        can_run_parallel: parallel_safe(task.module, risk_of(task.module)),
        estimated_duration: Some(task_duration(task) as u128),
        risk_level: risk_of(task.module),
    }
}

/// The plans of the tasks of a play.
pub open spec fn task_plans(tasks: Seq<ParsedTaskView>, hosts: Seq<Seq<char>>, check_mode: bool) -> Seq<
    TaskPlanView,
> {
    Seq::new(tasks.len(), |i: int| task_plan(tasks[i], hosts, i, check_mode))
}

/// The plan of handler `index` of a play.
pub open spec fn handler_plan(handler: ParsedHandlerView, index: int) -> HandlerPlanView {
    HandlerPlanView {
        handler_id: handler.id,
        name: handler.name,
        module: handler.module,
        args: handler.args,
        conditions: condition_if(
            Seq::empty(),
            handler.when is Some,
            ExecutionConditionView::When { expression: handler.when->0 },
        ),
        execution_order: index as u32,
    }
}

/// The plans of the handlers of a play.
pub open spec fn handler_plans(handlers: Seq<ParsedHandlerView>) -> Seq<HandlerPlanView> {
    Seq::new(handlers.len(), |i: int| handler_plan(handlers[i], i))
}

/// The hosts of the first task, or none where there is no task.
pub open spec fn first_task_hosts(tasks: Seq<TaskPlanView>) -> Seq<Seq<char>> {
    if tasks.len() > 0 {
        tasks[0].hosts
    } else {
        Seq::empty()
    }
}

/// The number of hosts of a rolling window: the serial setting where there
/// is one, else the batch size of the strategy.
pub open spec fn rolling_window(batch_size: u32, serial: Option<u32>) -> nat {
    match serial {
        Some(s) => s as nat,
        None => batch_size as nat,
    }
}

/// The batches of the tasks of a play under a strategy. The hosts of a
/// batch are those of its tasks; the hosts that are rolled over or pinned
/// are those of the first task.
pub open spec fn execution_batches(
    tasks: Seq<TaskPlanView>,
    strategy: ExecutionStrategy,
    serial: Option<u32>,
) -> Seq<ExecutionBatchView> {
    match strategy {
        ExecutionStrategy::Linear => chain_batches("batch-"@, None, None, tasks),
        ExecutionStrategy::Free => free_batches(
            "parallel-batch"@,
            "sequential-batch-"@,
            None,
            tasks,
        ),
        ExecutionStrategy::Rolling { batch_size } => rolling_batches(
            "rolling-batch-"@,
            tasks,
            first_task_hosts(tasks),
            rolling_window(batch_size, serial),
        ),
        ExecutionStrategy::HostPinned => pinned_batches("host-"@, tasks, first_task_hosts(tasks)),
        ExecutionStrategy::BinaryHybrid | ExecutionStrategy::BinaryOnly => seq![
            composite_batch("binary-batch"@, first_task_hosts(tasks), tasks),
        ],
    }
}

/// Whether the layout of that many tasks over that many hosts can be made:
/// a rolling window has at least one host, unless there is no task or no
/// host to roll over.
pub open spec fn layout_is_sound(
    strategy: ExecutionStrategy,
    serial: Option<u32>,
    tasks: nat,
    hosts: nat,
) -> bool {
    strategy matches ExecutionStrategy::Rolling { batch_size } ==> rolling_window(
        batch_size,
        serial,
    ) > 0 || tasks == 0 || hosts == 0
}

pub struct ExecutionPlanner {
    pub strategy: ExecutionStrategy,
    pub forks: u32,
    pub optimize: bool,
    pub check_mode: bool,
    pub task_estimator: TaskEstimator,
    pub binary_planner: BinaryDeploymentPlanner,
    pub binary_threshold: u32,
    /// The version of the tool, which the plan is stamped with.
    pub version: String,
}

impl ExecutionPlanner {
    /// A planner with the linear strategy, 50 forks, a binary threshold of
    /// five tasks, on an x86_64 Linux, without optimization and check mode.
    pub fn new() -> (r: Self)
        ensures
            r.strategy == ExecutionStrategy::Linear,
            r.forks == 50,
            !r.optimize,
            !r.check_mode,
            r.binary_threshold == 5,
            r.binary_planner.host_arch@ == "x86_64"@,
            r.binary_planner.host_os@ == "linux"@,
            r.version@ == "0.1.0"@,
    {
        ExecutionPlanner {
            strategy: ExecutionStrategy::Linear,
            forks: 50,
            optimize: false,
            check_mode: false,
            task_estimator: TaskEstimator::new(),
            binary_planner: BinaryDeploymentPlanner::new(),
            binary_threshold: 5,
            version: String::from_str("0.1.0"),
        }
    }

    pub fn with_strategy(self, strategy: ExecutionStrategy) -> (r: Self)
        ensures
            r == (ExecutionPlanner { strategy, ..self }),
    {
        let mut planner = self;
        planner.strategy = strategy;
        planner
    }

    pub fn with_forks(self, forks: u32) -> (r: Self)
        ensures
            r == (ExecutionPlanner { forks, ..self }),
    {
        let mut planner = self;
        planner.forks = forks;
        planner
    }

    pub fn with_optimization(self, enabled: bool) -> (r: Self)
        ensures
            r == (ExecutionPlanner { optimize: enabled, ..self }),
    {
        let mut planner = self;
        planner.optimize = enabled;
        planner
    }

    pub fn with_check_mode(self, enabled: bool) -> (r: Self)
        ensures
            r == (ExecutionPlanner { check_mode: enabled, ..self }),
    {
        let mut planner = self;
        planner.check_mode = enabled;
        planner
    }

    pub fn with_binary_threshold(self, threshold: u32) -> (r: Self)
        ensures
            r == (ExecutionPlanner { binary_threshold: threshold, ..self }),
    {
        let mut planner = self;
        planner.binary_threshold = threshold;
        planner
    }

    /// The planner on a machine of the given architecture and system.
    pub fn with_host_platform(self, arch: &str, os: &str) -> (r: Self)
        ensures
            r.binary_planner.host_arch@ == arch@,
            r.binary_planner.host_os@ == os@,
            r.binary_planner.compilation_cache == self.binary_planner.compilation_cache,
            r.binary_planner.target_profiles == self.binary_planner.target_profiles,
            r.task_estimator == self.task_estimator,
            r.strategy == self.strategy,
            r.forks == self.forks,
            r.optimize == self.optimize,
            r.check_mode == self.check_mode,
            r.binary_threshold == self.binary_threshold,
            r.version == self.version,
    {
        ExecutionPlanner {
            strategy: self.strategy,
            forks: self.forks,
            optimize: self.optimize,
            check_mode: self.check_mode,
            task_estimator: self.task_estimator,
            binary_planner: self.binary_planner.with_host_platform(arch, os),
            binary_threshold: self.binary_threshold,
            version: self.version,
        }
    }

    /// The planner of the given version of the tool.
    pub fn with_version(self, version: &str) -> (r: Self)
        ensures
            r.version@ == version@,
            r.strategy == self.strategy,
            r.forks == self.forks,
            r.optimize == self.optimize,
            r.check_mode == self.check_mode,
            r.binary_threshold == self.binary_threshold,
            r.binary_planner == self.binary_planner,
            r.task_estimator == self.task_estimator,
    {
        let mut planner = self;
        planner.version = String::from_str(version);
        planner
    }

    /// The hosts that planning is limited to: see `limited_hosts`.
    pub fn filter_hosts(&self, hosts: &Vec<String>, limit: &Option<String>) -> (r: Result<
        Vec<String>,
        PlanError,
    >)
        ensures
            match r {
                Ok(kept) => limited_hosts(hosts.deep_view(), limit.deep_view()) == Some(
                    kept.deep_view(),
                ),
                Err(e) => limited_hosts(hosts.deep_view(), limit.deep_view()) is None
                    && e.deep_view() == (PlanErrorView::InvalidHostPattern {
                    pattern: limit.deep_view()->0,
                    reason: "No hosts match the pattern"@,
                }),
            },
    {
        match limit {
            Some(pattern) => {
                if str_eq(pattern.as_str(), "all") {
                    Ok(clone_strings(hosts))
                } else {
                    let matching = retain_containing(hosts, pattern.as_str());
                    if matching.len() == 0 && !pattern.as_str().is_empty() {
                        return Err(
                            PlanError::InvalidHostPattern {
                                pattern: pattern.clone(),
                                reason: String::from_str("No hosts match the pattern"),
                            },
                        );
                    }
                    Ok(matching)
                }
            },
            None => Ok(clone_strings(hosts)),
        }
    }

    /// The hosts of a play among those that are available.
    pub fn resolve_play_hosts(
        &self,
        play: &ParsedPlay,
        available_hosts: &Vec<String>,
        _inventory: &ParsedInventory,
    ) -> (r: Result<Vec<String>, PlanError>)
        ensures
            r matches Ok(hosts) && hosts.deep_view() == resolved_hosts(
                play.deep_view().hosts,
                available_hosts.deep_view(),
            ),
    {
        if contains_string(&play.hosts, "all") {
            Ok(clone_strings(available_hosts))
        } else {
            Ok(retain_listed(&play.hosts, available_hosts))
        }
    }

    /// The tasks that the tag filters of the options keep.
    pub fn filter_tasks_by_tags(&self, tasks: &Vec<ParsedTask>, options: &PlanningOptions) -> (r:
        Result<Vec<ParsedTask>, PlanError>)
        ensures
            r matches Ok(kept) && kept.deep_view() == filtered_tasks(
                tasks.deep_view(),
                options.deep_view().tags,
                options.deep_view().skip_tags,
            ),
    {
        let ghost all = tasks.deep_view();
        let ghost tags = options.deep_view().tags;
        let ghost skip = options.deep_view().skip_tags;
        let ghost pred = |t: ParsedTaskView| keeps_task(t, tags, skip);
        let mut kept: Vec<ParsedTask> = Vec::new();
        let mut i: usize = 0;
        proof {
            reveal(Seq::filter);
            assert(all.take(0) =~= Seq::<ParsedTaskView>::empty());
            assert(kept.deep_view() =~= Seq::<ParsedTaskView>::empty());
        }
        while i < tasks.len()
            invariant
                i <= tasks.len(),
                all == tasks.deep_view(),
                tags == options.deep_view().tags,
                skip == options.deep_view().skip_tags,
                pred == (|t: ParsedTaskView| keeps_task(t, tags, skip)),
                kept.deep_view() == all.take(i as int).filter(pred),
            decreases tasks.len() - i,
        {
            let task = &tasks[i];
            proof {
                lemma_filter_take_step(all, pred, i as int);
            }
            let skipped = lists_intersect(&task.tags, &options.skip_tags);
            let wanted = options.tags.len() == 0 || lists_intersect(&task.tags, &options.tags);
            if !skipped && wanted {
                let ghost before = kept.deep_view();
                kept.push(task.clone());
                assert(kept.deep_view() =~= before.push(all[i as int]));
            }
            i += 1;
        }
        assert(all.take(tasks.len() as int) =~= all);
        Ok(kept)
    }

    /// The risk of running a module.
    pub fn assess_task_risk(&self, module: &str) -> (r: RiskLevel)
        ensures
            r == risk_of(module@),
    {
        if str_eq(module, "debug") || str_eq(module, "assert") || str_eq(module, "fail") || str_eq(
            module,
            "meta",
        ) {
            RiskLevel::Low
        } else if str_eq(module, "copy") || str_eq(module, "template") || str_eq(module, "file")
            || str_eq(module, "lineinfile") {
            RiskLevel::Medium
        } else if str_eq(module, "service") || str_eq(module, "systemd") || str_eq(
            module,
            "package",
        ) || str_eq(module, "yum") || str_eq(module, "apt") {
            RiskLevel::High
        } else if str_eq(module, "shell") || str_eq(module, "command") || str_eq(module, "raw") {
            RiskLevel::Critical
        } else {
            RiskLevel::Medium
        }
    }

    /// Whether the task may run beside others, given its risk.
    pub fn can_task_run_parallel(&self, task: &ParsedTask, risk_level: &RiskLevel) -> (r: bool)
        ensures
            r == parallel_safe(task.deep_view().module, *risk_level),
    {
        match risk_level {
            RiskLevel::Critical => false,
            RiskLevel::High => {
                let module = task.module.as_str();
                str_eq(module, "debug") || str_eq(module, "assert") || str_eq(module, "meta")
            },
            _ => true,
        }
    }

    /// The conditions of a task.
    pub fn create_execution_conditions(&self, task: &ParsedTask) -> (r: Result<
        Vec<ExecutionCondition>,
        PlanError,
    >)
        ensures
            r matches Ok(conditions) && conditions.deep_view() == conditions_of(
                task.deep_view(),
                self.check_mode,
            ),
    {
        let mut conditions: Vec<ExecutionCondition> = Vec::new();
        assert(conditions.deep_view() =~= Seq::<ExecutionConditionView>::empty());
        match &task.when {
            Some(expression) => {
                let ghost before = conditions.deep_view();
                let condition = ExecutionCondition::When { expression: expression.clone() };
                let ghost added = condition.deep_view();
                conditions.push(condition);
                assert(conditions.deep_view() =~= before.push(added));
            },
            None => {},
        }
        if task.tags.len() > 0 {
            let ghost before = conditions.deep_view();
            let condition = ExecutionCondition::Tag { tags: clone_strings(&task.tags) };
            let ghost added = condition.deep_view();
            conditions.push(condition);
            assert(conditions.deep_view() =~= before.push(added));
        }
        if self.check_mode {
            let ghost before = conditions.deep_view();
            let condition = ExecutionCondition::CheckMode { enabled: true };
            let ghost added = condition.deep_view();
            conditions.push(condition);
            assert(conditions.deep_view() =~= before.push(added));
        }
        Ok(conditions)
    }

    /// The plans of the tasks of a play on its hosts.
    pub fn create_task_plans(&self, tasks: &Vec<ParsedTask>, hosts: &Vec<String>) -> (r: Result<
        Vec<TaskPlan>,
        PlanError,
    >)
        ensures
            r matches Ok(plans) && plans.deep_view() == task_plans(
                tasks.deep_view(),
                hosts.deep_view(),
                self.check_mode,
            ),
    {
        let ghost expected = task_plans(tasks.deep_view(), hosts.deep_view(), self.check_mode);
        let mut plans: Vec<TaskPlan> = Vec::new();
        let mut i: usize = 0;
        assert(plans.deep_view() =~= expected.take(0));
        while i < tasks.len()
            invariant
                i <= tasks.len(),
                expected == task_plans(tasks.deep_view(), hosts.deep_view(), self.check_mode),
                plans.deep_view() == expected.take(i as int),
            decreases tasks.len() - i,
        {
            let task = &tasks[i];
            let risk_level = self.assess_task_risk(task.module.as_str());
            let can_run_parallel = self.can_task_run_parallel(task, &risk_level);
            let conditions = match self.create_execution_conditions(task) {
                Ok(c) => c,
                Err(e) => {
                    return Err(e);
                },
            };
            let plan = TaskPlan {
                task_id: task.id.clone(),
                name: task.name.clone(),
                module: task.module.clone(),
                args: clone_entries(&task.args),
                hosts: clone_strings(hosts),
                dependencies: clone_strings(&task.dependencies),
                conditions,
                tags: clone_strings(&task.tags),
                notify: clone_strings(&task.notify),
                execution_order: #[verifier::truncate] (i as u32),
                can_run_parallel,
                estimated_duration: self.task_estimator.estimate_task_duration(task),
                risk_level,
            };
            let ghost before = plans.deep_view();
            assert(plan.deep_view() == expected[i as int]);
            plans.push(plan);
            assert(plans.deep_view() =~= before.push(expected[i as int]));
            assert(expected.take(i + 1) =~= before.push(expected[i as int]));
            i += 1;
        }
        assert(expected.take(tasks.len() as int) =~= expected);
        Ok(plans)
    }

    /// The batches of the tasks of a play under a strategy: see
    /// `execution_batches`.
    pub fn create_execution_batches(
        &self,
        tasks: &Vec<TaskPlan>,
        strategy: &ExecutionStrategy,
        serial: Option<u32>,
    ) -> (r: Result<Vec<ExecutionBatch>, PlanError>)
        requires
            layout_is_sound(
                *strategy,
                serial,
                tasks.len() as nat,
                first_task_hosts(tasks.deep_view()).len(),
            ),
        ensures
            r matches Ok(batches) && batches.deep_view() == execution_batches(
                tasks.deep_view(),
                *strategy,
                serial,
            ),
    {
        let mut batches: Vec<ExecutionBatch> = Vec::new();
        assert(batches.deep_view() =~= Seq::<ExecutionBatchView>::empty());
        let first_hosts: Vec<String> = if tasks.len() > 0 {
            clone_strings(&tasks[0].hosts)
        } else {
            Vec::new()
        };
        assert(first_hosts.deep_view() =~= first_task_hosts(tasks.deep_view()));
        match strategy {
            ExecutionStrategy::Linear => {
                push_chain(&mut batches, "batch-", None, None, tasks);
                assert(batches.deep_view() =~= chain_batches(
                    "batch-"@,
                    None,
                    None,
                    tasks.deep_view(),
                ));
            },
            ExecutionStrategy::Free => {
                batches = build_free("parallel-batch", "sequential-batch-", None, tasks);
            },
            ExecutionStrategy::Rolling { batch_size } => {
                let window = match serial {
                    Some(s) => s,
                    None => *batch_size,
                };
                push_rolling(&mut batches, "rolling-batch-", tasks, &first_hosts, window as usize);
                assert(batches.deep_view() =~= rolling_batches(
                    "rolling-batch-"@,
                    tasks.deep_view(),
                    first_hosts.deep_view(),
                    window as nat,
                ));
            },
            ExecutionStrategy::HostPinned => {
                push_pinned(&mut batches, "host-", tasks, &first_hosts);
                assert(batches.deep_view() =~= pinned_batches(
                    "host-"@,
                    tasks.deep_view(),
                    first_hosts.deep_view(),
                ));
            },
            _ => {
                let batch = make_composite_batch(
                    String::from_str("binary-batch"),
                    first_hosts,
                    clone_tasks(tasks),
                );
                let ghost head = batch.deep_view();
                batches.push(batch);
                assert(batches.deep_view() =~= seq![head]);
            },
        }
        Ok(batches)
    }

    /// The plans of the handlers of a play.
    pub fn create_handler_plans(&self, handlers: &Vec<ParsedHandler>) -> (r: Result<
        Vec<HandlerPlan>,
        PlanError,
    >)
        ensures
            r matches Ok(plans) && plans.deep_view() == handler_plans(handlers.deep_view()),
    {
        let ghost expected = handler_plans(handlers.deep_view());
        let mut plans: Vec<HandlerPlan> = Vec::new();
        let mut i: usize = 0;
        assert(plans.deep_view() =~= expected.take(0));
        while i < handlers.len()
            invariant
                i <= handlers.len(),
                expected == handler_plans(handlers.deep_view()),
                plans.deep_view() == expected.take(i as int),
            decreases handlers.len() - i,
        {
            let handler = &handlers[i];
            let mut conditions: Vec<ExecutionCondition> = Vec::new();
            assert(conditions.deep_view() =~= Seq::<ExecutionConditionView>::empty());
            match &handler.when {
                Some(expression) => {
                    let condition = ExecutionCondition::When { expression: expression.clone() };
                    let ghost added = condition.deep_view();
                    conditions.push(condition);
                    assert(conditions.deep_view() =~= Seq::<ExecutionConditionView>::empty().push(
                        added,
                    ));
                },
                None => {},
            }
            let plan = HandlerPlan {
                handler_id: handler.id.clone(),
                name: handler.name.clone(),
                module: handler.module.clone(),
                args: clone_entries(&handler.args),
                conditions,
                execution_order: #[verifier::truncate] (i as u32),
            };
            let ghost before = plans.deep_view();
            assert(plan.deep_view() == expected[i as int]);
            plans.push(plan);
            assert(plans.deep_view() =~= before.push(expected[i as int]));
            assert(expected.take(i + 1) =~= before.push(expected[i as int]));
            i += 1;
        }
        assert(expected.take(handlers.len() as int) =~= expected);
        Ok(plans)
    }

    /// What the planner brings to a plan besides its inputs.
    pub open spec fn settings(&self) -> PlannerSettings {
        PlannerSettings {
            optimize: self.optimize,
            check_mode: self.check_mode,
            binary_threshold: self.binary_threshold,
            host_arch: self.binary_planner.host_arch@,
            host_os: self.binary_planner.host_os@,
            version: self.version@,
        }
    }

    /// The binaries for the tasks of a play on `hosts`, without facts.
    pub fn plan_binary_deployments(&self, tasks: &Vec<TaskPlan>, hosts: &Vec<String>) -> (r: Result<
        Vec<BinaryDeployment>,
        PlanError,
    >)
        requires
            2 * tasks.len() <= u32::MAX,
        ensures
            deployments_are(
                r,
                planned_deployments(
                    tasks.deep_view(),
                    hosts.deep_view(),
                    self.binary_threshold,
                    None,
                    self.binary_planner.host_arch@,
                    self.binary_planner.host_os@,
                ),
            ),
    {
        self.binary_planner.plan_deployments(tasks, hosts, self.binary_threshold)
    }

    /// The dependency graph of the tasks of a play.
    pub fn analyze_dependencies(&self, tasks: &Vec<ParsedTask>) -> (r: Result<
        DependencyGraph,
        PlanError,
    >)
        requires
            tasks.len() < u32::MAX,
            dependency_edges(tasks.deep_view()).len() < u32::MAX,
        ensures
            r is Ok <==> dependencies_known(tasks.deep_view()) && acyclic_tasks(tasks.deep_view()),
            match r {
                Ok(graph) => {
                    &&& graph.wf()
                    &&& graph.nodes() == task_ids(tasks.deep_view())
                    &&& graph.edges() == dependency_edges(tasks.deep_view())
                },
                Err(e) => match e.deep_view() {
                    PlanErrorView::UnknownTaskDependency { task_id } => exists|t: int, d: int|
                        is_first_unknown_dependency(tasks.deep_view(), t, d) && task_id
                            == tasks.deep_view()[t].dependencies[d],
                    PlanErrorView::CircularDependency { cycle } => {
                        &&& dependencies_known(tasks.deep_view())
                        &&& exists|n: int|
                            0 <= n < tasks.len() && on_cycle(
                                dependency_edges(tasks.deep_view()),
                                n,
                            ) && cycle == cycle_message(#[trigger] tasks.deep_view()[n].id)
                    },
                    _ => false,
                },
            },
    {
        DependencyAnalyzer::new().analyze(tasks)
    }

    /// The tasks in the order in which they are tried.
    pub fn optimize_execution_order(&self, tasks: &Vec<TaskPlan>) -> (r: Result<
        Vec<TaskPlan>,
        PlanError,
    >)
        ensures
            r matches Ok(ordered) && ordered.deep_view() == optimized_order(tasks.deep_view())
                && ordered.len() == tasks.len(),
    {
        ExecutionOptimizer::new().optimize_order(tasks)
    }

    /// The expected duration of a plan, in nanoseconds.
    pub fn estimate_duration(&self, plan: &ExecutionPlan) -> (r: Result<u128, PlanError>)
        requires
            total(play_duration_peaks(plan.deep_view().plays)) <= u128::MAX,
        ensures
            r matches Ok(d) && d == plays_duration(plan.deep_view().plays),
    {
        self.task_estimator.estimate_plan_duration(plan)
    }

    /// The expected duration of the plays, one after another, in
    /// nanoseconds.
    pub fn estimate_duration_for_plays(&self, plays: &Vec<PlayPlan>) -> (r: Result<u128, PlanError>)
        requires
            total(play_duration_peaks(plays.deep_view())) <= u128::MAX,
        ensures
            r matches Ok(d) && d == plays_duration(plays.deep_view()),
    {
        self.task_estimator.estimate_plays_duration(plays)
    }

    /// The expected time to build the binaries, in nanoseconds.
    pub fn estimate_compilation_time(&self, deployments: &Vec<BinaryDeployment>) -> (r: Result<
        u128,
        PlanError,
    >)
        requires
            compilation_time(deployments.deep_view()) <= u128::MAX,
        ensures
            r matches Ok(t) && t == compilation_time(deployments.deep_view()),
    {
        self.binary_planner.estimate_compilation_time(deployments)
    }

    /// What is missing in a plan.
    pub fn validate_plan(&self, plan: &ExecutionPlan) -> (r: Result<ValidationReport, PlanError>)
        ensures
            r matches Ok(report) && report.deep_view() == validation_report(plan.deep_view()),
    {
        PlanValidator::new().validate(plan)
    }

    /// Which tasks binaries could run.
    pub fn analyze_binary_suitability(&self, tasks: &Vec<TaskPlan>) -> (r: Result<
        BinarySuitabilityAnalysis,
        PlanError,
    >)
        requires
            2 * tasks.len() <= u32::MAX,
        ensures
            r matches Ok(analysis) && analysis.deep_view() == suitability_analysis(
                tasks.deep_view(),
            ),
    {
        BinarySuitabilityAnalyzer::new().analyze(tasks)
    }

    /// The number of the tasks that may run in parallel.
    fn count_parallel(&self, tasks: &Vec<TaskPlan>) -> (r: usize)
        ensures
            r == parallel_count(tasks.deep_view()),
            r <= tasks.len(),
    {
        let ghost all = tasks.deep_view();
        let ghost pred = |t: TaskPlanView| t.can_run_parallel;
        let mut count: usize = 0;
        let mut i: usize = 0;
        proof {
            reveal(Seq::filter);
            assert(all.take(0) =~= Seq::<TaskPlanView>::empty());
        }
        while i < tasks.len()
            invariant
                i <= tasks.len(),
                all == tasks.deep_view(),
                pred == (|t: TaskPlanView| t.can_run_parallel),
                count == all.take(i as int).filter(pred).len(),
                count <= i,
            decreases tasks.len() - i,
        {
            proof {
                lemma_filter_take_step(all, pred, i as int);
            }
            if tasks[i].can_run_parallel {
                count += 1;
            }
            i += 1;
        }
        assert(all.take(tasks.len() as int) =~= all);
        count
    }

    /// The number of tasks in the batches of a play, and how many of them
    /// may run in parallel.
    fn count_play_tasks(&self, play: &PlayPlan) -> (r: (u128, u128))
        requires
            play_task_count(play.deep_view()) <= u128::MAX,
        ensures
            r.0 == play_task_count(play.deep_view()),
            r.1 == play_parallel_count(play.deep_view()),
            r.1 <= r.0,
    {
        let ghost view = play.deep_view();
        let ghost sizes = batch_sizes(view.batches);
        let ghost parallels = view.batches.map_values(
            |b: ExecutionBatchView| parallel_count(b.tasks),
        );
        let mut tasks: u128 = 0;
        let mut parallel: u128 = 0;
        let mut i: usize = 0;
        proof {
            assert(sizes.take(0) =~= Seq::<nat>::empty());
            assert(parallels.take(0) =~= Seq::<nat>::empty());
        }
        while i < play.batches.len()
            invariant
                i <= play.batches.len(),
                view == play.deep_view(),
                sizes == batch_sizes(view.batches),
                parallels == view.batches.map_values(
                    |b: ExecutionBatchView| parallel_count(b.tasks),
                ),
                total(sizes) <= u128::MAX,
                tasks == total(sizes.take(i as int)),
                parallel == total(parallels.take(i as int)),
                parallel <= tasks,
            decreases play.batches.len() - i,
        {
            proof {
                lemma_total_step(sizes, i as int);
                lemma_total_step(parallels, i as int);
                lemma_total_prefix(sizes, i + 1);
            }
            let batch = &play.batches[i];
            let p = self.count_parallel(&batch.tasks);
            tasks = tasks + batch.tasks.len() as u128;
            parallel = parallel + p as u128;
            i += 1;
        }
        proof {
            assert(sizes.take(play.batches.len() as int) =~= sizes);
            assert(parallels.take(play.batches.len() as int) =~= parallels);
        }
        (tasks, parallel)
    }

    /// The number of tasks in the batches of the plays, and how many of
    /// them may run in parallel.
    fn count_tasks(&self, plays: &Vec<PlayPlan>) -> (r: (u128, u128))
        requires
            plays_task_count(plays.deep_view()) <= u128::MAX,
        ensures
            r.0 == plays_task_count(plays.deep_view()),
            r.1 == plays_parallel_count(plays.deep_view()),
            r.1 <= r.0,
    {
        let ghost view = plays.deep_view();
        let ghost sizes = view.map_values(|p: PlayPlanView| play_task_count(p));
        let ghost parallels = view.map_values(|p: PlayPlanView| play_parallel_count(p));
        let mut tasks: u128 = 0;
        let mut parallel: u128 = 0;
        let mut i: usize = 0;
        proof {
            assert(sizes.take(0) =~= Seq::<nat>::empty());
            assert(parallels.take(0) =~= Seq::<nat>::empty());
        }
        while i < plays.len()
            invariant
                i <= plays.len(),
                view == plays.deep_view(),
                sizes == view.map_values(|p: PlayPlanView| play_task_count(p)),
                parallels == view.map_values(|p: PlayPlanView| play_parallel_count(p)),
                total(sizes) <= u128::MAX,
                tasks == total(sizes.take(i as int)),
                parallel == total(parallels.take(i as int)),
                parallel <= tasks,
            decreases plays.len() - i,
        {
            proof {
                lemma_total_step(sizes, i as int);
                lemma_total_step(parallels, i as int);
                lemma_total_prefix(sizes, i + 1);
                crate::numbers::lemma_greatest_bounds(sizes);
                assert(sizes[i as int] <= total(sizes)) by {
                    lemma_total_prefix(sizes, i + 1);
                }
            }
            let (t, p) = self.count_play_tasks(&plays[i]);
            tasks = tasks + t;
            parallel = parallel + p;
            i += 1;
        }
        proof {
            assert(sizes.take(plays.len() as int) =~= sizes);
            assert(parallels.take(plays.len() as int) =~= parallels);
        }
        (tasks, parallel)
    }

    /// The share of the tasks that may run in parallel.
    pub fn calculate_parallelism_score(&self, plays: &Vec<PlayPlan>) -> (r: Ratio)
        requires
            plays_task_count(plays.deep_view()) <= u128::MAX,
        ensures
            r == parallelism_score(plays.deep_view()),
            r.denominator > 0,
            r.numerator <= r.denominator,
    {
        let (tasks, parallel) = self.count_tasks(plays);
        if tasks == 0 {
            Ratio { numerator: 0, denominator: 1 }
        } else {
            Ratio { numerator: parallel, denominator: tasks }
        }
    }

    /// How much of the network traffic the binaries save.
    pub fn calculate_network_efficiency_score(
        &self,
        plays: &Vec<PlayPlan>,
        binary_deployments: &Vec<BinaryDeployment>,
    ) -> (r: Ratio)
        requires
            10 * plays_task_count(plays.deep_view()) <= u128::MAX,
            8 * deployed_task_count(binary_deployments.deep_view()) + 2 * plays_task_count(
                plays.deep_view(),
            ) <= u128::MAX,
        ensures
            r == network_efficiency_score(plays.deep_view(), binary_deployments.deep_view()),
            r.denominator > 0,
            5 * r.numerator >= r.denominator,
    {
        let (tasks, _) = self.count_tasks(plays);
        if tasks == 0 {
            return Ratio { numerator: 1, denominator: 1 };
        }
        let ghost sizes = deployment_sizes(binary_deployments.deep_view());
        let mut binary: u128 = 0;
        let mut i: usize = 0;
        assert(sizes.take(0) =~= Seq::<nat>::empty());
        while i < binary_deployments.len()
            invariant
                i <= binary_deployments.len(),
                sizes == deployment_sizes(binary_deployments.deep_view()),
                8 * total(sizes) <= u128::MAX,
                binary == total(sizes.take(i as int)),
            decreases binary_deployments.len() - i,
        {
            proof {
                lemma_total_step(sizes, i as int);
                lemma_total_prefix(sizes, i + 1);
            }
            binary = binary + binary_deployments[i].tasks.len() as u128;
            i += 1;
        }
        assert(sizes.take(binary_deployments.len() as int) =~= sizes);
        Ratio { numerator: 8 * binary + 2 * tasks, denominator: 10 * tasks }
    }

    /// The plan of play `index` and its binaries. It fails where a task of
    /// the play names an unknown dependency and where the dependencies hold
    /// a cycle.
    pub fn plan_play(
        &self,
        play: &ParsedPlay,
        index: usize,
        available: &Vec<String>,
        inventory: &ParsedInventory,
        options: &PlanningOptions,
    ) -> (r: Result<(PlayPlan, Vec<BinaryDeployment>), PlanError>)
        requires
            play_is_sound(play.deep_view(), available.deep_view(), options.deep_view()),
            play_fits(play.deep_view(), options.deep_view()),
        ensures
            match r {
                Ok((plan, deployments)) => {
                    &&& play_failure(play.deep_view(), options.deep_view()) is None
                    &&& plan.deep_view() == play_plan(
                        self.settings(),
                        play.deep_view(),
                        index as int,
                        available.deep_view(),
                        options.deep_view(),
                    )
                    &&& deployments.deep_view() == play_deployments(
                        self.settings(),
                        play.deep_view(),
                        available.deep_view(),
                        inventory.deep_view(),
                        options.deep_view(),
                    )
                },
                Err(e) => play_failure(play.deep_view(), options.deep_view()) matches Some(
                    failure,
                ) && play_error_matches(
                    e.deep_view(),
                    failure,
                    play_inputs(play.deep_view(), options.deep_view()),
                ),
            },
    {
        let ghost inputs = play_inputs(play.deep_view(), options.deep_view());
        let hosts = match self.resolve_play_hosts(play, available, inventory) {
            Ok(hosts) => hosts,
            Err(e) => {
                return Err(e);
            },
        };
        let filtered = match self.filter_tasks_by_tags(&play.tasks, options) {
            Ok(tasks) => tasks,
            Err(e) => {
                return Err(e);
            },
        };
        match self.analyze_dependencies(&filtered) {
            Ok(_) => {},
            Err(e) => {
                proof {
                    match e.deep_view() {
                        PlanErrorView::UnknownTaskDependency { task_id } => {
                            let (t, d) = choose|t: int, d: int|
                                is_first_unknown_dependency(inputs, t, d) && task_id
                                    == inputs[t].dependencies[d];
                            assert(is_unknown_dependency(inputs, t, d));
                        },
                        _ => {},
                    }
                }
                return Err(e);
            },
        }
        let mut task_plans = match self.create_task_plans(&filtered, &hosts) {
            Ok(plans) => plans,
            Err(e) => {
                return Err(e);
            },
        };
        if self.optimize {
            task_plans = match self.optimize_execution_order(&task_plans) {
                Ok(ordered) => ordered,
                Err(e) => {
                    return Err(e);
                },
            };
        }
        proof {
            lemma_planned_tasks_origin(
                self.settings(),
                play.deep_view(),
                available.deep_view(),
                options.deep_view(),
            );
        }
        let batches = match self.create_execution_batches(
            &task_plans,
            &options.strategy,
            options.serial,
        ) {
            Ok(batches) => batches,
            Err(e) => {
                return Err(e);
            },
        };
        let deployments = if !options.force_ssh {
            self.binary_planner.plan_deployments_with_inventory(
                &task_plans,
                &hosts,
                self.binary_threshold,
                Some(inventory),
            )?
        } else {
            let none: Vec<BinaryDeployment> = Vec::new();
            assert(none.deep_view() =~= Seq::<BinaryDeploymentView>::empty());
            none
        };
        let handlers = match self.create_handler_plans(&play.handlers) {
            Ok(handlers) => handlers,
            Err(e) => {
                return Err(e);
            },
        };
        let plan = PlayPlan {
            play_id: numbered("play-", index),
            name: play.name.clone(),
            strategy: options.strategy,
            serial: options.serial,
            hosts,
            batches,
            handlers,
            estimated_duration: None,
        };
        Ok((plan, deployments))
    }

    /// Moves the binaries of `added` to the end of `deployments`.
    fn append_deployments(&self, deployments: &mut Vec<BinaryDeployment>, added: Vec<
        BinaryDeployment,
    >)
        ensures
            final(deployments).deep_view() == old(deployments).deep_view() + added.deep_view(),
    {
        let ghost before = deployments.deep_view();
        let ghost more = added.deep_view();
        let mut k: usize = 0;
        assert(deployments.deep_view() =~= before + more.take(0));
        while k < added.len()
            invariant
                k <= added.len(),
                more == added.deep_view(),
                deployments.deep_view() == before + more.take(k as int),
            decreases added.len() - k,
        {
            let ghost sofar = deployments.deep_view();
            deployments.push(added[k].clone());
            assert(deployments.deep_view() =~= sofar.push(more[k as int]));
            assert(before + more.take(k + 1) =~= sofar.push(more[k as int]));
            k += 1;
        }
        assert(more.take(added.len() as int) =~= more);
    }

    /// The plans of the plays of a playbook and their binaries. It fails
    /// with the error of the first play that cannot be planned.
    pub fn plan_plays(
        &self,
        playbook: &ParsedPlaybook,
        available: &Vec<String>,
        inventory: &ParsedInventory,
        options: &PlanningOptions,
    ) -> (r: Result<(Vec<PlayPlan>, Vec<BinaryDeployment>), PlanError>)
        requires
            forall|i: int|
                0 <= i < playbook.plays.len() ==> play_fits(
                    #[trigger] playbook.deep_view().plays[i],
                    options.deep_view(),
                ) && play_is_sound(
                    playbook.deep_view().plays[i],
                    available.deep_view(),
                    options.deep_view(),
                ),
        ensures
            match r {
                Ok((plays, deployments)) => {
                    &&& first_play_failure(
                        playbook.deep_view().plays,
                        playbook.plays.len() as int,
                        options.deep_view(),
                    ) is None
                    &&& plays.deep_view() == play_plans(
                        self.settings(),
                        playbook.deep_view().plays,
                        playbook.plays.len() as int,
                        available.deep_view(),
                        options.deep_view(),
                    )
                    &&& deployments.deep_view() == deployments_of_plays(
                        self.settings(),
                        playbook.deep_view().plays,
                        playbook.plays.len() as int,
                        available.deep_view(),
                        inventory.deep_view(),
                        options.deep_view(),
                    )
                },
                Err(e) => first_play_failure(
                    playbook.deep_view().plays,
                    playbook.plays.len() as int,
                    options.deep_view(),
                ) matches Some((index, failure)) && 0 <= index < playbook.plays.len()
                    && play_error_matches(
                    e.deep_view(),
                    failure,
                    play_inputs(playbook.deep_view().plays[index], options.deep_view()),
                ),
            },
    {
        let ghost settings = self.settings();
        let ghost parsed = playbook.deep_view().plays;
        let ghost inv = inventory.deep_view();
        let ghost opts = options.deep_view();
        let ghost hosts = available.deep_view();
        let mut plays: Vec<PlayPlan> = Vec::new();
        let mut deployments: Vec<BinaryDeployment> = Vec::new();
        let mut i: usize = 0;
        proof {
            assert(plays.deep_view() =~= play_plans(settings, parsed, 0, hosts, opts));
            assert(deployments.deep_view() =~= Seq::<BinaryDeploymentView>::empty());
        }
        while i < playbook.plays.len()
            invariant
                i <= playbook.plays.len(),
                settings == self.settings(),
                parsed == playbook.deep_view().plays,
                inv == inventory.deep_view(),
                opts == options.deep_view(),
                hosts == available.deep_view(),
                forall|k: int|
                    0 <= k < parsed.len() ==> play_fits(#[trigger] parsed[k], opts)
                        && play_is_sound(parsed[k], hosts, opts),
                first_play_failure(parsed, i as int, opts) is None,
                plays.deep_view() == play_plans(settings, parsed, i as int, hosts, opts),
                deployments.deep_view() == deployments_of_plays(
                    settings,
                    parsed,
                    i as int,
                    hosts,
                    inv,
                    opts,
                ),
            decreases playbook.plays.len() - i,
        {
            assert(play_fits(parsed[i as int], opts));
            match self.plan_play(&playbook.plays[i], i, available, inventory, options) {
                Ok((plan, added)) => {
                    let ghost plays_before = plays.deep_view();
                    let ghost planned_play = plan.deep_view();
                    plays.push(plan);
                    self.append_deployments(&mut deployments, added);
                    proof {
                        assert(plays.deep_view() =~= plays_before.push(planned_play));
                        assert(plays.deep_view() =~= play_plans(
                            settings,
                            parsed,
                            i + 1,
                            hosts,
                            opts,
                        ));
                    }
                },
                Err(e) => {
                    proof {
                        assert(first_play_failure(parsed, i + 1, opts)
                            is Some);
                        lemma_failure_persists(parsed, i + 1, parsed.len() as int, opts);
                    }
                    return Err(e);
                },
            }
            i += 1;
        }
        Ok((plays, deployments))
    }

    /// The plan for the playbook on the inventory under the options,
    /// stamped with the given time. It fails where the limit leaves no host
    /// and where a play cannot be planned.
    pub fn plan_execution_at(
        &self,
        playbook: &ParsedPlaybook,
        inventory: &ParsedInventory,
        options: &PlanningOptions,
        created_at: Timestamp,
    ) -> (r: Result<ExecutionPlan, PlanError>)
        requires
            planning_fits(
                self.settings(),
                playbook.deep_view(),
                inventory.deep_view(),
                options.deep_view(),
            ),
        ensures
            is_plan_result(
                r,
                self.settings(),
                playbook.deep_view(),
                inventory.deep_view(),
                options.deep_view(),
                created_at,
            ),
            r matches Ok(plan) ==> {
                &&& plan.total_tasks == plays_task_count(plan.deep_view().plays)
                &&& is_share(plan.parallelism_score)
                &&& is_share(plan.network_efficiency_score)
                &&& 5 * plan.network_efficiency_score.numerator
                    >= plan.network_efficiency_score.denominator
            },
    {
        let ghost settings = self.settings();
        let ghost book = playbook.deep_view();
        let ghost inv = inventory.deep_view();
        let ghost opts = options.deep_view();
        let available = self.filter_hosts(&inventory.hosts, &options.limit)?;
        let ghost hosts = available.deep_view();
        let (plays, deployments) = self.plan_plays(playbook, &available, inventory, options)?;
        proof {
            let n = book.plays.len() as int;
            let all = play_plans(settings, book.plays, n, hosts, opts);
            assert forall|p: int| 0 <= p < all.len() implies plain_batches(
                (#[trigger] all[p]).batches,
            ) by {
                lemma_planned_tasks_bounded(settings, book.plays[p], hosts, opts);
                lemma_batches_plain(
                    planned_tasks(settings, book.plays[p], hosts, opts),
                    opts.strategy,
                    opts.serial,
                );
            }
            lemma_plays_peak_bound(all);
            assert forall|p: int| 0 <= p < book.plays.len() implies play_inputs(
                #[trigger] book.plays[p],
                opts,
            ).len() <= u32::MAX by {
                assert(play_fits(book.plays[p], opts));
            }
            lemma_deployments_of_plays_count(settings, book.plays, n, hosts, inv, opts);
            let count = plays_task_count(all);
            let built = deployed_task_count(deployments.deep_view());
            assert(count <= usize::MAX);
            assert(8 * MAX_TASK_NANOS * count + BINARY_OVERHEAD_NANOS * all.len() <= u128::MAX)
                by (nonlinear_arith)
                requires
                    count <= 0xffff_ffff_ffff_ffff,
                    all.len() <= 0xffff_ffff_ffff_ffff,
                    MAX_TASK_NANOS == 108_900_000_000,
                    BINARY_OVERHEAD_NANOS == 10_000_000_000,
            ;
            assert(BASE_COMPILATION_NANOS + PER_TASK_COMPILATION_NANOS * built <= u128::MAX && 8
                * built + 2 * count <= u128::MAX) by (nonlinear_arith)
                requires
                    built <= u32::MAX * n,
                    0 <= n <= 0xffff_ffff_ffff_ffff,
                    count <= 0xffff_ffff_ffff_ffff,
                    BASE_COMPILATION_NANOS == 30_000_000_000,
                    PER_TASK_COMPILATION_NANOS == 100_000_000,
            ;
        }
        let (task_count, _) = self.count_tasks(&plays);
        let total_tasks = task_count as usize;
        let estimated_duration = match options.strategy {
            ExecutionStrategy::BinaryOnly => None,
            _ => match self.estimate_duration_for_plays(&plays) {
                Ok(d) => Some(d),
                Err(e) => {
                    return Err(e);
                },
            },
        };
        let estimated_compilation_time = if deployments.len() > 0 {
            match self.estimate_compilation_time(&deployments) {
                Ok(t) => Some(t),
                Err(e) => {
                    return Err(e);
                },
            }
        } else {
            None
        };
        let parallelism_score = self.calculate_parallelism_score(&plays);
        let network_efficiency_score = self.calculate_network_efficiency_score(
            &plays,
            &deployments,
        );
        let playbook_hash = calculate_playbook_hash(playbook)?;
        let inventory_hash = calculate_inventory_hash(inventory)?;
        proof {
            law_scores_are_in_range(settings, book, inv, opts, created_at);
        }
        Ok(
            ExecutionPlan {
                metadata: PlanMetadata {
                    created_at,
                    rustle_version: self.version.clone(),
                    playbook_hash,
                    inventory_hash,
                    planning_options: options.clone(),
                },
                plays,
                binary_deployments: deployments,
                total_tasks,
                estimated_duration,
                estimated_compilation_time,
                parallelism_score,
                network_efficiency_score,
                hosts: available,
            },
        )
    }

    /// Whether the planner takes the inputs: see `within_planning_limits`.
    pub fn check_planning_limits(
        &self,
        playbook: &ParsedPlaybook,
        inventory: &ParsedInventory,
        options: &PlanningOptions,
    ) -> (ok: bool)
        ensures
            ok == within_planning_limits(
                playbook.deep_view(),
                inventory.deep_view(),
                options.deep_view(),
            ),
    {
        let ghost plays = playbook.deep_view().plays;
        let ghost opts = options.deep_view();
        let no_window = match options.strategy {
            ExecutionStrategy::Rolling { batch_size } => match options.serial {
                Some(s) => s == 0,
                None => batch_size == 0,
            },
            _ => false,
        };
        let available: Option<Vec<String>> = match self.filter_hosts(
            &inventory.hosts,
            &options.limit,
        ) {
            Ok(hosts) => Some(hosts),
            Err(_) => None,
        };
        let mut room: u128 = 0;
        let mut i: usize = 0;
        while i < playbook.plays.len()
            invariant
                i <= playbook.plays.len(),
                plays == playbook.deep_view().plays,
                opts == options.deep_view(),
                no_window == !layout_is_sound(options.strategy, options.serial, 1, 1),
                available.deep_view() == limited_hosts(
                    inventory.deep_view().hosts,
                    options.deep_view().limit,
                ),
                forall|k: int| 0 <= k < i ==> tasks_within_limits(play_inputs(#[trigger] plays[k], opts)),
                available matches Some(a) ==> room == plays_allowance(
                    plays,
                    i as int,
                    a.deep_view(),
                    opts,
                ) && forall|k: int| 0 <= k < i ==> play_is_sound(#[trigger] plays[k], a.deep_view(), opts),
                room <= usize::MAX,
            decreases playbook.plays.len() - i,
        {
            let play = &playbook.plays[i];
            let filtered = match self.filter_tasks_by_tags(&play.tasks, options) {
                Ok(tasks) => tasks,
                Err(_) => {
                    return false;
                },
            };
            if !check_task_limits(&filtered) {
                assert(!tasks_within_limits(play_inputs(plays[i as int], opts)));
                return false;
            }
            proof {
                lemma_tasks_within_limits_fit(filtered.deep_view());
            }
            match &available {
                Some(hosts) => {
                    let resolved = match self.resolve_play_hosts(play, hosts, inventory) {
                        Ok(resolved) => resolved,
                        Err(_) => {
                            return false;
                        },
                    };
                    if no_window && filtered.len() > 0 && resolved.len() > 0 {
                        assert(!play_is_sound(plays[i as int], hosts.deep_view(), opts));
                        return false;
                    }
                    let tasks = filtered.len() as u128;
                    let here = match options.strategy {
                        ExecutionStrategy::Rolling { .. } | ExecutionStrategy::HostPinned => {
                            assert(tasks * resolved.len() <= 0xffff_ffff * 0xffff_ffff_ffff_ffff)
                                by (nonlinear_arith)
                                requires
                                    tasks <= 0xffff_ffff,
                                    resolved.len() <= 0xffff_ffff_ffff_ffff,
                            ;
                            tasks * (resolved.len() as u128)
                        },
                        _ => tasks,
                    };
                    room = room + here;
                    if room > usize::MAX as u128 {
                        proof {
                            lemma_plays_allowance_grows(
                                plays,
                                i + 1,
                                plays.len() as int,
                                hosts.deep_view(),
                                opts,
                            );
                        }
                        return false;
                    }
                },
                None => {},
            }
            i += 1;
        }
        true
    }

    /// The plan for inputs within the limits of the planner, and `None`
    /// for others: see `plan_execution`.
    pub fn try_plan_execution(
        &self,
        playbook: &ParsedPlaybook,
        inventory: &ParsedInventory,
        options: &PlanningOptions,
    ) -> (r: Option<Result<ExecutionPlan, PlanError>>)
        ensures
            r is Some <==> within_planning_limits(
                playbook.deep_view(),
                inventory.deep_view(),
                options.deep_view(),
            ),
            r matches Some(result) ==> {
                &&& is_plan_result(
                    result,
                    self.settings(),
                    playbook.deep_view(),
                    inventory.deep_view(),
                    options.deep_view(),
                    stamp_of(result),
                )
                &&& result matches Ok(plan) ==> {
                    &&& plan.total_tasks == plays_task_count(plan.deep_view().plays)
                    &&& is_share(plan.parallelism_score)
                    &&& is_share(plan.network_efficiency_score)
                    &&& 5 * plan.network_efficiency_score.numerator
                        >= plan.network_efficiency_score.denominator
                }
            },
    {
        if self.check_planning_limits(playbook, inventory, options) {
            proof {
                lemma_limits_suffice(
                    self.settings(),
                    playbook.deep_view(),
                    inventory.deep_view(),
                    options.deep_view(),
                );
            }
            Some(self.plan_execution(playbook, inventory, options))
        } else {
            None
        }
    }

    /// The plan for the playbook on the inventory under the options,
    /// stamped with the time at which it is made: see `plan_execution_at`.
    pub fn plan_execution(
        &self,
        playbook: &ParsedPlaybook,
        inventory: &ParsedInventory,
        options: &PlanningOptions,
    ) -> (r: Result<ExecutionPlan, PlanError>)
        requires
            planning_fits(
                self.settings(),
                playbook.deep_view(),
                inventory.deep_view(),
                options.deep_view(),
            ),
        ensures
            is_plan_result(
                r,
                self.settings(),
                playbook.deep_view(),
                inventory.deep_view(),
                options.deep_view(),
                stamp_of(r),
            ),
            r matches Ok(plan) ==> {
                &&& plan.total_tasks == plays_task_count(plan.deep_view().plays)
                &&& is_share(plan.parallelism_score)
                &&& is_share(plan.network_efficiency_score)
                &&& 5 * plan.network_efficiency_score.numerator
                    >= plan.network_efficiency_score.denominator
            },
    {
        let created_at = current_timestamp();
        self.plan_execution_at(playbook, inventory, options, created_at)
    }
}

/// The time that a plan is stamped with; the epoch for a failure.
pub open spec fn stamp_of(r: Result<ExecutionPlan, PlanError>) -> Timestamp {
    match r {
        Ok(plan) => plan.metadata.created_at,
        Err(_) => Timestamp { secs: 0, nanos: 0 },
    }
}

/// Whether `r` is what planning comes to: the plan where it can be made,
/// and otherwise an error that tells why it cannot.
pub open spec fn is_plan_result(
    r: Result<ExecutionPlan, PlanError>,
    settings: PlannerSettings,
    playbook: ParsedPlaybookView,
    inventory: ParsedInventoryView,
    options: PlanningOptionsView,
    created_at: Timestamp,
) -> bool {
    match r {
        Ok(plan) => plan_failure(playbook, inventory, options) is None
            && plan.deep_view() == planned(settings, playbook, inventory, options, created_at),
        Err(e) => plan_failure(playbook, inventory, options) matches Some(failure)
            && plan_error_matches(e.deep_view(), failure, playbook, options),
    }
}

impl Default for ExecutionPlanner {
    fn default() -> (r: Self)
        ensures
            r.strategy == ExecutionStrategy::Linear,
            r.forks == 50,
            !r.optimize,
            !r.check_mode,
            r.binary_threshold == 5,
            r.binary_planner.host_arch@ == "x86_64"@,
            r.binary_planner.host_os@ == "linux"@,
            r.version@ == "0.1.0"@,
    {
        ExecutionPlanner::new()
    }
}

} // verus!

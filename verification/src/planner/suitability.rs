//! Which tasks a binary could run, and in which groups.

use vstd::prelude::*;
use crate::numbers::{lemma_total_step, total};
use crate::planner::error::PlanError;
use crate::text::{
    clone_strings, contains_string, intersects, is_substring, join3, lists_intersect, numbered,
    str_contains, str_eq,
};
use crate::text::decimal;
use crate::types::analysis::{
    BinarySuitabilityAnalysis, BinarySuitabilityAnalysisView, Reasons, TaskGroup, TaskGroupView,
    TaskReason, TaskReasonView,
};
use crate::types::parsed::{contains_key, find_text, find_value, has_key, lookup, lookup_text};
use crate::types::plan::{
    ArgValue, ArgValueView, ExecutionCondition, ExecutionConditionView, RiskLevel, TaskPlan,
    TaskPlanView,
};

verus! {

/// Whether a binary can stand in for the module.
pub open spec fn module_is_binary_compatible(module: Seq<char>) -> bool {
    module == "file"@ || module == "copy"@ || module == "template"@ || module == "shell"@
        || module == "command"@ || module == "package"@ || module == "service"@ || module
        == "user"@ || module == "group"@ || module == "cron"@
}

/// Whether the module asks the operator for something.
pub open spec fn module_is_interactive(module: Seq<char>) -> bool {
    module == "pause"@ || module == "prompt"@ || module == "vars_prompt"@
}

/// Whether the condition is a `when` whose expression reads other hosts'
/// variables.
pub open spec fn reads_host_variables(condition: ExecutionConditionView) -> bool {
    condition matches ExecutionConditionView::When { expression } && is_substring(
        "hostvars"@,
        expression,
    )
}

/// Whether the task needs something that is only known on the controller
/// while it runs.
pub open spec fn has_unsuitable_arguments(task: TaskPlanView) -> bool {
    ||| has_key(task.args, "delegate_to"@)
    ||| has_key(task.args, "local_action"@)
    ||| exists|i: int| 0 <= i < task.conditions.len() && reads_host_variables(task.conditions[i])
}

/// Whether a binary could run the task.
pub open spec fn is_binary_suitable(task: TaskPlanView) -> bool {
    &&& module_is_binary_compatible(task.module)
    &&& task.risk_level != RiskLevel::Critical
    &&& !module_is_interactive(task.module)
    &&& !has_unsuitable_arguments(task)
}

/// The file that the task works on: the value under the first of the keys
/// `dest`, `path` and `src` that it has, where that value is a string.
pub open spec fn file_path(task: TaskPlanView) -> Option<Seq<char>> {
    let found = if has_key(task.args, "dest"@) {
        lookup(task.args, "dest"@)
    } else if has_key(task.args, "path"@) {
        lookup(task.args, "path"@)
    } else {
        lookup(task.args, "src"@)
    };
    match found {
        Some(ArgValueView::Text(s)) => Some(s),
        _ => None,
    }
}

/// Whether the two tasks work on the same file or manage the same service.
pub open spec fn has_resource_conflict(a: TaskPlanView, b: TaskPlanView) -> bool {
    ||| file_path(a) is Some && file_path(a) == file_path(b)
    ||| a.module == "service"@ && b.module == "service"@ && lookup_text(a.args, "name"@) is Some
        && lookup_text(a.args, "name"@) == lookup_text(b.args, "name"@)
}

/// Whether the two tasks belong to one operation: they share a tag, or the
/// second manages a service for which the first copies a file or installs a
/// package.
pub open spec fn are_logically_related(a: TaskPlanView, b: TaskPlanView) -> bool {
    ||| intersects(a.tags, b.tags)
    ||| a.module == "copy"@ && b.module == "service"@
    ||| a.module == "package"@ && b.module == "service"@
}

/// Whether the first task notifies a handler whose name occurs in the name
/// of the second.
pub open spec fn notifies(a: TaskPlanView, b: TaskPlanView) -> bool {
    exists|i: int| 0 <= i < a.notify.len() && is_substring(#[trigger] a.notify[i], b.name)
}

/// Whether one of the tasks has to wait for the other, or one of them
/// notifies a handler whose name occurs in the name of the other.
pub open spec fn tasks_interfere(a: TaskPlanView, b: TaskPlanView) -> bool {
    ||| a.dependencies.contains(b.task_id)
    ||| b.dependencies.contains(a.task_id)
    ||| notifies(a, b)
    ||| notifies(b, a)
}

/// Whether the second task may join the group of the first.
pub open spec fn can_group_tasks(a: TaskPlanView, b: TaskPlanView) -> bool {
    &&& intersects(a.hosts, b.hosts)
    &&& !has_resource_conflict(a, b)
    &&& (are_logically_related(a, b) || !tasks_interfere(a, b))
}

/// The number of network operations that the module costs without a binary.
pub open spec fn network_operations(module: Seq<char>) -> nat {
    if module == "copy"@ || module == "template"@ || module == "fetch"@ {
        2
    } else {
        1
    }
}

/// The network operations of the tasks, in their order.
pub open spec fn operation_counts(tasks: Seq<TaskPlanView>) -> Seq<nat> {
    tasks.map_values(|t: TaskPlanView| network_operations(t.module))
}

/// The group with the given number that `seed` founds and `members` join.
pub open spec fn make_group(index: nat, seed: TaskPlanView, members: Seq<TaskPlanView>) -> TaskGroupView {
    let tasks = seq![seed] + members;
    TaskGroupView {
        id: "group_"@ + decimal(index),
        tasks,
        hosts: seed.hosts,
        modules: tasks.map_values(|t: TaskPlanView| t.module),
        network_operations: total(operation_counts(tasks)) as u32,
    }
}

/// Why a task that no binary can run is left out.
pub open spec fn unsuitability_reason(task: TaskPlanView) -> Seq<char> {
    if !is_binary_suitable(task) {
        "Module '"@ + task.module + "' is not compatible with binary deployment"@
    } else {
        "Unknown unsuitability reason"@
    }
}

/// The analysis so far, with one more task left out.
pub open spec fn with_rejection(
    analysis: BinarySuitabilityAnalysisView,
    task_id: Seq<char>,
    reason: Seq<char>,
) -> BinarySuitabilityAnalysisView {
    BinarySuitabilityAnalysisView {
        suitable_groups: analysis.suitable_groups,
        unsuitable_tasks: analysis.unsuitable_tasks.push(task_id),
        reasons: analysis.reasons.push(TaskReasonView { task_id, reason }),
    }
}

/// The analysis so far, with one more group.
pub open spec fn with_group(analysis: BinarySuitabilityAnalysisView, group: TaskGroupView) -> BinarySuitabilityAnalysisView {
    BinarySuitabilityAnalysisView {
        suitable_groups: analysis.suitable_groups.push(group),
        unsuitable_tasks: analysis.unsuitable_tasks,
        reasons: analysis.reasons,
    }
}

/// Whether `task` joins the group that `seed` founds.
pub open spec fn joins(seed: TaskPlanView, task: TaskPlanView) -> bool {
    is_binary_suitable(task) && can_group_tasks(seed, task)
}

/// The analysis of the tasks that are left, given the analysis so far. The
/// first task that is left is looked at: one that no binary can run is left
/// out. Otherwise it founds a group, which every later task joins that is
/// suitable and can be grouped with it. A group of two or more tasks is
/// kept; the founder of a group of one is kept only with at least three
/// network operations, and is left out otherwise.
pub open spec fn analysis_from(
    remaining: Seq<TaskPlanView>,
    analysis: BinarySuitabilityAnalysisView,
) -> BinarySuitabilityAnalysisView
    decreases remaining.len(),
{
    if remaining.len() == 0 {
        analysis
    } else {
        let seed = remaining[0];
        let rest = remaining.skip(1);
        if !is_binary_suitable(seed) {
            analysis_from(rest, with_rejection(analysis, seed.task_id, unsuitability_reason(seed)))
        } else {
            let members = rest.filter(|t: TaskPlanView| joins(seed, t));
            let left = rest.filter(|t: TaskPlanView| !joins(seed, t));
            let group = make_group(analysis.suitable_groups.len(), seed, members);
            if members.len() >= 1 || group.network_operations >= 3 {
                analysis_from(left, with_group(analysis, group))
            } else {
                analysis_from(
                    left,
                    with_rejection(
                        analysis,
                        seed.task_id,
                        "Insufficient network operations to justify binary deployment"@,
                    ),
                )
            }
        }
    }
}

/// The analysis that has looked at no task.
pub open spec fn empty_analysis() -> BinarySuitabilityAnalysisView {
    BinarySuitabilityAnalysisView {
        suitable_groups: Seq::empty(),
        unsuitable_tasks: Seq::empty(),
        reasons: Seq::empty(),
    }
}

/// The suitability analysis of the tasks of a play.
pub open spec fn suitability_analysis(tasks: Seq<TaskPlanView>) -> BinarySuitabilityAnalysisView {
    analysis_from(tasks, empty_analysis())
}

/// The network operations of a module.
pub fn count_module_operations(module: &str) -> (r: u32)
    ensures
        r == network_operations(module@),
        1 <= r <= 2,
{
    if str_eq(module, "copy") || str_eq(module, "template") || str_eq(module, "fetch") {
        2
    } else {
        1
    }
}

/// The group with the given number that `seed` founds and `members` join.
pub fn build_group(index: usize, seed: &TaskPlan, members: &Vec<&TaskPlan>) -> (r: TaskGroup)
    requires
        2 * (members.len() + 1) <= u32::MAX,
    ensures
        r.deep_view() == make_group(index as nat, seed.deep_view(), members.deep_view()),
        r.tasks.len() == members.len() + 1,
{
    let ghost all = seq![seed.deep_view()] + members.deep_view();
    let ghost counts = operation_counts(all);
    let mut tasks: Vec<TaskPlan> = Vec::new();
    let mut modules: Vec<String> = Vec::new();
    tasks.push(seed.clone());
    modules.push(seed.module.clone());
    let mut operations: u32 = count_module_operations(seed.module.as_str());
    let mut i: usize = 0;
    proof {
        assert(tasks.deep_view() =~= all.take(1));
        assert(modules.deep_view() =~= all.take(1).map_values(|t: TaskPlanView| t.module));
        lemma_total_step(counts, 0);
        assert(counts.take(0) =~= Seq::<nat>::empty());
    }
    while i < members.len()
        invariant
            i <= members.len(),
            2 * (members.len() + 1) <= u32::MAX,
            all == seq![seed.deep_view()] + members.deep_view(),
            counts == operation_counts(all),
            tasks.deep_view() == all.take(i + 1),
            modules.deep_view() == all.take(i + 1).map_values(|t: TaskPlanView| t.module),
            operations == total(counts.take(i + 1)),
            operations <= 2 * (i + 1),
        decreases members.len() - i,
    {
        let member = members[i];
        let ghost tasks_before = tasks.deep_view();
        let ghost modules_before = modules.deep_view();
        tasks.push(member.clone());
        modules.push(member.module.clone());
        operations = operations + count_module_operations(member.module.as_str());
        proof {
            assert(all[i + 1] == members.deep_view()[i as int]);
            assert(tasks.deep_view() =~= tasks_before.push(all[i + 1]));
            assert(all.take(i + 2) =~= all.take(i + 1).push(all[i + 1]));
            assert(modules.deep_view() =~= modules_before.push(all[i + 1].module));
            assert(all.take(i + 2).map_values(|t: TaskPlanView| t.module) =~= modules_before.push(
                all[i + 1].module,
            ));
            lemma_total_step(counts, i + 1);
        }
        i += 1;
    }
    proof {
        assert(all.take(members.len() + 1) =~= all);
        assert(counts.take(members.len() + 1) =~= counts);
    }
    TaskGroup {
        id: numbered("group_", index),
        tasks,
        hosts: clone_strings(&seed.hosts),
        modules,
        network_operations: operations,
    }
}

pub struct BinarySuitabilityAnalyzer;

impl BinarySuitabilityAnalyzer {
    pub fn new() -> (r: Self) {
        BinarySuitabilityAnalyzer
    }

    /// Whether a binary could stand in for the module.
    pub fn is_module_binary_compatible(&self, module: &str) -> (r: bool)
        ensures
            r == module_is_binary_compatible(module@),
    {
        str_eq(module, "file") || str_eq(module, "copy") || str_eq(module, "template") || str_eq(
            module,
            "shell",
        ) || str_eq(module, "command") || str_eq(module, "package") || str_eq(module, "service")
            || str_eq(module, "user") || str_eq(module, "group") || str_eq(module, "cron")
    }

    /// Whether a binary could run the task.
    pub fn is_task_binary_suitable(&self, task: &TaskPlan) -> (r: bool)
        ensures
            r == is_binary_suitable(task.deep_view()),
    {
        let module = task.module.as_str();
        if !self.is_module_binary_compatible(module) {
            return false;
        }
        if task.risk_level == RiskLevel::Critical {
            return false;
        }
        if str_eq(module, "pause") || str_eq(module, "prompt") || str_eq(module, "vars_prompt") {
            return false;
        }
        if self.has_unsuitable_arguments(task) {
            return false;
        }
        true
    }

    /// Whether the task needs something that is only known on the
    /// controller while it runs.
    pub fn has_unsuitable_arguments(&self, task: &TaskPlan) -> (r: bool)
        ensures
            r == has_unsuitable_arguments(task.deep_view()),
    {
        if contains_key(&task.args, "delegate_to") {
            return true;
        }
        if contains_key(&task.args, "local_action") {
            return true;
        }
        let mut i: usize = 0;
        while i < task.conditions.len()
            invariant
                i <= task.conditions.len(),
                forall|k: int| 0 <= k < i ==> !reads_host_variables(task.deep_view().conditions[k]),
            decreases task.conditions.len() - i,
        {
            let found = match &task.conditions[i] {
                ExecutionCondition::When { expression } => str_contains(
                    expression.as_str(),
                    "hostvars",
                ),
                _ => false,
            };
            assert(found == reads_host_variables(task.deep_view().conditions[i as int]));
            if found {
                return true;
            }
            i += 1;
        }
        false
    }

    /// Whether the second task may join the group of the first.
    pub fn can_group_tasks(&self, task1: &TaskPlan, task2: &TaskPlan) -> (r: bool)
        ensures
            r == can_group_tasks(task1.deep_view(), task2.deep_view()),
    {
        if !self.has_host_overlap(&task1.hosts, &task2.hosts) {
            return false;
        }
        if self.has_resource_conflict(task1, task2) {
            return false;
        }
        if self.are_logically_related(task1, task2) {
            return true;
        }
        !self.tasks_interfere(task1, task2)
    }

    /// Whether the two lists have a host in common.
    pub fn has_host_overlap(&self, hosts1: &Vec<String>, hosts2: &Vec<String>) -> (r: bool)
        ensures
            r == intersects(hosts1.deep_view(), hosts2.deep_view()),
    {
        lists_intersect(hosts1, hosts2)
    }

    /// Whether the two tasks work on the same file or manage the same
    /// service.
    pub fn has_resource_conflict(&self, task1: &TaskPlan, task2: &TaskPlan) -> (r: bool)
        ensures
            r == has_resource_conflict(task1.deep_view(), task2.deep_view()),
    {
        match (self.get_file_path(task1), self.get_file_path(task2)) {
            (Some(path1), Some(path2)) => {
                if str_eq(path1.as_str(), path2.as_str()) {
                    return true;
                }
            },
            _ => {},
        }
        if str_eq(task1.module.as_str(), "service") && str_eq(task2.module.as_str(), "service") {
            match (find_text(&task1.args, "name"), find_text(&task2.args, "name")) {
                (Some(service1), Some(service2)) => {
                    if str_eq(service1.as_str(), service2.as_str()) {
                        return true;
                    }
                },
                _ => {},
            }
        }
        false
    }

    /// Whether the two tasks belong to one operation.
    pub fn are_logically_related(&self, task1: &TaskPlan, task2: &TaskPlan) -> (r: bool)
        ensures
            r == are_logically_related(task1.deep_view(), task2.deep_view()),
    {
        if lists_intersect(&task1.tags, &task2.tags) {
            return true;
        }
        if str_eq(task1.module.as_str(), "copy") && str_eq(task2.module.as_str(), "service") {
            return true;
        }
        if str_eq(task1.module.as_str(), "package") && str_eq(task2.module.as_str(), "service") {
            return true;
        }
        false
    }

    /// Whether the first task notifies a handler whose name occurs in the
    /// name of the second.
    pub fn task_notifies(&self, task1: &TaskPlan, task2: &TaskPlan) -> (r: bool)
        ensures
            r == notifies(task1.deep_view(), task2.deep_view()),
    {
        let mut i: usize = 0;
        while i < task1.notify.len()
            invariant
                i <= task1.notify.len(),
                forall|k: int|
                    0 <= k < i ==> !is_substring(
                        #[trigger] task1.deep_view().notify[k],
                        task2.deep_view().name,
                    ),
            decreases task1.notify.len() - i,
        {
            if str_contains(task2.name.as_str(), task1.notify[i].as_str()) {
                assert(is_substring(task1.deep_view().notify[i as int], task2.deep_view().name));
                return true;
            }
            i += 1;
        }
        false
    }

    /// Whether one of the tasks has to wait for the other, or one of them
    /// notifies a handler whose name occurs in the name of the other.
    pub fn tasks_interfere(&self, task1: &TaskPlan, task2: &TaskPlan) -> (r: bool)
        ensures
            r == tasks_interfere(task1.deep_view(), task2.deep_view()),
    {
        if contains_string(&task1.dependencies, task2.task_id.as_str()) || contains_string(
            &task2.dependencies,
            task1.task_id.as_str(),
        ) {
            return true;
        }
        self.task_notifies(task1, task2) || self.task_notifies(task2, task1)
    }

    /// The file that the task works on.
    pub fn get_file_path(&self, task: &TaskPlan) -> (r: Option<String>)
        ensures
            r.deep_view() == file_path(task.deep_view()),
    {
        let found = match find_value(&task.args, "dest") {
            Some(v) => Some(v),
            None => match find_value(&task.args, "path") {
                Some(v) => Some(v),
                None => find_value(&task.args, "src"),
            },
        };
        match found {
            Some(ArgValue::Text(s)) => Some(s.clone()),
            _ => None,
        }
    }

    /// Why a task that no binary can run is left out.
    pub fn get_unsuitability_reason(&self, task: &TaskPlan) -> (r: String)
        ensures
            r@ == unsuitability_reason(task.deep_view()),
    {
        if !self.is_task_binary_suitable(task) {
            return join3(
                "Module '",
                task.module.as_str(),
                "' is not compatible with binary deployment",
            );
        }
        String::from_str("Unknown unsuitability reason")
    }

    /// The network operations that the task costs without a binary.
    pub fn count_network_operations(&self, task: &TaskPlan) -> (r: u32)
        ensures
            r == network_operations(task.deep_view().module),
    {
        count_module_operations(task.module.as_str())
    }

    /// The tasks after the first of `remaining` that join the group of
    /// `seed`, and those that do not, each in their order.
    fn split_by_seed<'a>(&self, seed: &TaskPlan, remaining: &Vec<&'a TaskPlan>) -> (r: (
        Vec<&'a TaskPlan>,
        Vec<&'a TaskPlan>,
    ))
        requires
            remaining.len() > 0,
        ensures
            r.0.deep_view() == remaining.deep_view().skip(1).filter(
                |t: TaskPlanView| joins(seed.deep_view(), t),
            ),
            r.1.deep_view() == remaining.deep_view().skip(1).filter(
                |t: TaskPlanView| !joins(seed.deep_view(), t),
            ),
            r.0.len() + r.1.len() == remaining.len() - 1,
    {
        let ghost rest = remaining.deep_view().skip(1);
        let ghost joining = |t: TaskPlanView| joins(seed.deep_view(), t);
        let ghost staying = |t: TaskPlanView| !joins(seed.deep_view(), t);
        let mut members: Vec<&'a TaskPlan> = Vec::new();
        let mut left: Vec<&'a TaskPlan> = Vec::new();
        let mut i: usize = 1;
        proof {
            reveal(Seq::filter);
            assert(rest.take(0) =~= Seq::<TaskPlanView>::empty());
            assert(members.deep_view() =~= Seq::<TaskPlanView>::empty());
            assert(left.deep_view() =~= Seq::<TaskPlanView>::empty());
        }
        while i < remaining.len()
            invariant
                1 <= i <= remaining.len(),
                rest == remaining.deep_view().skip(1),
                joining == (|t: TaskPlanView| joins(seed.deep_view(), t)),
                staying == (|t: TaskPlanView| !joins(seed.deep_view(), t)),
                members.deep_view() == rest.take(i - 1).filter(joining),
                left.deep_view() == rest.take(i - 1).filter(staying),
                members.len() + left.len() == i - 1,
            decreases remaining.len() - i,
        {
            let task = remaining[i];
            proof {
                crate::text::lemma_filter_take_step(rest, joining, i - 1);
                crate::text::lemma_filter_take_step(rest, staying, i - 1);
                assert(rest[i - 1] == task.deep_view());
            }
            if self.is_task_binary_suitable(task) && self.can_group_tasks(seed, task) {
                let ghost before = members.deep_view();
                members.push(task);
                assert(members.deep_view() =~= before.push(task.deep_view()));
            } else {
                let ghost before = left.deep_view();
                left.push(task);
                assert(left.deep_view() =~= before.push(task.deep_view()));
            }
            i += 1;
        }
        assert(rest.take(remaining.len() - 1) =~= rest);
        (members, left)
    }

    /// The suitability analysis of the tasks of a play.
    pub fn analyze(&self, tasks: &Vec<TaskPlan>) -> (r: Result<
        BinarySuitabilityAnalysis,
        PlanError,
    >)
        requires
            2 * tasks.len() <= u32::MAX,
        ensures
            r matches Ok(analysis) && analysis.deep_view() == suitability_analysis(
                tasks.deep_view(),
            ),
    {
        let mut remaining: Vec<&TaskPlan> = Vec::new();
        let mut k: usize = 0;
        assert(remaining.deep_view() =~= tasks.deep_view().take(0));
        while k < tasks.len()
            invariant
                k <= tasks.len(),
                remaining.deep_view() == tasks.deep_view().take(k as int),
            decreases tasks.len() - k,
        {
            let ghost before = remaining.deep_view();
            remaining.push(&tasks[k]);
            assert(remaining.deep_view() =~= before.push(tasks.deep_view()[k as int]));
            assert(tasks.deep_view().take(k + 1) =~= before.push(tasks.deep_view()[k as int]));
            k += 1;
        }
        assert(tasks.deep_view().take(tasks.len() as int) =~= tasks.deep_view());
        let mut analysis = BinarySuitabilityAnalysis {
            suitable_groups: Vec::new(),
            unsuitable_tasks: Vec::new(),
            reasons: Reasons { entries: Vec::new() },
        };
        proof {
            let a = analysis.deep_view();
            assert(a.suitable_groups =~= Seq::empty());
            assert(a.unsuitable_tasks =~= Seq::empty());
            assert(a.reasons =~= Seq::empty());
            assert(a == empty_analysis());
        }
        while remaining.len() > 0
            invariant
                remaining.len() <= tasks.len(),
                2 * tasks.len() <= u32::MAX,
                analysis_from(remaining.deep_view(), analysis.deep_view()) == suitability_analysis(
                    tasks.deep_view(),
                ),
            decreases remaining.len(),
        {
            let seed = remaining[0];
            let ghost before = analysis.deep_view();
            let ghost rest = remaining.deep_view().skip(1);
            if !self.is_task_binary_suitable(seed) {
                let reason = self.get_unsuitability_reason(seed);
                analysis.unsuitable_tasks.push(seed.task_id.clone());
                analysis.reasons.entries.push(
                    TaskReason { task_id: seed.task_id.clone(), reason },
                );
                let mut left: Vec<&TaskPlan> = Vec::new();
                let mut j: usize = 1;
                assert(left.deep_view() =~= rest.take(0));
                while j < remaining.len()
                    invariant
                        1 <= j <= remaining.len(),
                        rest == remaining.deep_view().skip(1),
                        left.deep_view() == rest.take(j - 1),
                    decreases remaining.len() - j,
                {
                    let ghost sofar = left.deep_view();
                    left.push(remaining[j]);
                    assert(left.deep_view() =~= sofar.push(rest[j - 1]));
                    assert(rest.take(j as int) =~= sofar.push(rest[j - 1]));
                    j += 1;
                }
                proof {
                    assert(rest.take(remaining.len() - 1) =~= rest);
                    let after = analysis.deep_view();
                    let want = with_rejection(
                        before,
                        seed.deep_view().task_id,
                        unsuitability_reason(seed.deep_view()),
                    );
                    assert(after.unsuitable_tasks =~= want.unsuitable_tasks);
                    assert(after.reasons =~= want.reasons);
                    assert(after == want);
                }
                remaining = left;
            } else {
                let (members, left) = self.split_by_seed(seed, &remaining);
                let group = build_group(analysis.suitable_groups.len(), seed, &members);
                if group.tasks.len() >= 2 || group.network_operations >= 3 {
                    let ghost added = group.deep_view();
                    analysis.suitable_groups.push(group);
                    proof {
                        let after = analysis.deep_view();
                        let want = with_group(before, added);
                        assert(after.suitable_groups =~= want.suitable_groups);
                        assert(after == want);
                    }
                } else {
                    analysis.unsuitable_tasks.push(seed.task_id.clone());
                    analysis.reasons.entries.push(
                        TaskReason {
                            task_id: seed.task_id.clone(),
                            reason: String::from_str(
                                "Insufficient network operations to justify binary deployment",
                            ),
                        },
                    );
                    proof {
                        let after = analysis.deep_view();
                        let want = with_rejection(
                            before,
                            seed.deep_view().task_id,
                            "Insufficient network operations to justify binary deployment"@,
                        );
                        assert(after.unsuitable_tasks =~= want.unsuitable_tasks);
                        assert(after.reasons =~= want.reasons);
                        assert(after == want);
                    }
                }
                remaining = left;
            }
        }
        Ok(analysis)
    }
}

impl Default for BinarySuitabilityAnalyzer {
    fn default() -> (r: Self) {
        BinarySuitabilityAnalyzer
    }
}

} // verus!

//! What the analyses of a plan report.

use vstd::prelude::*;
use crate::text::{clone_strings, str_eq};
use crate::types::plan::{clone_tasks, Ratio, TaskPlan, TaskPlanView};

verus! {

/// Tasks that one binary could run.
#[derive(Debug)]
pub struct TaskGroup {
    pub id: String,
    pub tasks: Vec<TaskPlan>,
    pub hosts: Vec<String>,
    pub modules: Vec<String>,
    pub network_operations: u32,
}

pub struct TaskGroupView {
    pub id: Seq<char>,
    pub tasks: Seq<TaskPlanView>,
    pub hosts: Seq<Seq<char>>,
    pub modules: Seq<Seq<char>>,
    pub network_operations: u32,
}

impl DeepView for TaskGroup {
    type V = TaskGroupView;

    open spec fn deep_view(&self) -> TaskGroupView {
        TaskGroupView {
            id: self.id@,
            tasks: self.tasks.deep_view(),
            hosts: self.hosts.deep_view(),
            modules: self.modules.deep_view(),
            network_operations: self.network_operations,
        }
    }
}

impl Clone for TaskGroup {
    fn clone(&self) -> (r: Self)
        ensures
            r.deep_view() == self.deep_view(),
    {
        TaskGroup {
            id: self.id.clone(),
            tasks: clone_tasks(&self.tasks),
            hosts: clone_strings(&self.hosts),
            modules: clone_strings(&self.modules),
            network_operations: self.network_operations,
        }
    }
}

/// Why a task is left to remote commands.
#[derive(Debug)]
pub struct TaskReason {
    pub task_id: String,
    pub reason: String,
}

pub struct TaskReasonView {
    pub task_id: Seq<char>,
    pub reason: Seq<char>,
}

impl DeepView for TaskReason {
    type V = TaskReasonView;

    open spec fn deep_view(&self) -> TaskReasonView {
        TaskReasonView { task_id: self.task_id@, reason: self.reason@ }
    }
}

impl Clone for TaskReason {
    fn clone(&self) -> (r: Self)
        ensures
            r.deep_view() == self.deep_view(),
    {
        TaskReason { task_id: self.task_id.clone(), reason: self.reason.clone() }
    }
}

/// The reason that was given last for a task id, if one was given.
pub open spec fn reason_of(entries: Seq<TaskReasonView>, task_id: Seq<char>) -> Option<Seq<char>>
    decreases entries.len(),
{
    if entries.len() == 0 {
        None
    } else if entries.last().task_id == task_id {
        Some(entries.last().reason)
    } else {
        reason_of(entries.drop_last(), task_id)
    }
}

/// The reasons by task, in the order in which they were given. Of two
/// reasons for one task id the later one counts.
#[derive(Debug)]
pub struct Reasons {
    pub entries: Vec<TaskReason>,
}

impl DeepView for Reasons {
    type V = Seq<TaskReasonView>;

    open spec fn deep_view(&self) -> Seq<TaskReasonView> {
        self.entries.deep_view()
    }
}

impl Reasons {
    /// The reason for a task, if one was given.
    pub fn get(&self, task_id: &str) -> (r: Option<&String>)
        ensures
            r.deep_view() == reason_of(self.deep_view(), task_id@),
    {
        let mut i: usize = self.entries.len();
        assert(self.deep_view().take(i as int) =~= self.deep_view());
        while i > 0
            invariant
                i <= self.entries.len(),
                reason_of(self.deep_view(), task_id@) == reason_of(
                    self.deep_view().take(i as int),
                    task_id@,
                ),
            decreases i,
        {
            assert(self.deep_view().take(i as int).last() == self.deep_view()[i - 1]);
            assert(self.deep_view().take(i as int).drop_last() =~= self.deep_view().take(i - 1));
            if str_eq(self.entries[i - 1].task_id.as_str(), task_id) {
                return Some(&self.entries[i - 1].reason);
            }
            i -= 1;
        }
        None
    }

    /// Whether a reason was given for the task.
    pub fn contains_key(&self, task_id: &str) -> (r: bool)
        ensures
            r == reason_of(self.deep_view(), task_id@) is Some,
    {
        self.get(task_id).is_some()
    }

    pub fn is_empty(&self) -> (r: bool)
        ensures
            r == (self.deep_view().len() == 0),
    {
        self.entries.len() == 0
    }

    pub fn len(&self) -> (r: usize)
        ensures
            r == self.deep_view().len(),
    {
        self.entries.len()
    }
}

/// Which tasks binaries could run, group by group, and which not, and why.
#[derive(Debug)]
pub struct BinarySuitabilityAnalysis {
    pub suitable_groups: Vec<TaskGroup>,
    pub unsuitable_tasks: Vec<String>,
    pub reasons: Reasons,
}

pub struct BinarySuitabilityAnalysisView {
    pub suitable_groups: Seq<TaskGroupView>,
    pub unsuitable_tasks: Seq<Seq<char>>,
    pub reasons: Seq<TaskReasonView>,
}

impl DeepView for BinarySuitabilityAnalysis {
    type V = BinarySuitabilityAnalysisView;

    open spec fn deep_view(&self) -> BinarySuitabilityAnalysisView {
        BinarySuitabilityAnalysisView {
            suitable_groups: self.suitable_groups.deep_view(),
            unsuitable_tasks: self.unsuitable_tasks.deep_view(),
            reasons: self.reasons.deep_view(),
        }
    }
}

/// Whether a group is worth a binary, and why.
#[derive(Debug)]
pub enum BinaryDeploymentDecision {
    Deploy { reason: String, estimated_benefit: Ratio },
    Skip { reason: String },
}

pub enum BinaryDeploymentDecisionView {
    Deploy { reason: Seq<char>, estimated_benefit: Ratio },
    Skip { reason: Seq<char> },
}

impl DeepView for BinaryDeploymentDecision {
    type V = BinaryDeploymentDecisionView;

    open spec fn deep_view(&self) -> BinaryDeploymentDecisionView {
        match self {
            BinaryDeploymentDecision::Deploy { reason, estimated_benefit } => {
                BinaryDeploymentDecisionView::Deploy {
                    reason: reason@,
                    estimated_benefit: *estimated_benefit,
                }
            },
            BinaryDeploymentDecision::Skip { reason } => BinaryDeploymentDecisionView::Skip {
                reason: reason@,
            },
        }
    }
}

/// What a validation found: a plan is valid where there is no error.
#[derive(Debug)]
pub struct ValidationReport {
    pub is_valid: bool,
    pub errors: Vec<String>,
    pub warnings: Vec<String>,
}

pub struct ValidationReportView {
    pub is_valid: bool,
    pub errors: Seq<Seq<char>>,
    pub warnings: Seq<Seq<char>>,
}

impl DeepView for ValidationReport {
    type V = ValidationReportView;

    open spec fn deep_view(&self) -> ValidationReportView {
        ValidationReportView {
            is_valid: self.is_valid,
            errors: self.errors.deep_view(),
            warnings: self.warnings.deep_view(),
        }
    }
}

impl Clone for ValidationReport {
    fn clone(&self) -> (r: Self)
        ensures
            r.deep_view() == self.deep_view(),
    {
        ValidationReport {
            is_valid: self.is_valid,
            errors: clone_strings(&self.errors),
            warnings: clone_strings(&self.warnings),
        }
    }
}

} // verus!

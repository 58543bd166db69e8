//! Whether a task runs, given where and how the plan is carried out.

use vstd::prelude::*;
use crate::planner::error::PlanError;
use crate::text::{intersects, is_substring, lists_intersect, str_contains};
use crate::types::plan::{
    ExecutionCondition, ExecutionConditionView, KeyValue, KeyValueView, TaskPlan, TaskPlanView,
};

verus! {

/// Where and how a plan is carried out.
#[derive(Debug)]
pub struct ExecutionContext {
    pub current_host: String,
    pub active_tags: Vec<String>,
    pub check_mode: bool,
    pub variables: Vec<KeyValue>,
}

pub struct ExecutionContextView {
    pub current_host: Seq<char>,
    pub active_tags: Seq<Seq<char>>,
    pub check_mode: bool,
    pub variables: Seq<KeyValueView>,
}

impl DeepView for ExecutionContext {
    type V = ExecutionContextView;

    open spec fn deep_view(&self) -> ExecutionContextView {
        ExecutionContextView {
            current_host: self.current_host@,
            active_tags: self.active_tags.deep_view(),
            check_mode: self.check_mode,
            variables: self.variables.deep_view(),
        }
    }
}

/// Whether the condition holds: a `when` with an expression that is not
/// empty, a tag that is active, no skipped tag that is active, a host
/// pattern that occurs in the name of the host, the check mode that is
/// asked for.
pub open spec fn condition_holds(
    condition: ExecutionConditionView,
    context: ExecutionContextView,
) -> bool {
    match condition {
        ExecutionConditionView::When { expression } => expression.len() > 0,
        ExecutionConditionView::Tag { tags } => intersects(tags, context.active_tags),
        ExecutionConditionView::Host { pattern } => is_substring(pattern, context.current_host),
        ExecutionConditionView::SkipTag { tags } => !intersects(tags, context.active_tags),
        ExecutionConditionView::CheckMode { enabled } => enabled == context.check_mode,
    }
}

/// Whether all conditions of the task hold.
pub open spec fn task_should_execute(task: TaskPlanView, context: ExecutionContextView) -> bool {
    forall|i: int| 0 <= i < task.conditions.len() ==> condition_holds(task.conditions[i], context)
}

pub struct ConditionEvaluator;

impl ConditionEvaluator {
    pub fn new() -> (r: Self) {
        ConditionEvaluator
    }

    /// Whether the task runs: all its conditions hold.
    pub fn should_execute_task(&self, task: &TaskPlan, context: &ExecutionContext) -> (r: Result<
        bool,
        PlanError,
    >)
        ensures
            r matches Ok(b) && b == task_should_execute(task.deep_view(), context.deep_view()),
    {
        let mut i: usize = 0;
        while i < task.conditions.len()
            invariant
                i <= task.conditions.len(),
                forall|k: int|
                    0 <= k < i ==> condition_holds(
                        task.deep_view().conditions[k],
                        context.deep_view(),
                    ),
            decreases task.conditions.len() - i,
        {
            let holds = match self.evaluate_condition(&task.conditions[i], context) {
                Ok(b) => b,
                Err(e) => {
                    return Err(e);
                },
            };
            if !holds {
                assert(!condition_holds(task.deep_view().conditions[i as int], context.deep_view()));
                return Ok(false);
            }
            i += 1;
        }
        Ok(true)
    }

    /// Whether the condition holds.
    pub fn evaluate_condition(
        &self,
        condition: &ExecutionCondition,
        context: &ExecutionContext,
    ) -> (r: Result<bool, PlanError>)
        ensures
            r matches Ok(b) && b == condition_holds(condition.deep_view(), context.deep_view()),
    {
        match condition {
            ExecutionCondition::When { expression } => Ok(!expression.as_str().is_empty()),
            ExecutionCondition::Tag { tags } => Ok(lists_intersect(tags, &context.active_tags)),
            ExecutionCondition::Host { pattern } => Ok(
                str_contains(context.current_host.as_str(), pattern.as_str()),
            ),
            ExecutionCondition::SkipTag { tags } => Ok(
                !lists_intersect(tags, &context.active_tags),
            ),
            ExecutionCondition::CheckMode { enabled } => Ok(*enabled == context.check_mode),
        }
    }
}

impl Default for ConditionEvaluator {
    fn default() -> (r: Self) {
        ConditionEvaluator
    }
}

} // verus!

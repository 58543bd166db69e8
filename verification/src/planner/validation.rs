//! A look over a finished plan for what is missing in it.

use vstd::prelude::*;
use crate::planner::error::PlanError;
use crate::text::{join3, push_text, str_eq};
use crate::types::analysis::{ValidationReport, ValidationReportView};
use crate::types::plan::{
    BinaryDeployment, BinaryDeploymentView, ExecutionBatch, ExecutionBatchView, ExecutionPlan,
    ExecutionPlanView, PlayPlan, PlayPlanView, TaskPlan, TaskPlanView,
};

verus! {

/// Whether one of the tasks has the id.
pub open spec fn has_task(tasks: Seq<TaskPlanView>, task_id: Seq<char>) -> bool {
    exists|i: int| 0 <= i < tasks.len() && (#[trigger] tasks[i]).task_id == task_id
}

/// The warning for a dependency outside the batch.
pub open spec fn foreign_dependency_warning(task_id: Seq<char>, dependency: Seq<char>) -> Seq<
    char,
> {
    "Task '"@ + task_id + "' depends on '"@ + dependency + "' which is not in the same batch"@
}

/// The warnings for the first `d` dependencies of a task of the batch.
pub open spec fn dependency_warnings(batch: ExecutionBatchView, task: TaskPlanView, d: int) -> Seq<
    Seq<char>,
>
    decreases d,
{
    if d <= 0 {
        Seq::empty()
    } else {
        let before = dependency_warnings(batch, task, d - 1);
        if has_task(batch.tasks, task.dependencies[d - 1]) {
            before
        } else {
            before.push(foreign_dependency_warning(task.task_id, task.dependencies[d - 1]))
        }
    }
}

/// The warnings for the dependencies of the first `t` tasks of the batch.
pub open spec fn task_warnings(batch: ExecutionBatchView, t: int) -> Seq<Seq<char>>
    decreases t,
{
    if t <= 0 {
        Seq::empty()
    } else {
        task_warnings(batch, t - 1) + dependency_warnings(
            batch,
            batch.tasks[t - 1],
            batch.tasks[t - 1].dependencies.len() as int,
        )
    }
}

/// The errors of a batch: it has no host.
pub open spec fn batch_errors(batch: ExecutionBatchView) -> Seq<Seq<char>> {
    if batch.hosts.len() == 0 {
        seq!["Batch '"@ + batch.batch_id + "' has no target hosts"@]
    } else {
        Seq::empty()
    }
}

/// The warnings of a batch: it has no task, or a task of it depends on a
/// task outside it.
pub open spec fn batch_warnings(batch: ExecutionBatchView) -> Seq<Seq<char>> {
    (if batch.tasks.len() == 0 {
        seq!["Batch '"@ + batch.batch_id + "' has no tasks"@]
    } else {
        Seq::empty()
    }) + task_warnings(batch, batch.tasks.len() as int)
}

/// The errors of the first `b` batches.
pub open spec fn batches_errors(batches: Seq<ExecutionBatchView>, b: int) -> Seq<Seq<char>>
    decreases b,
{
    if b <= 0 {
        Seq::empty()
    } else {
        batches_errors(batches, b - 1) + batch_errors(batches[b - 1])
    }
}

/// The warnings of the first `b` batches.
pub open spec fn batches_warnings(batches: Seq<ExecutionBatchView>, b: int) -> Seq<Seq<char>>
    decreases b,
{
    if b <= 0 {
        Seq::empty()
    } else {
        batches_warnings(batches, b - 1) + batch_warnings(batches[b - 1])
    }
}

/// The errors of a play: those of its batches.
pub open spec fn play_errors(play: PlayPlanView) -> Seq<Seq<char>> {
    batches_errors(play.batches, play.batches.len() as int)
}

/// The warnings of a play: it has no batch, or its batches have warnings.
pub open spec fn play_warnings(play: PlayPlanView) -> Seq<Seq<char>> {
    (if play.batches.len() == 0 {
        seq!["Play '"@ + play.name + "' has no execution batches"@]
    } else {
        Seq::empty()
    }) + batches_warnings(play.batches, play.batches.len() as int)
}

/// The errors of a binary: it has no host.
pub open spec fn deployment_errors(deployment: BinaryDeploymentView) -> Seq<Seq<char>> {
    if deployment.target_hosts.len() == 0 {
        seq!["Binary deployment '"@ + deployment.deployment_id + "' has no target hosts"@]
    } else {
        Seq::empty()
    }
}

/// The list with the message about the binary at its end, if `wanted`.
pub open spec fn note_if(
    list: Seq<Seq<char>>,
    wanted: bool,
    deployment: BinaryDeploymentView,
    message: Seq<char>,
) -> Seq<Seq<char>> {
    if wanted {
        list.push("Binary deployment '"@ + deployment.deployment_id + message)
    } else {
        list
    }
}

/// The warnings of a binary: it has no task, no size, or no compiler
/// version.
pub open spec fn deployment_warnings(deployment: BinaryDeploymentView) -> Seq<Seq<char>> {
    note_if(
        note_if(
            note_if(Seq::empty(), deployment.tasks.len() == 0, deployment, "' has no tasks"@),
            deployment.estimated_size == 0,
            deployment,
            "' has zero estimated size"@,
        ),
        deployment.compilation_requirements.rust_version.len() == 0,
        deployment,
        "' has no Rust version specified"@,
    )
}

/// The errors of the first `p` plays.
pub open spec fn plays_errors(plays: Seq<PlayPlanView>, p: int) -> Seq<Seq<char>>
    decreases p,
{
    if p <= 0 {
        Seq::empty()
    } else {
        plays_errors(plays, p - 1) + play_errors(plays[p - 1])
    }
}

/// The warnings of the first `p` plays.
pub open spec fn plays_warnings(plays: Seq<PlayPlanView>, p: int) -> Seq<Seq<char>>
    decreases p,
{
    if p <= 0 {
        Seq::empty()
    } else {
        plays_warnings(plays, p - 1) + play_warnings(plays[p - 1])
    }
}

/// The errors of the first `d` binaries.
pub open spec fn deployments_errors(deployments: Seq<BinaryDeploymentView>, d: int) -> Seq<
    Seq<char>,
>
    decreases d,
{
    if d <= 0 {
        Seq::empty()
    } else {
        deployments_errors(deployments, d - 1) + deployment_errors(deployments[d - 1])
    }
}

/// The warnings of the first `d` binaries.
pub open spec fn deployments_warnings(deployments: Seq<BinaryDeploymentView>, d: int) -> Seq<
    Seq<char>,
>
    decreases d,
{
    if d <= 0 {
        Seq::empty()
    } else {
        deployments_warnings(deployments, d - 1) + deployment_warnings(deployments[d - 1])
    }
}

/// The errors of a plan: it has no host, and those of its plays and its
/// binaries, in their order.
pub open spec fn plan_errors(plan: ExecutionPlanView) -> Seq<Seq<char>> {
    (if plan.hosts.len() == 0 {
        seq!["No target hosts specified"@]
    } else {
        Seq::empty()
    }) + plays_errors(plan.plays, plan.plays.len() as int) + deployments_errors(
        plan.binary_deployments,
        plan.binary_deployments.len() as int,
    )
}

/// The warnings of a plan: it has no play, and those of its plays and its
/// binaries, in their order.
pub open spec fn plan_warnings(plan: ExecutionPlanView) -> Seq<Seq<char>> {
    (if plan.plays.len() == 0 {
        seq!["No plays in execution plan"@]
    } else {
        Seq::empty()
    }) + plays_warnings(plan.plays, plan.plays.len() as int) + deployments_warnings(
        plan.binary_deployments,
        plan.binary_deployments.len() as int,
    )
}

/// What the validation of a plan reports.
pub open spec fn validation_report(plan: ExecutionPlanView) -> ValidationReportView {
    ValidationReportView {
        is_valid: plan_errors(plan).len() == 0,
        errors: plan_errors(plan),
        warnings: plan_warnings(plan),
    }
}

pub struct PlanValidator;

impl PlanValidator {
    pub fn new() -> (r: Self) {
        PlanValidator
    }

    /// What is missing in the plan: errors, with which it is not valid, and
    /// warnings.
    pub fn validate(&self, plan: &ExecutionPlan) -> (r: Result<ValidationReport, PlanError>)
        ensures
            r matches Ok(report) && report.deep_view() == validation_report(plan.deep_view()),
    {
        let ghost view = plan.deep_view();
        let mut errors: Vec<String> = Vec::new();
        let mut warnings: Vec<String> = Vec::new();
        assert(errors.deep_view() =~= Seq::<Seq<char>>::empty());
        assert(warnings.deep_view() =~= Seq::<Seq<char>>::empty());
        if plan.hosts.len() == 0 {
            push_text(&mut errors, String::from_str("No target hosts specified"));
        }
        if plan.plays.len() == 0 {
            push_text(&mut warnings, String::from_str("No plays in execution plan"));
        }
        let ghost first_errors = errors.deep_view();
        let ghost first_warnings = warnings.deep_view();
        let mut p: usize = 0;
        while p < plan.plays.len()
            invariant
                p <= plan.plays.len(),
                view == plan.deep_view(),
                errors.deep_view() == first_errors + plays_errors(view.plays, p as int),
                warnings.deep_view() == first_warnings + plays_warnings(view.plays, p as int),
            decreases plan.plays.len() - p,
        {
            self.validate_play(&plan.plays[p], &mut errors, &mut warnings);
            assert(errors.deep_view() =~= first_errors + plays_errors(view.plays, p + 1));
            assert(warnings.deep_view() =~= first_warnings + plays_warnings(view.plays, p + 1));
            p += 1;
        }
        let ghost play_errors = errors.deep_view();
        let ghost play_warnings = warnings.deep_view();
        let mut d: usize = 0;
        while d < plan.binary_deployments.len()
            invariant
                d <= plan.binary_deployments.len(),
                view == plan.deep_view(),
                errors.deep_view() == play_errors + deployments_errors(
                    view.binary_deployments,
                    d as int,
                ),
                warnings.deep_view() == play_warnings + deployments_warnings(
                    view.binary_deployments,
                    d as int,
                ),
            decreases plan.binary_deployments.len() - d,
        {
            self.validate_binary_deployment(
                &plan.binary_deployments[d],
                &mut errors,
                &mut warnings,
            );
            assert(errors.deep_view() =~= play_errors + deployments_errors(
                view.binary_deployments,
                d + 1,
            ));
            assert(warnings.deep_view() =~= play_warnings + deployments_warnings(
                view.binary_deployments,
                d + 1,
            ));
            d += 1;
        }
        assert(errors.deep_view() =~= plan_errors(view));
        assert(warnings.deep_view() =~= plan_warnings(view));
        Ok(ValidationReport { is_valid: errors.len() == 0, errors, warnings })
    }

    /// Appends what is missing in the play.
    pub fn validate_play(&self, play: &PlayPlan, errors: &mut Vec<String>, warnings: &mut Vec<String>)
        ensures
            final(errors).deep_view() == old(errors).deep_view() + play_errors(play.deep_view()),
            final(warnings).deep_view() == old(warnings).deep_view() + play_warnings(
                play.deep_view(),
            ),
    {
        let ghost view = play.deep_view();
        let ghost errors_before = errors.deep_view();
        let ghost warnings_before = warnings.deep_view();
        if play.batches.len() == 0 {
            push_text(
                warnings,
                join3("Play '", play.name.as_str(), "' has no execution batches"),
            );
        }
        let ghost first_warnings = warnings.deep_view();
        let mut b: usize = 0;
        assert(errors.deep_view() =~= errors_before + batches_errors(view.batches, 0));
        assert(warnings.deep_view() =~= first_warnings + batches_warnings(view.batches, 0));
        while b < play.batches.len()
            invariant
                b <= play.batches.len(),
                view == play.deep_view(),
                errors.deep_view() == errors_before + batches_errors(view.batches, b as int),
                warnings.deep_view() == first_warnings + batches_warnings(view.batches, b as int),
            decreases play.batches.len() - b,
        {
            self.validate_batch(&play.batches[b], errors, warnings);
            assert(errors.deep_view() =~= errors_before + batches_errors(view.batches, b + 1));
            assert(warnings.deep_view() =~= first_warnings + batches_warnings(
                view.batches,
                b + 1,
            ));
            b += 1;
        }
        assert(warnings.deep_view() =~= warnings_before + play_warnings(view));
    }

    /// Whether one of the tasks has the id.
    fn batch_has_task(&self, tasks: &Vec<TaskPlan>, task_id: &str) -> (r: bool)
        ensures
            r == has_task(tasks.deep_view(), task_id@),
    {
        let mut i: usize = 0;
        while i < tasks.len()
            invariant
                i <= tasks.len(),
                forall|k: int|
                    0 <= k < i ==> (#[trigger] tasks.deep_view()[k]).task_id != task_id@,
            decreases tasks.len() - i,
        {
            if str_eq(tasks[i].task_id.as_str(), task_id) {
                assert(tasks.deep_view()[i as int].task_id == task_id@);
                return true;
            }
            i += 1;
        }
        false
    }

    /// Appends what is missing in the batch.
    pub fn validate_batch(
        &self,
        batch: &ExecutionBatch,
        errors: &mut Vec<String>,
        warnings: &mut Vec<String>,
    )
        ensures
            final(errors).deep_view() == old(errors).deep_view() + batch_errors(batch.deep_view()),
            final(warnings).deep_view() == old(warnings).deep_view() + batch_warnings(
                batch.deep_view(),
            ),
    {
        let ghost view = batch.deep_view();
        let ghost errors_before = errors.deep_view();
        let ghost warnings_before = warnings.deep_view();
        if batch.tasks.len() == 0 {
            push_text(warnings, join3("Batch '", batch.batch_id.as_str(), "' has no tasks"));
        }
        if batch.hosts.len() == 0 {
            push_text(errors, join3("Batch '", batch.batch_id.as_str(), "' has no target hosts"));
        }
        assert(errors.deep_view() =~= errors_before + batch_errors(view));
        let ghost first_warnings = warnings.deep_view();
        let mut t: usize = 0;
        assert(warnings.deep_view() =~= first_warnings + task_warnings(view, 0));
        while t < batch.tasks.len()
            invariant
                t <= batch.tasks.len(),
                view == batch.deep_view(),
                warnings.deep_view() == first_warnings + task_warnings(view, t as int),
            decreases batch.tasks.len() - t,
        {
            let task = &batch.tasks[t];
            let ghost task_view = view.tasks[t as int];
            let ghost before_task = warnings.deep_view();
            let mut d: usize = 0;
            assert(warnings.deep_view() =~= before_task + dependency_warnings(view, task_view, 0));
            while d < task.dependencies.len()
                invariant
                    t < batch.tasks.len(),
                    d <= task.dependencies.len(),
                    view == batch.deep_view(),
                    task.deep_view() == task_view,
                    task_view == view.tasks[t as int],
                    warnings.deep_view() == before_task + dependency_warnings(
                        view,
                        task_view,
                        d as int,
                    ),
                decreases task.dependencies.len() - d,
            {
                let dependency = task.dependencies[d].as_str();
                if !self.batch_has_task(&batch.tasks, dependency) {
                    let message = String::from_str("Task '").concat(task.task_id.as_str()).concat(
                        "' depends on '",
                    ).concat(dependency).concat("' which is not in the same batch");
                    push_text(warnings, message);
                }
                assert(warnings.deep_view() =~= before_task + dependency_warnings(
                    view,
                    task_view,
                    d + 1,
                ));
                d += 1;
            }
            assert(warnings.deep_view() =~= first_warnings + task_warnings(view, t + 1));
            t += 1;
        }
        assert(warnings.deep_view() =~= warnings_before + batch_warnings(view));
    }

    /// Appends what is missing in the binary.
    pub fn validate_binary_deployment(
        &self,
        deployment: &BinaryDeployment,
        errors: &mut Vec<String>,
        warnings: &mut Vec<String>,
    )
        ensures
            final(errors).deep_view() == old(errors).deep_view() + deployment_errors(
                deployment.deep_view(),
            ),
            final(warnings).deep_view() == old(warnings).deep_view() + deployment_warnings(
                deployment.deep_view(),
            ),
    {
        let ghost view = deployment.deep_view();
        let ghost errors_before = errors.deep_view();
        let ghost warnings_before = warnings.deep_view();
        let id = deployment.deployment_id.as_str();
        if deployment.target_hosts.len() == 0 {
            push_text(errors, join3("Binary deployment '", id, "' has no target hosts"));
        }
        assert(errors.deep_view() =~= errors_before + deployment_errors(view));
        if deployment.tasks.len() == 0 {
            push_text(warnings, join3("Binary deployment '", id, "' has no tasks"));
        }
        if deployment.estimated_size == 0 {
            push_text(warnings, join3("Binary deployment '", id, "' has zero estimated size"));
        }
        if deployment.compilation_requirements.rust_version.as_str().is_empty() {
            push_text(warnings, join3("Binary deployment '", id, "' has no Rust version specified"));
        }
        assert(warnings.deep_view() =~= warnings_before + deployment_warnings(view));
    }
}

impl Default for PlanValidator {
    fn default() -> (r: Self) {
        PlanValidator
    }
}

} // verus!

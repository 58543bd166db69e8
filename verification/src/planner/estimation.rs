//! How long tasks, batches, plays and plans are expected to take.
//! All durations are in nanoseconds.

use vstd::prelude::*;
use crate::numbers::{
    greatest, lemma_greatest_bounds, lemma_greatest_step, lemma_total_prefix, lemma_total_step,
    total,
};
use crate::planner::error::PlanError;
use crate::text::{contains_string, str_eq};
use crate::types::parsed::{
    contains_key, find_text, has_key, lookup_text, ParsedTask, ParsedTaskView,
};
use crate::types::plan::{
    ExecutionBatch, ExecutionBatchView, ExecutionPlan, ParallelGroup, ParallelGroupView,
    PlayPlan, PlayPlanView, TaskPlan, TaskPlanView,
};
use crate::types::strategy::ExecutionStrategy;

verus! {

pub const NANOS_PER_MILLI: u128 = 1_000_000;

pub const NANOS_PER_SECOND: u128 = 1_000_000_000;

/// What it costs to upload and start a binary.
pub const BINARY_OVERHEAD_NANOS: u128 = 10_000_000_000;

/// The expected duration of a module's work on plain arguments.
pub open spec fn base_duration(module: Seq<char>) -> nat {
    if module == "debug"@ || module == "assert"@ || module == "fail"@ || module == "meta"@ {
        100 * NANOS_PER_MILLI as nat
    } else if module == "file"@ || module == "lineinfile"@ || module == "cron"@ {
        NANOS_PER_SECOND as nat
    } else if module == "copy"@ || module == "template"@ || module == "user"@ || module
        == "group"@ {
        2 * NANOS_PER_SECOND as nat
    } else if module == "shell"@ || module == "command"@ || module == "raw"@ {
        3 * NANOS_PER_SECOND as nat
    } else if module == "package"@ || module == "yum"@ || module == "apt"@ {
        30 * NANOS_PER_SECOND as nat
    } else {
        5 * NANOS_PER_SECOND as nat
    }
}

/// The factor for the number of arguments, in tenths.
pub open spec fn argument_factor(count: nat) -> nat {
    if count > 10 {
        15
    } else if count > 5 {
        12
    } else {
        10
    }
}

/// The factor for what the module does with its arguments, in tenths.
pub open spec fn module_factor(task: ParsedTaskView) -> nat {
    let module = task.module;
    if module == "shell"@ || module == "command"@ || module == "raw"@ {
        15
    } else if module == "package"@ {
        let state = lookup_text(task.args, "state"@);
        if state == Some("present"@) || state == Some("latest"@) {
            20
        } else {
            10
        }
    } else if module == "copy"@ || module == "template"@ {
        if has_key(task.args, "backup"@) {
            13
        } else {
            10
        }
    } else {
        10
    }
}

/// The complexity multiplier of a task, in ten-thousandths: the product of
/// the factors for its arguments, its condition, its notifications and its
/// module.
pub open spec fn complexity_multiplier(task: ParsedTaskView) -> nat {
    argument_factor(task.args.len()) * (if task.when is Some {
        11nat
    } else {
        10nat
    }) * (if task.notify.len() > 0 {
        11nat
    } else {
        10nat
    }) * module_factor(task)
}

/// The expected duration of a task: its module's base duration times its
/// complexity multiplier, rounded down to a nanosecond.
pub open spec fn task_duration(task: ParsedTaskView) -> nat {
    base_duration(task.module) * complexity_multiplier(task) / 10_000
}

/// The estimate of a planned task, zero where it has none.
pub open spec fn planned_duration(task: TaskPlanView) -> nat {
    match task.estimated_duration {
        Some(d) => d as nat,
        None => 0,
    }
}

/// The estimates of the tasks, in their order.
pub open spec fn planned_durations(tasks: Seq<TaskPlanView>) -> Seq<nat> {
    tasks.map_values(|t: TaskPlanView| planned_duration(t))
}

/// Whether some parallel group names the task id.
pub open spec fn in_some_group(groups: Seq<ParallelGroupView>, task_id: Seq<char>) -> bool {
    exists|g: int| 0 <= g < groups.len() && (#[trigger] groups[g]).tasks.contains(task_id)
}

/// The estimate of the first task with the given id, zero where there is no
/// such task or it has no estimate.
pub open spec fn duration_by_id(tasks: Seq<TaskPlanView>, task_id: Seq<char>) -> nat
    decreases tasks.len(),
{
    if tasks.len() == 0 {
        0
    } else if tasks[0].task_id == task_id {
        planned_duration(tasks[0])
    } else {
        duration_by_id(tasks.skip(1), task_id)
    }
}

/// The longest estimate among the tasks that a group names.
pub open spec fn group_duration(tasks: Seq<TaskPlanView>, group: ParallelGroupView) -> nat {
    greatest(group.tasks.map_values(|id: Seq<char>| duration_by_id(tasks, id)))
}

/// The longest of the groups' durations.
pub open spec fn parallel_duration(batch: ExecutionBatchView) -> nat {
    greatest(
        batch.parallel_groups.map_values(|g: ParallelGroupView| group_duration(batch.tasks, g)),
    )
}

/// The estimates of the tasks that no group names, zero in place of the
/// others.
pub open spec fn sequential_durations(batch: ExecutionBatchView) -> Seq<nat> {
    batch.tasks.map_values(
        |t: TaskPlanView|
            if in_some_group(batch.parallel_groups, t.task_id) {
                0nat
            } else {
                planned_duration(t)
            },
    )
}

/// The expected duration of a batch: its parallel groups run side by side,
/// each as long as its longest task, and the tasks outside them one after
/// another.
pub open spec fn batch_duration(batch: ExecutionBatchView) -> nat {
    parallel_duration(batch) + total(sequential_durations(batch))
}

/// The durations of the batches, in their order.
pub open spec fn batch_durations(batches: Seq<ExecutionBatchView>) -> Seq<nat> {
    batches.map_values(|b: ExecutionBatchView| batch_duration(b))
}

/// The expected duration of a play under its strategy.
pub open spec fn play_duration(play: PlayPlanView) -> nat {
    let durations = batch_durations(play.batches);
    match play.strategy {
        ExecutionStrategy::Free => greatest(durations),
        ExecutionStrategy::Rolling { .. } => total(durations) * 8 / 10,
        ExecutionStrategy::BinaryHybrid | ExecutionStrategy::BinaryOnly => BINARY_OVERHEAD_NANOS as nat
            + total(durations) * 3 / 10,
        _ => total(durations),
    }
}

/// The largest number that computing `play_duration` passes through.
pub open spec fn play_duration_peak(play: PlayPlanView) -> nat {
    let durations = batch_durations(play.batches);
    match play.strategy {
        ExecutionStrategy::Free => greatest(durations),
        ExecutionStrategy::Rolling { .. } => total(durations) * 8,
        ExecutionStrategy::BinaryHybrid | ExecutionStrategy::BinaryOnly => BINARY_OVERHEAD_NANOS as nat
            + total(durations) * 3,
        _ => total(durations),
    }
}

/// The durations of the plays, in their order.
pub open spec fn play_durations(plays: Seq<PlayPlanView>) -> Seq<nat> {
    plays.map_values(|p: PlayPlanView| play_duration(p))
}

/// The peaks of the plays, in their order.
pub open spec fn play_duration_peaks(plays: Seq<PlayPlanView>) -> Seq<nat> {
    plays.map_values(|p: PlayPlanView| play_duration_peak(p))
}

/// The expected duration of the plays, one after another.
pub open spec fn plays_duration(plays: Seq<PlayPlanView>) -> nat {
    total(play_durations(plays))
}

pub struct TaskEstimator {}

impl TaskEstimator {
    pub fn new() -> (r: Self) {
        TaskEstimator {  }
    }

    /// The base duration of a module.
    pub fn base_duration_of(&self, module: &str) -> (r: u128)
        ensures
            r == base_duration(module@),
            r <= 30 * NANOS_PER_SECOND,
    {
        if str_eq(module, "debug") || str_eq(module, "assert") || str_eq(module, "fail") || str_eq(
            module,
            "meta",
        ) {
            100 * NANOS_PER_MILLI
        } else if str_eq(module, "file") || str_eq(module, "lineinfile") || str_eq(module, "cron") {
            NANOS_PER_SECOND
        } else if str_eq(module, "copy") || str_eq(module, "template") || str_eq(module, "user")
            || str_eq(module, "group") {
            2 * NANOS_PER_SECOND
        } else if str_eq(module, "shell") || str_eq(module, "command") || str_eq(module, "raw") {
            3 * NANOS_PER_SECOND
        } else if str_eq(module, "package") || str_eq(module, "yum") || str_eq(module, "apt") {
            30 * NANOS_PER_SECOND
        } else {
            5 * NANOS_PER_SECOND
        }
    }

    /// The complexity multiplier of a task, in ten-thousandths.
    pub fn calculate_complexity_multiplier(&self, task: &ParsedTask) -> (r: u128)
        ensures
            r == complexity_multiplier(task.deep_view()),
            10_000 <= r <= 36_300,
    {
        let count = task.args.len();
        let arguments: u128 = if count > 10 {
            15
        } else if count > 5 {
            12
        } else {
            10
        };
        let condition: u128 = if task.when.is_some() {
            11
        } else {
            10
        };
        let notifications: u128 = if task.notify.len() > 0 {
            11
        } else {
            10
        };
        let module = task.module.as_str();
        let by_module: u128 = if str_eq(module, "shell") || str_eq(module, "command") || str_eq(
            module,
            "raw",
        ) {
            15
        } else if str_eq(module, "package") {
            match find_text(&task.args, "state") {
                Some(state) => {
                    if str_eq(state.as_str(), "present") || str_eq(state.as_str(), "latest") {
                        20
                    } else {
                        10
                    }
                },
                None => 10,
            }
        } else if str_eq(module, "copy") || str_eq(module, "template") {
            if contains_key(&task.args, "backup") {
                13
            } else {
                10
            }
        } else {
            10
        };
        assert(arguments == argument_factor(task.deep_view().args.len()));
        assert(by_module == module_factor(task.deep_view()));
        assert(10_000 <= arguments * condition * notifications * by_module <= 36_300)
            by (nonlinear_arith)
            requires
                10 <= arguments <= 15,
                10 <= condition <= 11,
                10 <= notifications <= 11,
                10 <= by_module <= 20,
        ;
        arguments * condition * notifications * by_module
    }

    /// The expected duration of a task.
    pub fn estimate_task_duration(&self, task: &ParsedTask) -> (r: Option<u128>)
        ensures
            r == Some(task_duration(task.deep_view()) as u128),
            task_duration(task.deep_view()) <= 108_900_000_000,
    {
        let base = self.base_duration_of(task.module.as_str());
        let multiplier = self.calculate_complexity_multiplier(task);
        assert(base * multiplier <= 30 * NANOS_PER_SECOND * 36_300) by (nonlinear_arith)
            requires
                base <= 30 * NANOS_PER_SECOND,
                multiplier <= 36_300,
        ;
        Some(base * multiplier / 10_000)
    }

    /// The estimate of the first task of `tasks` with the given id.
    pub fn duration_of_task(&self, tasks: &Vec<TaskPlan>, task_id: &str) -> (r: u128)
        ensures
            r == duration_by_id(tasks.deep_view(), task_id@),
    {
        let mut i: usize = 0;
        assert(tasks.deep_view().skip(0) =~= tasks.deep_view());
        while i < tasks.len()
            invariant
                i <= tasks.len(),
                duration_by_id(tasks.deep_view(), task_id@) == duration_by_id(
                    tasks.deep_view().skip(i as int),
                    task_id@,
                ),
            decreases tasks.len() - i,
        {
            assert(tasks.deep_view().skip(i as int)[0] == tasks.deep_view()[i as int]);
            assert(tasks.deep_view().skip(i as int).skip(1) =~= tasks.deep_view().skip(i + 1));
            if str_eq(tasks[i].task_id.as_str(), task_id) {
                return match tasks[i].estimated_duration {
                    Some(d) => d,
                    None => 0,
                };
            }
            i += 1;
        }
        0
    }

    /// The longest estimate among the tasks that `group` names.
    pub fn estimate_group_duration(&self, tasks: &Vec<TaskPlan>, group: &ParallelGroup) -> (r: u128)
        ensures
            r == group_duration(tasks.deep_view(), group.deep_view()),
    {
        let ghost all = group.deep_view().tasks.map_values(
            |id: Seq<char>| duration_by_id(tasks.deep_view(), id),
        );
        let mut longest: u128 = 0;
        let mut i: usize = 0;
        assert(all.take(0) =~= Seq::<nat>::empty());
        while i < group.tasks.len()
            invariant
                i <= group.tasks.len(),
                all == group.deep_view().tasks.map_values(
                    |id: Seq<char>| duration_by_id(tasks.deep_view(), id),
                ),
                longest == greatest(all.take(i as int)),
            decreases group.tasks.len() - i,
        {
            let d = self.duration_of_task(tasks, group.tasks[i].as_str());
            proof {
                lemma_greatest_step(all, i as int);
            }
            if d > longest {
                longest = d;
            }
            i += 1;
        }
        assert(all.take(group.tasks.len() as int) =~= all);
        longest
    }

    /// Whether some group of `groups` names `task_id`.
    pub fn named_by_group(&self, groups: &Vec<ParallelGroup>, task_id: &str) -> (r: bool)
        ensures
            r == in_some_group(groups.deep_view(), task_id@),
    {
        let mut g: usize = 0;
        while g < groups.len()
            invariant
                g <= groups.len(),
                forall|k: int| 0 <= k < g ==> !(#[trigger] groups.deep_view()[k]).tasks.contains(
                    task_id@,
                ),
            decreases groups.len() - g,
        {
            if contains_string(&groups[g].tasks, task_id) {
                assert(groups.deep_view()[g as int].tasks.contains(task_id@));
                return true;
            }
            g += 1;
        }
        false
    }

    /// The expected duration of a batch.
    pub fn estimate_batch_duration(&self, batch: &ExecutionBatch) -> (r: Result<u128, PlanError>)
        requires
            batch_duration(batch.deep_view()) <= u128::MAX,
        ensures
            r matches Ok(d) && d == batch_duration(batch.deep_view()),
    {
        let ghost view = batch.deep_view();
        let ghost groups = view.parallel_groups.map_values(
            |g: ParallelGroupView| group_duration(view.tasks, g),
        );
        let mut parallel: u128 = 0;
        let mut g: usize = 0;
        assert(groups.take(0) =~= Seq::<nat>::empty());
        while g < batch.parallel_groups.len()
            invariant
                g <= batch.parallel_groups.len(),
                view == batch.deep_view(),
                groups == view.parallel_groups.map_values(
                    |g: ParallelGroupView| group_duration(view.tasks, g),
                ),
                parallel == greatest(groups.take(g as int)),
            decreases batch.parallel_groups.len() - g,
        {
            let d = self.estimate_group_duration(&batch.tasks, &batch.parallel_groups[g]);
            proof {
                lemma_greatest_step(groups, g as int);
            }
            if d > parallel {
                parallel = d;
            }
            g += 1;
        }
        assert(groups.take(batch.parallel_groups.len() as int) =~= groups);
        let ghost parts = sequential_durations(view);
        let mut sequential: u128 = 0;
        let mut i: usize = 0;
        assert(parts.take(0) =~= Seq::<nat>::empty());
        while i < batch.tasks.len()
            invariant
                i <= batch.tasks.len(),
                view == batch.deep_view(),
                parts == sequential_durations(view),
                total(parts) <= u128::MAX,
                sequential == total(parts.take(i as int)),
            decreases batch.tasks.len() - i,
        {
            let task = &batch.tasks[i];
            proof {
                lemma_total_step(parts, i as int);
                lemma_total_prefix(parts, i + 1);
            }
            if !self.named_by_group(&batch.parallel_groups, task.task_id.as_str()) {
                match task.estimated_duration {
                    Some(d) => {
                        sequential = sequential + d;
                    },
                    None => {},
                }
            }
            i += 1;
        }
        assert(parts.take(batch.tasks.len() as int) =~= parts);
        Ok(parallel + sequential)
    }

    /// The sum of the durations of the batches.
    pub fn sum_of_batches(&self, batches: &Vec<ExecutionBatch>) -> (r: u128)
        requires
            total(batch_durations(batches.deep_view())) <= u128::MAX,
        ensures
            r == total(batch_durations(batches.deep_view())),
    {
        let ghost all = batch_durations(batches.deep_view());
        let mut sum: u128 = 0;
        let mut i: usize = 0;
        assert(all.take(0) =~= Seq::<nat>::empty());
        while i < batches.len()
            invariant
                i <= batches.len(),
                all == batch_durations(batches.deep_view()),
                total(all) <= u128::MAX,
                sum == total(all.take(i as int)),
            decreases batches.len() - i,
        {
            proof {
                lemma_total_step(all, i as int);
                lemma_total_prefix(all, i + 1);
            }
            let d = match self.estimate_batch_duration(&batches[i]) {
                Ok(d) => d,
                Err(_) => 0,
            };
            sum = sum + d;
            i += 1;
        }
        assert(all.take(batches.len() as int) =~= all);
        sum
    }

    /// The longest of the durations of the batches.
    pub fn longest_batch(&self, batches: &Vec<ExecutionBatch>) -> (r: u128)
        requires
            greatest(batch_durations(batches.deep_view())) <= u128::MAX,
        ensures
            r == greatest(batch_durations(batches.deep_view())),
    {
        let ghost all = batch_durations(batches.deep_view());
        let mut longest: u128 = 0;
        let mut i: usize = 0;
        proof {
            assert(all.take(0) =~= Seq::<nat>::empty());
            lemma_greatest_bounds(all);
        }
        while i < batches.len()
            invariant
                i <= batches.len(),
                all == batch_durations(batches.deep_view()),
                forall|k: int| 0 <= k < all.len() ==> all[k] <= u128::MAX,
                longest == greatest(all.take(i as int)),
            decreases batches.len() - i,
        {
            proof {
                lemma_greatest_step(all, i as int);
            }
            let d = match self.estimate_batch_duration(&batches[i]) {
                Ok(d) => d,
                Err(_) => 0,
            };
            if d > longest {
                longest = d;
            }
            i += 1;
        }
        assert(all.take(batches.len() as int) =~= all);
        longest
    }

    /// The expected duration of a play under its strategy: its batches one
    /// after another; the longest batch under the free strategy; four
    /// fifths of the sum under the rolling strategy; ten seconds and three
    /// tenths of the sum under the binary strategies.
    pub fn estimate_play_duration(&self, play: &PlayPlan) -> (r: Result<u128, PlanError>)
        requires
            play_duration_peak(play.deep_view()) <= u128::MAX,
        ensures
            r matches Ok(d) && d == play_duration(play.deep_view()),
    {
        match play.strategy {
            ExecutionStrategy::Free => Ok(self.longest_batch(&play.batches)),
            ExecutionStrategy::Rolling { .. } => Ok(self.sum_of_batches(&play.batches) * 8 / 10),
            ExecutionStrategy::BinaryHybrid | ExecutionStrategy::BinaryOnly => Ok(
                BINARY_OVERHEAD_NANOS + self.sum_of_batches(&play.batches) * 3 / 10,
            ),
            _ => Ok(self.sum_of_batches(&play.batches)),
        }
    }

    /// The expected duration of the plays, one after another.
    pub fn estimate_plays_duration(&self, plays: &Vec<PlayPlan>) -> (r: Result<u128, PlanError>)
        requires
            total(play_duration_peaks(plays.deep_view())) <= u128::MAX,
        ensures
            r matches Ok(d) && d == plays_duration(plays.deep_view()),
    {
        let ghost all = play_durations(plays.deep_view());
        let ghost peaks = play_duration_peaks(plays.deep_view());
        let mut sum: u128 = 0;
        let mut i: usize = 0;
        assert(all.take(0) =~= Seq::<nat>::empty());
        assert(peaks.take(0) =~= Seq::<nat>::empty());
        while i < plays.len()
            invariant
                i <= plays.len(),
                all == play_durations(plays.deep_view()),
                peaks == play_duration_peaks(plays.deep_view()),
                total(peaks) <= u128::MAX,
                sum == total(all.take(i as int)),
                sum <= total(peaks.take(i as int)),
            decreases plays.len() - i,
        {
            proof {
                lemma_total_step(all, i as int);
                lemma_total_step(peaks, i as int);
                lemma_total_prefix(peaks, i + 1);
                lemma_peak_bounds(plays.deep_view()[i as int]);
            }
            let d = match self.estimate_play_duration(&plays[i]) {
                Ok(d) => d,
                Err(_) => 0,
            };
            sum = sum + d;
            i += 1;
        }
        assert(all.take(plays.len() as int) =~= all);
        Ok(sum)
    }

    /// The expected duration of a plan: that of its plays, one after another.
    pub fn estimate_plan_duration(&self, plan: &ExecutionPlan) -> (r: Result<u128, PlanError>)
        requires
            total(play_duration_peaks(plan.deep_view().plays)) <= u128::MAX,
        ensures
            r matches Ok(d) && d == plays_duration(plan.deep_view().plays),
    {
        self.estimate_plays_duration(&plan.plays)
    }
}

/// The duration of a play is at most its peak.
pub proof fn lemma_peak_bounds(play: PlayPlanView)
    ensures
        play_duration(play) <= play_duration_peak(play),
{
}

impl Default for TaskEstimator {
    fn default() -> (r: Self) {
        TaskEstimator {  }
    }
}

} // verus!

//! Playbooks, inventories and plans, each with the mathematical value that
//! the contracts speak of.

use vstd::prelude::*;
use crate::text::clone_strings;
use crate::types::strategy::ExecutionStrategy;

verus! {

/// The value of an argument or a variable. What planning reads of a value is
/// whether it is a string and, if so, which; any other value is carried along
/// as its JSON text.
#[derive(Debug)]
pub enum ArgValue {
    Text(String),
    Json(String),
}

pub enum ArgValueView {
    Text(Seq<char>),
    Json(Seq<char>),
}

impl DeepView for ArgValue {
    type V = ArgValueView;

    open spec fn deep_view(&self) -> ArgValueView {
        match self {
            ArgValue::Text(s) => ArgValueView::Text(s@),
            ArgValue::Json(s) => ArgValueView::Json(s@),
        }
    }
}

impl Clone for ArgValue {
    fn clone(&self) -> (r: Self)
        ensures
            r.deep_view() == self.deep_view(),
    {
        match self {
            ArgValue::Text(s) => ArgValue::Text(s.clone()),
            ArgValue::Json(s) => ArgValue::Json(s.clone()),
        }
    }
}

/// One entry of an argument map or a variable bag. A key is looked up from
/// the front, so the first entry under a key is the one that counts.
#[derive(Debug)]
pub struct KeyValue {
    pub key: String,
    pub value: ArgValue,
}

pub struct KeyValueView {
    pub key: Seq<char>,
    pub value: ArgValueView,
}

impl DeepView for KeyValue {
    type V = KeyValueView;

    open spec fn deep_view(&self) -> KeyValueView {
        KeyValueView { key: self.key@, value: self.value.deep_view() }
    }
}

impl Clone for KeyValue {
    fn clone(&self) -> (r: Self)
        ensures
            r.deep_view() == self.deep_view(),
    {
        KeyValue { key: self.key.clone(), value: self.value.clone() }
    }
}

/// A copy of a list of entries.
pub fn clone_entries(list: &Vec<KeyValue>) -> (r: Vec<KeyValue>)
    ensures
        r.deep_view() == list.deep_view(),
{
    let r = list.clone();
    assert(r.deep_view() =~= list.deep_view());
    r
}

/// A point in time: seconds since the Unix epoch and the nanoseconds within
/// that second.
#[derive(Debug, Clone, Copy, PartialEq, Eq, Structural)]
pub struct Timestamp {
    pub secs: i64,
    pub nanos: u32,
}

/// A score as an exact fraction. The denominator of a score that planning
/// computes is never zero.
#[derive(Debug, Clone, Copy, PartialEq, Eq, Structural)]
pub struct Ratio {
    pub numerator: u128,
    pub denominator: u128,
}

#[derive(Debug, Clone, Copy, PartialEq, Eq, PartialOrd, Ord, Hash, Structural)]
pub enum RiskLevel {
    /// Read-only operations.
    Low,
    /// File modifications.
    Medium,
    /// Service restarts, system changes.
    High,
    /// Destructive operations.
    Critical,
}

impl Default for RiskLevel {
    fn default() -> (r: Self)
        ensures
            r == RiskLevel::Low,
    {
        RiskLevel::Low
    }
}

impl RiskLevel {
    /// The place of a level in the order Low < Medium < High < Critical.
    pub open spec fn spec_rank(self) -> u8 {
        match self {
            RiskLevel::Low => 0,
            RiskLevel::Medium => 1,
            RiskLevel::High => 2,
            RiskLevel::Critical => 3,
        }
    }

    #[verifier::when_used_as_spec(spec_rank)]
    pub fn rank(self) -> (r: u8)
        ensures
            r == self.spec_rank(),
    {
        match self {
            RiskLevel::Low => 0,
            RiskLevel::Medium => 1,
            RiskLevel::High => 2,
            RiskLevel::Critical => 3,
        }
    }
}

#[derive(Debug, Clone, Copy, PartialEq, Eq, Structural)]
pub enum BinaryExecutionMode {
    /// The binary runs independently.
    Standalone,
    /// The binary reports back to the controller.
    Controller,
    /// The binary handles some tasks, remote commands the others.
    Hybrid,
}

#[derive(Debug, Clone, Copy, PartialEq, Eq, Structural)]
pub enum DependencyType {
    Explicit,
    FileOutput,
    ServicePackage,
    ImplicitOrder,
}

#[derive(Debug)]
pub enum ExecutionCondition {
    When { expression: String },
    Tag { tags: Vec<String> },
    Host { pattern: String },
    SkipTag { tags: Vec<String> },
    CheckMode { enabled: bool },
}

pub enum ExecutionConditionView {
    When { expression: Seq<char> },
    Tag { tags: Seq<Seq<char>> },
    Host { pattern: Seq<char> },
    SkipTag { tags: Seq<Seq<char>> },
    CheckMode { enabled: bool },
}

impl DeepView for ExecutionCondition {
    type V = ExecutionConditionView;

    open spec fn deep_view(&self) -> ExecutionConditionView {
        match self {
            ExecutionCondition::When { expression } => ExecutionConditionView::When {
                expression: expression@,
            },
            ExecutionCondition::Tag { tags } => ExecutionConditionView::Tag {
                tags: tags.deep_view(),
            },
            ExecutionCondition::Host { pattern } => ExecutionConditionView::Host {
                pattern: pattern@,
            },
            ExecutionCondition::SkipTag { tags } => ExecutionConditionView::SkipTag {
                tags: tags.deep_view(),
            },
            ExecutionCondition::CheckMode { enabled } => ExecutionConditionView::CheckMode {
                enabled: *enabled,
            },
        }
    }
}

impl Clone for ExecutionCondition {
    fn clone(&self) -> (r: Self)
        ensures
            r.deep_view() == self.deep_view(),
    {
        match self {
            ExecutionCondition::When { expression } => ExecutionCondition::When {
                expression: expression.clone(),
            },
            ExecutionCondition::Tag { tags } => ExecutionCondition::Tag {
                tags: clone_strings(tags),
            },
            ExecutionCondition::Host { pattern } => ExecutionCondition::Host {
                pattern: pattern.clone(),
            },
            ExecutionCondition::SkipTag { tags } => ExecutionCondition::SkipTag {
                tags: clone_strings(tags),
            },
            ExecutionCondition::CheckMode { enabled } => ExecutionCondition::CheckMode {
                enabled: *enabled,
            },
        }
    }
}

/// A copy of a list of conditions.
pub fn clone_conditions(list: &Vec<ExecutionCondition>) -> (r: Vec<ExecutionCondition>)
    ensures
        r.deep_view() == list.deep_view(),
{
    let r = list.clone();
    assert(r.deep_view() =~= list.deep_view());
    r
}

/// A task as planned. Durations are in nanoseconds.
#[derive(Debug)]
pub struct TaskPlan {
    pub task_id: String,
    pub name: String,
    pub module: String,
    pub args: Vec<KeyValue>,
    pub hosts: Vec<String>,
    pub dependencies: Vec<String>,
    pub conditions: Vec<ExecutionCondition>,
    pub tags: Vec<String>,
    pub notify: Vec<String>,
    pub execution_order: u32,
    pub can_run_parallel: bool,
    pub estimated_duration: Option<u128>,
    pub risk_level: RiskLevel,
}

pub struct TaskPlanView {
    pub task_id: Seq<char>,
    pub name: Seq<char>,
    pub module: Seq<char>,
    pub args: Seq<KeyValueView>,
    pub hosts: Seq<Seq<char>>,
    pub dependencies: Seq<Seq<char>>,
    pub conditions: Seq<ExecutionConditionView>,
    pub tags: Seq<Seq<char>>,
    pub notify: Seq<Seq<char>>,
    pub execution_order: u32,
    pub can_run_parallel: bool,
    pub estimated_duration: Option<u128>,
    pub risk_level: RiskLevel,
}

impl DeepView for TaskPlan {
    type V = TaskPlanView;

    open spec fn deep_view(&self) -> TaskPlanView {
        TaskPlanView {
            task_id: self.task_id@,
            name: self.name@,
            module: self.module@,
            args: self.args.deep_view(),
            hosts: self.hosts.deep_view(),
            dependencies: self.dependencies.deep_view(),
            conditions: self.conditions.deep_view(),
            tags: self.tags.deep_view(),
            notify: self.notify.deep_view(),
            execution_order: self.execution_order,
            can_run_parallel: self.can_run_parallel,
            estimated_duration: self.estimated_duration,
            risk_level: self.risk_level,
        }
    }
}

impl TaskPlanView {
    /// The same task on another list of hosts.
    pub open spec fn on_hosts(self, hosts: Seq<Seq<char>>) -> TaskPlanView {
        TaskPlanView { hosts, ..self }
    }
}

impl Clone for TaskPlan {
    fn clone(&self) -> (r: Self)
        ensures
            r.deep_view() == self.deep_view(),
    {
        TaskPlan {
            task_id: self.task_id.clone(),
            name: self.name.clone(),
            module: self.module.clone(),
            args: clone_entries(&self.args),
            hosts: clone_strings(&self.hosts),
            dependencies: clone_strings(&self.dependencies),
            conditions: clone_conditions(&self.conditions),
            tags: clone_strings(&self.tags),
            notify: clone_strings(&self.notify),
            execution_order: self.execution_order,
            can_run_parallel: self.can_run_parallel,
            estimated_duration: self.estimated_duration,
            risk_level: self.risk_level,
        }
    }
}

impl TaskPlan {
    /// A copy of the task that runs on `hosts`.
    pub fn clone_on_hosts(&self, hosts: &Vec<String>) -> (r: TaskPlan)
        ensures
            r.deep_view() == self.deep_view().on_hosts(hosts.deep_view()),
    {
        let mut copy = self.clone();
        copy.hosts = clone_strings(hosts);
        copy
    }
}

/// A copy of a list of tasks.
pub fn clone_tasks(list: &Vec<TaskPlan>) -> (r: Vec<TaskPlan>)
    ensures
        r.deep_view() == list.deep_view(),
{
    let r = list.clone();
    assert(r.deep_view() =~= list.deep_view());
    r
}

/// Tasks of one batch that may run side by side.
#[derive(Debug)]
pub struct ParallelGroup {
    pub group_id: String,
    pub tasks: Vec<String>,
    pub max_parallelism: u32,
    pub shared_resources: Vec<String>,
}

pub struct ParallelGroupView {
    pub group_id: Seq<char>,
    pub tasks: Seq<Seq<char>>,
    pub max_parallelism: u32,
    pub shared_resources: Seq<Seq<char>>,
}

impl DeepView for ParallelGroup {
    type V = ParallelGroupView;

    open spec fn deep_view(&self) -> ParallelGroupView {
        ParallelGroupView {
            group_id: self.group_id@,
            tasks: self.tasks.deep_view(),
            max_parallelism: self.max_parallelism,
            shared_resources: self.shared_resources.deep_view(),
        }
    }
}

impl Clone for ParallelGroup {
    fn clone(&self) -> (r: Self)
        ensures
            r.deep_view() == self.deep_view(),
    {
        ParallelGroup {
            group_id: self.group_id.clone(),
            tasks: clone_strings(&self.tasks),
            max_parallelism: self.max_parallelism,
            shared_resources: clone_strings(&self.shared_resources),
        }
    }
}

/// Tasks that are handed out together to a list of hosts.
#[derive(Debug)]
pub struct ExecutionBatch {
    pub batch_id: String,
    pub hosts: Vec<String>,
    pub tasks: Vec<TaskPlan>,
    pub parallel_groups: Vec<ParallelGroup>,
    pub dependencies: Vec<String>,
    pub estimated_duration: Option<u128>,
}

pub struct ExecutionBatchView {
    pub batch_id: Seq<char>,
    pub hosts: Seq<Seq<char>>,
    pub tasks: Seq<TaskPlanView>,
    pub parallel_groups: Seq<ParallelGroupView>,
    pub dependencies: Seq<Seq<char>>,
    pub estimated_duration: Option<u128>,
}

impl DeepView for ExecutionBatch {
    type V = ExecutionBatchView;

    open spec fn deep_view(&self) -> ExecutionBatchView {
        ExecutionBatchView {
            batch_id: self.batch_id@,
            hosts: self.hosts.deep_view(),
            tasks: self.tasks.deep_view(),
            parallel_groups: self.parallel_groups.deep_view(),
            dependencies: self.dependencies.deep_view(),
            estimated_duration: self.estimated_duration,
        }
    }
}

impl Clone for ExecutionBatch {
    fn clone(&self) -> (r: Self)
        ensures
            r.deep_view() == self.deep_view(),
    {
        let parallel_groups = self.parallel_groups.clone();
        assert(parallel_groups.deep_view() =~= self.parallel_groups.deep_view());
        ExecutionBatch {
            batch_id: self.batch_id.clone(),
            hosts: clone_strings(&self.hosts),
            tasks: clone_tasks(&self.tasks),
            parallel_groups,
            dependencies: clone_strings(&self.dependencies),
            estimated_duration: self.estimated_duration,
        }
    }
}

/// A handler as planned.
#[derive(Debug)]
pub struct HandlerPlan {
    pub handler_id: String,
    pub name: String,
    pub module: String,
    pub args: Vec<KeyValue>,
    pub conditions: Vec<ExecutionCondition>,
    pub execution_order: u32,
}

pub struct HandlerPlanView {
    pub handler_id: Seq<char>,
    pub name: Seq<char>,
    pub module: Seq<char>,
    pub args: Seq<KeyValueView>,
    pub conditions: Seq<ExecutionConditionView>,
    pub execution_order: u32,
}

impl DeepView for HandlerPlan {
    type V = HandlerPlanView;

    open spec fn deep_view(&self) -> HandlerPlanView {
        HandlerPlanView {
            handler_id: self.handler_id@,
            name: self.name@,
            module: self.module@,
            args: self.args.deep_view(),
            conditions: self.conditions.deep_view(),
            execution_order: self.execution_order,
        }
    }
}

impl Clone for HandlerPlan {
    fn clone(&self) -> (r: Self)
        ensures
            r.deep_view() == self.deep_view(),
    {
        HandlerPlan {
            handler_id: self.handler_id.clone(),
            name: self.name.clone(),
            module: self.module.clone(),
            args: clone_entries(&self.args),
            conditions: clone_conditions(&self.conditions),
            execution_order: self.execution_order,
        }
    }
}

/// One play as planned.
#[derive(Debug)]
pub struct PlayPlan {
    pub play_id: String,
    pub name: String,
    pub strategy: ExecutionStrategy,
    pub serial: Option<u32>,
    pub hosts: Vec<String>,
    pub batches: Vec<ExecutionBatch>,
    pub handlers: Vec<HandlerPlan>,
    pub estimated_duration: Option<u128>,
}

pub struct PlayPlanView {
    pub play_id: Seq<char>,
    pub name: Seq<char>,
    pub strategy: ExecutionStrategy,
    pub serial: Option<u32>,
    pub hosts: Seq<Seq<char>>,
    pub batches: Seq<ExecutionBatchView>,
    pub handlers: Seq<HandlerPlanView>,
    pub estimated_duration: Option<u128>,
}

impl DeepView for PlayPlan {
    type V = PlayPlanView;

    open spec fn deep_view(&self) -> PlayPlanView {
        PlayPlanView {
            play_id: self.play_id@,
            name: self.name@,
            strategy: self.strategy,
            serial: self.serial,
            hosts: self.hosts.deep_view(),
            batches: self.batches.deep_view(),
            handlers: self.handlers.deep_view(),
            estimated_duration: self.estimated_duration,
        }
    }
}

impl Clone for PlayPlan {
    fn clone(&self) -> (r: Self)
        ensures
            r.deep_view() == self.deep_view(),
    {
        let batches = self.batches.clone();
        assert(batches.deep_view() =~= self.batches.deep_view());
        let handlers = self.handlers.clone();
        assert(handlers.deep_view() =~= self.handlers.deep_view());
        PlayPlan {
            play_id: self.play_id.clone(),
            name: self.name.clone(),
            strategy: self.strategy,
            serial: self.serial,
            hosts: clone_strings(&self.hosts),
            batches,
            handlers,
            estimated_duration: self.estimated_duration,
        }
    }
}

/// A file that a binary carries with it.
#[derive(Debug)]
pub struct EmbeddedFile {
    pub src_path: String,
    pub dest_path: String,
    pub checksum: String,
    pub size: u64,
}

pub struct EmbeddedFileView {
    pub src_path: Seq<char>,
    pub dest_path: Seq<char>,
    pub checksum: Seq<char>,
    pub size: u64,
}

impl DeepView for EmbeddedFile {
    type V = EmbeddedFileView;

    open spec fn deep_view(&self) -> EmbeddedFileView {
        EmbeddedFileView {
            src_path: self.src_path@,
            dest_path: self.dest_path@,
            checksum: self.checksum@,
            size: self.size,
        }
    }
}

impl Clone for EmbeddedFile {
    fn clone(&self) -> (r: Self)
        ensures
            r.deep_view() == self.deep_view(),
    {
        EmbeddedFile {
            src_path: self.src_path.clone(),
            dest_path: self.dest_path.clone(),
            checksum: self.checksum.clone(),
            size: self.size,
        }
    }
}

/// What a binary carries besides its code.
#[derive(Debug)]
pub struct BinaryEmbeddedData {
    /// The part of the plan that this binary runs, as JSON.
    pub execution_plan: String,
    pub static_files: Vec<EmbeddedFile>,
    pub variables: Vec<KeyValue>,
    pub facts_required: Vec<String>,
}

pub struct BinaryEmbeddedDataView {
    pub execution_plan: Seq<char>,
    pub static_files: Seq<EmbeddedFileView>,
    pub variables: Seq<KeyValueView>,
    pub facts_required: Seq<Seq<char>>,
}

impl DeepView for BinaryEmbeddedData {
    type V = BinaryEmbeddedDataView;

    open spec fn deep_view(&self) -> BinaryEmbeddedDataView {
        BinaryEmbeddedDataView {
            execution_plan: self.execution_plan@,
            static_files: self.static_files.deep_view(),
            variables: self.variables.deep_view(),
            facts_required: self.facts_required.deep_view(),
        }
    }
}

impl Clone for BinaryEmbeddedData {
    fn clone(&self) -> (r: Self)
        ensures
            r.deep_view() == self.deep_view(),
    {
        let static_files = self.static_files.clone();
        assert(static_files.deep_view() =~= self.static_files.deep_view());
        BinaryEmbeddedData {
            execution_plan: self.execution_plan.clone(),
            static_files,
            variables: clone_entries(&self.variables),
            facts_required: clone_strings(&self.facts_required),
        }
    }
}

/// What it takes to build a binary for its target.
#[derive(Debug)]
pub struct CompilationRequirements {
    pub target_arch: String,
    pub target_os: String,
    pub rust_version: String,
    pub cross_compilation: bool,
    pub static_linking: bool,
}

pub struct CompilationRequirementsView {
    pub target_arch: Seq<char>,
    pub target_os: Seq<char>,
    pub rust_version: Seq<char>,
    pub cross_compilation: bool,
    pub static_linking: bool,
}

impl DeepView for CompilationRequirements {
    type V = CompilationRequirementsView;

    open spec fn deep_view(&self) -> CompilationRequirementsView {
        CompilationRequirementsView {
            target_arch: self.target_arch@,
            target_os: self.target_os@,
            rust_version: self.rust_version@,
            cross_compilation: self.cross_compilation,
            static_linking: self.static_linking,
        }
    }
}

impl Clone for CompilationRequirements {
    fn clone(&self) -> (r: Self)
        ensures
            r.deep_view() == self.deep_view(),
    {
        CompilationRequirements {
            target_arch: self.target_arch.clone(),
            target_os: self.target_os.clone(),
            rust_version: self.rust_version.clone(),
            cross_compilation: self.cross_compilation,
            static_linking: self.static_linking,
        }
    }
}

/// A compiled payload that runs a group of tasks on its target hosts.
#[derive(Debug)]
pub struct BinaryDeployment {
    pub deployment_id: String,
    pub target_hosts: Vec<String>,
    pub binary_name: String,
    pub tasks: Vec<String>,
    pub modules: Vec<String>,
    pub embedded_data: BinaryEmbeddedData,
    pub execution_mode: BinaryExecutionMode,
    /// In bytes.
    pub estimated_size: u64,
    pub compilation_requirements: CompilationRequirements,
}

pub struct BinaryDeploymentView {
    pub deployment_id: Seq<char>,
    pub target_hosts: Seq<Seq<char>>,
    pub binary_name: Seq<char>,
    pub tasks: Seq<Seq<char>>,
    pub modules: Seq<Seq<char>>,
    pub embedded_data: BinaryEmbeddedDataView,
    pub execution_mode: BinaryExecutionMode,
    pub estimated_size: u64,
    pub compilation_requirements: CompilationRequirementsView,
}

impl DeepView for BinaryDeployment {
    type V = BinaryDeploymentView;

    open spec fn deep_view(&self) -> BinaryDeploymentView {
        BinaryDeploymentView {
            deployment_id: self.deployment_id@,
            target_hosts: self.target_hosts.deep_view(),
            binary_name: self.binary_name@,
            tasks: self.tasks.deep_view(),
            modules: self.modules.deep_view(),
            embedded_data: self.embedded_data.deep_view(),
            execution_mode: self.execution_mode,
            estimated_size: self.estimated_size,
            compilation_requirements: self.compilation_requirements.deep_view(),
        }
    }
}

impl Clone for BinaryDeployment {
    fn clone(&self) -> (r: Self)
        ensures
            r.deep_view() == self.deep_view(),
    {
        BinaryDeployment {
            deployment_id: self.deployment_id.clone(),
            target_hosts: clone_strings(&self.target_hosts),
            binary_name: self.binary_name.clone(),
            tasks: clone_strings(&self.tasks),
            modules: clone_strings(&self.modules),
            embedded_data: self.embedded_data.clone(),
            execution_mode: self.execution_mode,
            estimated_size: self.estimated_size,
            compilation_requirements: self.compilation_requirements.clone(),
        }
    }
}

/// What the caller asked of the planner.
#[derive(Debug)]
pub struct PlanningOptions {
    pub limit: Option<String>,
    pub tags: Vec<String>,
    pub skip_tags: Vec<String>,
    pub check_mode: bool,
    pub diff_mode: bool,
    pub forks: u32,
    pub serial: Option<u32>,
    pub strategy: ExecutionStrategy,
    pub binary_threshold: u32,
    pub force_binary: bool,
    pub force_ssh: bool,
}

pub struct PlanningOptionsView {
    pub limit: Option<Seq<char>>,
    pub tags: Seq<Seq<char>>,
    pub skip_tags: Seq<Seq<char>>,
    pub check_mode: bool,
    pub diff_mode: bool,
    pub forks: u32,
    pub serial: Option<u32>,
    pub strategy: ExecutionStrategy,
    pub binary_threshold: u32,
    pub force_binary: bool,
    pub force_ssh: bool,
}

impl DeepView for PlanningOptions {
    type V = PlanningOptionsView;

    open spec fn deep_view(&self) -> PlanningOptionsView {
        PlanningOptionsView {
            limit: self.limit.deep_view(),
            tags: self.tags.deep_view(),
            skip_tags: self.skip_tags.deep_view(),
            check_mode: self.check_mode,
            diff_mode: self.diff_mode,
            forks: self.forks,
            serial: self.serial,
            strategy: self.strategy,
            binary_threshold: self.binary_threshold,
            force_binary: self.force_binary,
            force_ssh: self.force_ssh,
        }
    }
}

impl Clone for PlanningOptions {
    fn clone(&self) -> (r: Self)
        ensures
            r.deep_view() == self.deep_view(),
    {
        let limit = match &self.limit {
            Some(s) => Some(s.clone()),
            None => None,
        };
        PlanningOptions {
            limit,
            tags: clone_strings(&self.tags),
            skip_tags: clone_strings(&self.skip_tags),
            check_mode: self.check_mode,
            diff_mode: self.diff_mode,
            forks: self.forks,
            serial: self.serial,
            strategy: self.strategy,
            binary_threshold: self.binary_threshold,
            force_binary: self.force_binary,
            force_ssh: self.force_ssh,
        }
    }
}

/// Where and from what a plan was made.
#[derive(Debug)]
pub struct PlanMetadata {
    pub created_at: Timestamp,
    pub rustle_version: String,
    pub playbook_hash: String,
    pub inventory_hash: String,
    pub planning_options: PlanningOptions,
}

pub struct PlanMetadataView {
    pub created_at: Timestamp,
    pub rustle_version: Seq<char>,
    pub playbook_hash: Seq<char>,
    pub inventory_hash: Seq<char>,
    pub planning_options: PlanningOptionsView,
}

impl DeepView for PlanMetadata {
    type V = PlanMetadataView;

    open spec fn deep_view(&self) -> PlanMetadataView {
        PlanMetadataView {
            created_at: self.created_at,
            rustle_version: self.rustle_version@,
            playbook_hash: self.playbook_hash@,
            inventory_hash: self.inventory_hash@,
            planning_options: self.planning_options.deep_view(),
        }
    }
}

impl Clone for PlanMetadata {
    fn clone(&self) -> (r: Self)
        ensures
            r.deep_view() == self.deep_view(),
    {
        PlanMetadata {
            created_at: self.created_at,
            rustle_version: self.rustle_version.clone(),
            playbook_hash: self.playbook_hash.clone(),
            inventory_hash: self.inventory_hash.clone(),
            planning_options: self.planning_options.clone(),
        }
    }
}

/// The plan for a playbook. Durations are in nanoseconds.
#[derive(Debug)]
pub struct ExecutionPlan {
    pub metadata: PlanMetadata,
    pub plays: Vec<PlayPlan>,
    pub binary_deployments: Vec<BinaryDeployment>,
    pub total_tasks: usize,
    pub estimated_duration: Option<u128>,
    pub estimated_compilation_time: Option<u128>,
    pub parallelism_score: Ratio,
    pub network_efficiency_score: Ratio,
    pub hosts: Vec<String>,
}

pub struct ExecutionPlanView {
    pub metadata: PlanMetadataView,
    pub plays: Seq<PlayPlanView>,
    pub binary_deployments: Seq<BinaryDeploymentView>,
    pub total_tasks: usize,
    pub estimated_duration: Option<u128>,
    pub estimated_compilation_time: Option<u128>,
    pub parallelism_score: Ratio,
    pub network_efficiency_score: Ratio,
    pub hosts: Seq<Seq<char>>,
}

impl DeepView for ExecutionPlan {
    type V = ExecutionPlanView;

    open spec fn deep_view(&self) -> ExecutionPlanView {
        ExecutionPlanView {
            metadata: self.metadata.deep_view(),
            plays: self.plays.deep_view(),
            binary_deployments: self.binary_deployments.deep_view(),
            total_tasks: self.total_tasks,
            estimated_duration: self.estimated_duration,
            estimated_compilation_time: self.estimated_compilation_time,
            parallelism_score: self.parallelism_score,
            network_efficiency_score: self.network_efficiency_score,
            hosts: self.hosts.deep_view(),
        }
    }
}

impl Clone for ExecutionPlan {
    fn clone(&self) -> (r: Self)
        ensures
            r.deep_view() == self.deep_view(),
    {
        let plays = self.plays.clone();
        assert(plays.deep_view() =~= self.plays.deep_view());
        let binary_deployments = self.binary_deployments.clone();
        assert(binary_deployments.deep_view() =~= self.binary_deployments.deep_view());
        ExecutionPlan {
            metadata: self.metadata.clone(),
            plays,
            binary_deployments,
            total_tasks: self.total_tasks,
            estimated_duration: self.estimated_duration,
            estimated_compilation_time: self.estimated_compilation_time,
            parallelism_score: self.parallelism_score,
            network_efficiency_score: self.network_efficiency_score,
            hosts: clone_strings(&self.hosts),
        }
    }
}

} // verus!

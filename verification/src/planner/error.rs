//! The ways in which planning fails.

use vstd::prelude::*;

verus! {

/// The error that the JSON serializer reports.
#[verifier::external_type_specification]
#[verifier::external_body]
pub struct ExJsonError(serde_json::Error);

/// The error that an input or output operation reports.
#[verifier::external_type_specification]
#[verifier::external_body]
pub struct ExIoError(std::io::Error);

#[derive(Debug)]
pub enum PlanError {
    CircularDependency { cycle: String },
    InvalidHostPattern { pattern: String, reason: String },
    UnknownTaskDependency { task_id: String },
    StrategyConflict { conflict: String },
    ResourceContention { resources: Vec<String> },
    PlanningTimeout { timeout_secs: u64 },
    InvalidTagExpression { expression: String },
    InsufficientResources { required: u32, available: u32 },
    UnsupportedTarget { target: String },
    BinaryThresholdNotMet { task_count: u32, threshold: u32 },
    IncompatibleModule { module: String },
    CrossCompilationFailed { target: String, reason: String },
    Serialization(serde_json::Error),
    Io(std::io::Error),
}

/// A `PlanError` with its strings as character sequences. The two adapter
/// variants carry a value of another library, of which nothing is modelled.
pub enum PlanErrorView {
    CircularDependency { cycle: Seq<char> },
    InvalidHostPattern { pattern: Seq<char>, reason: Seq<char> },
    UnknownTaskDependency { task_id: Seq<char> },
    StrategyConflict { conflict: Seq<char> },
    ResourceContention { resources: Seq<Seq<char>> },
    PlanningTimeout { timeout_secs: u64 },
    InvalidTagExpression { expression: Seq<char> },
    InsufficientResources { required: u32, available: u32 },
    UnsupportedTarget { target: Seq<char> },
    BinaryThresholdNotMet { task_count: u32, threshold: u32 },
    IncompatibleModule { module: Seq<char> },
    CrossCompilationFailed { target: Seq<char>, reason: Seq<char> },
    Serialization,
    Io,
}

impl DeepView for PlanError {
    type V = PlanErrorView;

    open spec fn deep_view(&self) -> PlanErrorView {
        match self {
            PlanError::CircularDependency { cycle } => PlanErrorView::CircularDependency {
                cycle: cycle@,
            },
            PlanError::InvalidHostPattern { pattern, reason } => PlanErrorView::InvalidHostPattern {
                pattern: pattern@,
                reason: reason@,
            },
            PlanError::UnknownTaskDependency { task_id } => PlanErrorView::UnknownTaskDependency {
                task_id: task_id@,
            },
            PlanError::StrategyConflict { conflict } => PlanErrorView::StrategyConflict {
                conflict: conflict@,
            },
            PlanError::ResourceContention { resources } => PlanErrorView::ResourceContention {
                resources: resources.deep_view(),
            },
            PlanError::PlanningTimeout { timeout_secs } => PlanErrorView::PlanningTimeout {
                timeout_secs: *timeout_secs,
            },
            PlanError::InvalidTagExpression { expression } => PlanErrorView::InvalidTagExpression {
                expression: expression@,
            },
            PlanError::InsufficientResources { required, available } => {
                PlanErrorView::InsufficientResources { required: *required, available: *available }
            },
            PlanError::UnsupportedTarget { target } => PlanErrorView::UnsupportedTarget {
                target: target@,
            },
            PlanError::BinaryThresholdNotMet { task_count, threshold } => {
                PlanErrorView::BinaryThresholdNotMet {
                    task_count: *task_count,
                    threshold: *threshold,
                }
            },
            PlanError::IncompatibleModule { module } => PlanErrorView::IncompatibleModule {
                module: module@,
            },
            PlanError::CrossCompilationFailed { target, reason } => {
                PlanErrorView::CrossCompilationFailed { target: target@, reason: reason@ }
            },
            PlanError::Serialization(_) => PlanErrorView::Serialization,
            PlanError::Io(_) => PlanErrorView::Io,
        }
    }
}

} // verus!

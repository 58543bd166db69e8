//! The data that planning reads and the plan that it returns.

pub mod analysis;
pub mod graph;
pub mod parsed;
pub mod plan;
pub mod strategy;

pub use plan::{
    ArgValue, ArgValueView, BinaryDeployment, BinaryDeploymentView, BinaryEmbeddedData,
    BinaryEmbeddedDataView, BinaryExecutionMode, CompilationRequirements,
    CompilationRequirementsView, DependencyType, EmbeddedFile, EmbeddedFileView, ExecutionBatch,
    ExecutionBatchView, ExecutionCondition, ExecutionConditionView, ExecutionPlan,
    ExecutionPlanView, HandlerPlan, HandlerPlanView, KeyValue, KeyValueView, ParallelGroup,
    ParallelGroupView, PlanMetadata, PlanMetadataView, PlanningOptions, PlanningOptionsView,
    PlayPlan, PlayPlanView, Ratio, RiskLevel, TaskPlan, TaskPlanView, Timestamp,
};
pub use analysis::{
    BinaryDeploymentDecision, BinaryDeploymentDecisionView, BinarySuitabilityAnalysis,
    BinarySuitabilityAnalysisView, Reasons, TaskGroup, TaskGroupView, TaskReason, TaskReasonView,
    ValidationReport, ValidationReportView,
};
pub use graph::{DependencyEdge, DependencyGraph, TaskNodes};
pub use parsed::{
    HostFacts, HostFactsView, HostGroup, HostGroupView, ParsedHandler, ParsedHandlerView,
    ParsedInventory, ParsedInventoryView, ParsedPlay, ParsedPlayView, ParsedPlaybook,
    ParsedPlaybookView, ParsedTask, ParsedTaskView,
};
pub use strategy::ExecutionStrategy;

//! Execution planning for playbooks: dependency analysis, batch scheduling
//! under several strategies, binary deployment grouping, risk classification
//! and duration estimation, each with a machine-checked contract.

pub mod clock;
pub mod hashing;
pub mod input;
pub mod json;
pub mod numbers;
pub mod planner;
pub mod report;
pub mod text;
pub mod types;

pub use planner::{
    BinaryDeploymentPlanner, BinarySuitabilityAnalyzer, DependencyAnalyzer, ExecutionOptimizer,
    ExecutionPlanner, PlanError, PlanValidator, StrategyPlanner, TaskEstimator,
};
pub use types::{
    BinaryDeployment, ExecutionBatch, ExecutionCondition, ExecutionPlan, ExecutionStrategy,
    HandlerPlan, ParsedHandler, ParsedInventory, ParsedPlay, ParsedPlaybook, ParsedTask,
    PlanMetadata, PlanningOptions, PlayPlan, RiskLevel, TaskPlan,
};

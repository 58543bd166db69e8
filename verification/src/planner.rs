//! The planning pipeline, one component per module.

pub mod assembly;
pub mod binary_deployment;
pub mod bounds;
pub mod condition;
pub mod dependency;
pub mod error;
pub mod estimation;
pub mod execution_plan;
pub mod graph;
pub mod laws;
pub mod limits;
pub mod optimization;
pub mod strategy;
pub mod suitability;
pub mod validation;

pub use binary_deployment::BinaryDeploymentPlanner;
pub use condition::{ConditionEvaluator, ExecutionContext};
pub use dependency::DependencyAnalyzer;
pub use error::PlanError;
pub use estimation::TaskEstimator;
pub use execution_plan::ExecutionPlanner;
pub use graph::DependencyGraphBuilder;
pub use optimization::ExecutionOptimizer;
pub use strategy::StrategyPlanner;
pub use suitability::BinarySuitabilityAnalyzer;
pub use validation::PlanValidator;

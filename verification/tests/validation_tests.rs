use rustle_plan::types::{
    BinaryEmbeddedData, BinaryExecutionMode, CompilationRequirements, Ratio, Timestamp,
    ValidationReport,
};
use rustle_plan::{
    BinaryDeployment, ExecutionBatch, ExecutionPlan, ExecutionStrategy, PlanMetadata,
    PlanValidator, PlanningOptions, PlayPlan, RiskLevel, TaskPlan,
};

fn create_test_plan() -> ExecutionPlan {
    ExecutionPlan {
        metadata: PlanMetadata {
            created_at: Timestamp {
                secs: 1_700_000_000,
                nanos: 0,
            },
            rustle_version: "1.0.0".to_string(),
            playbook_hash: "abc123".to_string(),
            inventory_hash: "def456".to_string(),
            planning_options: PlanningOptions {
                limit: None,
                tags: vec![],
                skip_tags: vec![],
                check_mode: false,
                diff_mode: false,
                forks: 5,
                serial: None,
                strategy: ExecutionStrategy::Linear,
                binary_threshold: 10,
                force_binary: false,
                force_ssh: false,
            },
        },
        plays: vec![],
        binary_deployments: vec![],
        total_tasks: 0,
        estimated_duration: Some(60_000_000_000),
        estimated_compilation_time: None,
        parallelism_score: Ratio {
            numerator: 8,
            denominator: 10,
        },
        network_efficiency_score: Ratio {
            numerator: 9,
            denominator: 10,
        },
        hosts: vec!["host1".to_string(), "host2".to_string()],
    }
}

fn create_test_play() -> PlayPlan {
    PlayPlan {
        play_id: "play-1".to_string(),
        name: "Test Play".to_string(),
        strategy: ExecutionStrategy::Linear,
        serial: None,
        hosts: vec!["host1".to_string()],
        batches: vec![],
        handlers: vec![],
        estimated_duration: Some(30_000_000_000),
    }
}

fn create_test_batch() -> ExecutionBatch {
    ExecutionBatch {
        batch_id: "batch-1".to_string(),
        hosts: vec!["host1".to_string()],
        tasks: vec![],
        parallel_groups: vec![],
        dependencies: vec![],
        estimated_duration: Some(10_000_000_000),
    }
}

fn create_test_task() -> TaskPlan {
    TaskPlan {
        task_id: "task-1".to_string(),
        name: "Test Task".to_string(),
        module: "shell".to_string(),
        args: vec![],
        hosts: vec!["host1".to_string()],
        dependencies: vec![],
        conditions: vec![],
        tags: vec![],
        notify: vec![],
        execution_order: 1,
        can_run_parallel: true,
        estimated_duration: Some(5_000_000_000),
        risk_level: RiskLevel::Low,
    }
}

fn create_test_binary_deployment() -> BinaryDeployment {
    BinaryDeployment {
        deployment_id: "deploy-1".to_string(),
        target_hosts: vec!["host1".to_string()],
        binary_name: "test-binary".to_string(),
        tasks: vec!["task-1".to_string()],
        modules: vec!["shell".to_string()],
        embedded_data: BinaryEmbeddedData {
            execution_plan: "{}".to_string(),
            static_files: vec![],
            variables: vec![],
            facts_required: vec![],
        },
        execution_mode: BinaryExecutionMode::Standalone,
        estimated_size: 1024,
        compilation_requirements: CompilationRequirements {
            target_arch: "x86_64".to_string(),
            target_os: "linux".to_string(),
            rust_version: "1.70.0".to_string(),
            cross_compilation: false,
            static_linking: true,
        },
    }
}

#[test]
fn validation_test_new() {
    let validator = PlanValidator::new();
    assert!(std::ptr::eq(&validator, &validator));
}

#[test]
fn validation_test_default() {
    let validator = PlanValidator;
    assert!(std::ptr::eq(&validator, &validator));
}

#[test]
fn test_validate_valid_plan() {
    let validator = PlanValidator::new();
    let plan = create_test_plan();

    let result = validator.validate(&plan).unwrap();
    assert!(result.is_valid);
    assert!(result.errors.is_empty());
}

#[test]
fn test_validate_plan_no_hosts() {
    let validator = PlanValidator::new();
    let mut plan = create_test_plan();
    plan.hosts.clear();

    let result = validator.validate(&plan).unwrap();
    assert!(!result.is_valid);
    assert_eq!(result.errors.len(), 1);
    assert_eq!(result.errors[0], "No target hosts specified");
}

#[test]
fn test_validate_plan_no_plays() {
    let validator = PlanValidator::new();
    let plan = create_test_plan();

    let result = validator.validate(&plan).unwrap();
    assert!(result.is_valid);
    assert_eq!(result.warnings.len(), 1);
    assert_eq!(result.warnings[0], "No plays in execution plan");
}

#[test]
fn test_validate_play_no_batches() {
    let validator = PlanValidator::new();
    let mut plan = create_test_plan();
    plan.plays.push(create_test_play());

    let result = validator.validate(&plan).unwrap();
    assert!(result.is_valid);
    assert!(result
        .warnings
        .iter()
        .any(|w| w.contains("has no execution batches")));
}

#[test]
fn test_validate_batch_no_tasks() {
    let validator = PlanValidator::new();
    let mut plan = create_test_plan();
    let mut play = create_test_play();
    play.batches.push(create_test_batch());
    plan.plays.push(play);

    let result = validator.validate(&plan).unwrap();
    assert!(result.is_valid);
    assert!(result.warnings.iter().any(|w| w.contains("has no tasks")));
}

#[test]
fn test_validate_batch_no_hosts() {
    let validator = PlanValidator::new();
    let mut plan = create_test_plan();
    let mut play = create_test_play();
    let mut batch = create_test_batch();
    batch.hosts.clear();
    play.batches.push(batch);
    plan.plays.push(play);

    let result = validator.validate(&plan).unwrap();
    assert!(!result.is_valid);
    assert!(result
        .errors
        .iter()
        .any(|e| e.contains("has no target hosts")));
}

#[test]
fn test_validate_task_dependency_in_same_batch() {
    let validator = PlanValidator::new();
    let mut plan = create_test_plan();
    let mut play = create_test_play();
    let mut batch = create_test_batch();

    let mut task1 = create_test_task();
    task1.task_id = "task-1".to_string();
    let mut task2 = create_test_task();
    task2.task_id = "task-2".to_string();
    task2.dependencies = vec!["task-1".to_string()];

    batch.tasks = vec![task1, task2];
    play.batches.push(batch);
    plan.plays.push(play);

    let result = validator.validate(&plan).unwrap();
    assert!(result.is_valid);
    assert!(
        result.warnings.is_empty()
            || !result
                .warnings
                .iter()
                .any(|w| w.contains("not in the same batch"))
    );
}

#[test]
fn test_validate_task_dependency_not_in_batch() {
    let validator = PlanValidator::new();
    let mut plan = create_test_plan();
    let mut play = create_test_play();
    let mut batch = create_test_batch();

    let mut task = create_test_task();
    task.dependencies = vec!["missing-task".to_string()];
    batch.tasks = vec![task];
    play.batches.push(batch);
    plan.plays.push(play);

    let result = validator.validate(&plan).unwrap();
    assert!(result.is_valid);
    assert!(result
        .warnings
        .iter()
        .any(|w| w.contains("not in the same batch")));
}

#[test]
fn test_validate_binary_deployment_valid() {
    let validator = PlanValidator::new();
    let mut plan = create_test_plan();
    plan.binary_deployments
        .push(create_test_binary_deployment());

    let result = validator.validate(&plan).unwrap();
    assert!(result.is_valid);
}

#[test]
fn test_validate_binary_deployment_no_hosts() {
    let validator = PlanValidator::new();
    let mut plan = create_test_plan();
    let mut deployment = create_test_binary_deployment();
    deployment.target_hosts.clear();
    plan.binary_deployments.push(deployment);

    let result = validator.validate(&plan).unwrap();
    assert!(!result.is_valid);
    assert!(result
        .errors
        .iter()
        .any(|e| e.contains("has no target hosts")));
}

#[test]
fn test_validate_binary_deployment_no_tasks() {
    let validator = PlanValidator::new();
    let mut plan = create_test_plan();
    let mut deployment = create_test_binary_deployment();
    deployment.tasks.clear();
    plan.binary_deployments.push(deployment);

    let result = validator.validate(&plan).unwrap();
    assert!(result.is_valid);
    assert!(result.warnings.iter().any(|w| w.contains("has no tasks")));
}

#[test]
fn test_validate_binary_deployment_zero_size() {
    let validator = PlanValidator::new();
    let mut plan = create_test_plan();
    let mut deployment = create_test_binary_deployment();
    deployment.estimated_size = 0;
    plan.binary_deployments.push(deployment);

    let result = validator.validate(&plan).unwrap();
    assert!(result.is_valid);
    assert!(result
        .warnings
        .iter()
        .any(|w| w.contains("zero estimated size")));
}

#[test]
fn test_validate_binary_deployment_no_rust_version() {
    let validator = PlanValidator::new();
    let mut plan = create_test_plan();
    let mut deployment = create_test_binary_deployment();
    deployment.compilation_requirements.rust_version = "".to_string();
    plan.binary_deployments.push(deployment);

    let result = validator.validate(&plan).unwrap();
    assert!(result.is_valid);
    assert!(result
        .warnings
        .iter()
        .any(|w| w.contains("no Rust version specified")));
}

#[test]
fn test_validation_report_structure() {
    let report = ValidationReport {
        is_valid: false,
        errors: vec!["Error 1".to_string(), "Error 2".to_string()],
        warnings: vec!["Warning 1".to_string()],
    };

    assert!(!report.is_valid);
    assert_eq!(report.errors.len(), 2);
    assert_eq!(report.warnings.len(), 1);
}

#[test]
fn test_validation_lists_findings_in_order() {
    let validator = PlanValidator::new();
    let mut plan = create_test_plan();
    let mut play = create_test_play();
    let mut batch = create_test_batch();
    batch.hosts.clear();
    let mut task = create_test_task();
    task.dependencies = vec!["a".to_string(), "task-1".to_string(), "b".to_string()];
    batch.tasks = vec![task];
    play.batches.push(batch);
    plan.plays.push(play);
    let mut deployment = create_test_binary_deployment();
    deployment.target_hosts.clear();
    deployment.tasks.clear();
    deployment.estimated_size = 0;
    plan.binary_deployments.push(deployment);

    let result = validator.validate(&plan).unwrap();

    assert!(!result.is_valid);
    assert_eq!(
        result.errors,
        vec![
            "Batch 'batch-1' has no target hosts",
            "Binary deployment 'deploy-1' has no target hosts",
        ]
    );
    assert_eq!(
        result.warnings,
        vec![
            "Task 'task-1' depends on 'a' which is not in the same batch",
            "Task 'task-1' depends on 'b' which is not in the same batch",
            "Binary deployment 'deploy-1' has no tasks",
            "Binary deployment 'deploy-1' has zero estimated size",
        ]
    );
}

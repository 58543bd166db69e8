use rustle_plan::planner::{ConditionEvaluator, ExecutionContext};
use rustle_plan::types::{ArgValue, KeyValue};
use rustle_plan::{ExecutionCondition, RiskLevel, TaskPlan};

fn create_test_context() -> ExecutionContext {
    ExecutionContext {
        current_host: "web-server-01".to_string(),
        active_tags: vec!["production".to_string(), "web".to_string()],
        check_mode: false,
        variables: vec![],
    }
}

fn create_test_task() -> TaskPlan {
    TaskPlan {
        task_id: "test-task".to_string(),
        name: "Test Task".to_string(),
        module: "shell".to_string(),
        args: vec![],
        hosts: vec!["web-server-01".to_string()],
        dependencies: vec![],
        conditions: vec![],
        tags: vec![],
        notify: vec![],
        execution_order: 1,
        can_run_parallel: true,
        estimated_duration: None,
        risk_level: RiskLevel::Low,
    }
}

#[test]
fn condition_test_new() {
    let evaluator = ConditionEvaluator::new();
    assert!(std::ptr::eq(&evaluator, &evaluator));
}

#[test]
fn condition_test_default() {
    let evaluator = ConditionEvaluator::default();
    assert!(std::ptr::eq(&evaluator, &evaluator));
}

#[test]
fn test_should_execute_task_no_conditions() {
    let evaluator = ConditionEvaluator::new();
    let task = create_test_task();
    let context = create_test_context();

    let result = evaluator.should_execute_task(&task, &context).unwrap();
    assert!(result);
}

#[test]
fn test_should_execute_task_with_passing_conditions() {
    let evaluator = ConditionEvaluator::new();
    let mut task = create_test_task();
    task.conditions = vec![
        ExecutionCondition::When {
            expression: "not_empty".to_string(),
        },
        ExecutionCondition::Tag {
            tags: vec!["production".to_string()],
        },
    ];
    let context = create_test_context();

    let result = evaluator.should_execute_task(&task, &context).unwrap();
    assert!(result);
}

#[test]
fn test_should_execute_task_with_failing_condition() {
    let evaluator = ConditionEvaluator::new();
    let mut task = create_test_task();
    task.conditions = vec![
        ExecutionCondition::When {
            expression: "not_empty".to_string(),
        },
        ExecutionCondition::Tag {
            tags: vec!["staging".to_string()],
        },
    ];
    let context = create_test_context();

    let result = evaluator.should_execute_task(&task, &context).unwrap();
    assert!(!result);
}

#[test]
fn test_evaluate_when_condition_non_empty() {
    let evaluator = ConditionEvaluator::new();
    let condition = ExecutionCondition::When {
        expression: "some_variable".to_string(),
    };
    let context = create_test_context();

    let result = evaluator.evaluate_condition(&condition, &context).unwrap();
    assert!(result);
}

#[test]
fn test_evaluate_when_condition_empty() {
    let evaluator = ConditionEvaluator::new();
    let condition = ExecutionCondition::When {
        expression: "".to_string(),
    };
    let context = create_test_context();

    let result = evaluator.evaluate_condition(&condition, &context).unwrap();
    assert!(!result);
}

#[test]
fn test_evaluate_tag_condition_matching() {
    let evaluator = ConditionEvaluator::new();
    let condition = ExecutionCondition::Tag {
        tags: vec!["production".to_string(), "staging".to_string()],
    };
    let context = create_test_context();

    let result = evaluator.evaluate_condition(&condition, &context).unwrap();
    assert!(result);
}

#[test]
fn test_evaluate_tag_condition_not_matching() {
    let evaluator = ConditionEvaluator::new();
    let condition = ExecutionCondition::Tag {
        tags: vec!["staging".to_string(), "development".to_string()],
    };
    let context = create_test_context();

    let result = evaluator.evaluate_condition(&condition, &context).unwrap();
    assert!(!result);
}

#[test]
fn test_evaluate_host_condition_matching() {
    let evaluator = ConditionEvaluator::new();
    let condition = ExecutionCondition::Host {
        pattern: "web-server".to_string(),
    };
    let context = create_test_context();

    let result = evaluator.evaluate_condition(&condition, &context).unwrap();
    assert!(result);
}

#[test]
fn test_evaluate_host_condition_not_matching() {
    let evaluator = ConditionEvaluator::new();
    let condition = ExecutionCondition::Host {
        pattern: "database".to_string(),
    };
    let context = create_test_context();

    let result = evaluator.evaluate_condition(&condition, &context).unwrap();
    assert!(!result);
}

#[test]
fn test_evaluate_skip_tag_condition_should_skip() {
    let evaluator = ConditionEvaluator::new();
    let condition = ExecutionCondition::SkipTag {
        tags: vec!["production".to_string()],
    };
    let context = create_test_context();

    let result = evaluator.evaluate_condition(&condition, &context).unwrap();
    assert!(!result);
}

#[test]
fn test_evaluate_skip_tag_condition_should_not_skip() {
    let evaluator = ConditionEvaluator::new();
    let condition = ExecutionCondition::SkipTag {
        tags: vec!["staging".to_string()],
    };
    let context = create_test_context();

    let result = evaluator.evaluate_condition(&condition, &context).unwrap();
    assert!(result);
}

#[test]
fn test_evaluate_check_mode_condition_enabled() {
    let evaluator = ConditionEvaluator::new();
    let condition = ExecutionCondition::CheckMode { enabled: false };
    let context = create_test_context();

    let result = evaluator.evaluate_condition(&condition, &context).unwrap();
    assert!(result);
}

#[test]
fn test_evaluate_check_mode_condition_disabled() {
    let evaluator = ConditionEvaluator::new();
    let condition = ExecutionCondition::CheckMode { enabled: true };
    let context = create_test_context();

    let result = evaluator.evaluate_condition(&condition, &context).unwrap();
    assert!(!result);
}

#[test]
fn test_evaluate_check_mode_condition_matching() {
    let evaluator = ConditionEvaluator::new();
    let condition = ExecutionCondition::CheckMode { enabled: false };
    let mut context = create_test_context();
    context.check_mode = false;

    let result = evaluator.evaluate_condition(&condition, &context).unwrap();
    assert!(result);
}

#[test]
fn test_execution_context_creation() {
    let context = ExecutionContext {
        current_host: "test-host".to_string(),
        active_tags: vec!["tag1".to_string(), "tag2".to_string()],
        check_mode: true,
        variables: vec![KeyValue {
            key: "key".to_string(),
            value: ArgValue::Text("value".to_string()),
        }],
    };

    assert_eq!(context.current_host, "test-host");
    assert_eq!(context.active_tags.len(), 2);
    assert!(context.check_mode);
    assert_eq!(context.variables.len(), 1);
}

#[test]
fn test_host_condition_with_empty_pattern_matches_every_host() {
    let evaluator = ConditionEvaluator::new();
    let condition = ExecutionCondition::Host {
        pattern: "".to_string(),
    };
    let context = create_test_context();

    assert!(evaluator.evaluate_condition(&condition, &context).unwrap());
}

#[test]
fn test_should_execute_task_stops_at_check_mode() {
    let evaluator = ConditionEvaluator::new();
    let mut task = create_test_task();
    task.conditions = vec![
        ExecutionCondition::SkipTag {
            tags: vec!["staging".to_string()],
        },
        ExecutionCondition::CheckMode { enabled: true },
    ];
    let context = create_test_context();

    assert!(!evaluator.should_execute_task(&task, &context).unwrap());
}

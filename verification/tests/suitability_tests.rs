use rustle_plan::types::{ArgValue, KeyValue};
use rustle_plan::{BinarySuitabilityAnalyzer, ExecutionCondition, RiskLevel, TaskPlan};

fn text_arg(key: &str, value: &str) -> KeyValue {
    KeyValue {
        key: key.to_string(),
        value: ArgValue::Text(value.to_string()),
    }
}

fn create_test_task(id: &str, module: &str) -> TaskPlan {
    TaskPlan {
        task_id: id.to_string(),
        name: format!("Test Task {id}"),
        module: module.to_string(),
        args: vec![],
        hosts: vec!["host1".to_string()],
        dependencies: vec![],
        conditions: vec![],
        tags: vec![],
        notify: vec![],
        execution_order: 1,
        can_run_parallel: true,
        estimated_duration: Some(5_000_000_000),
        risk_level: RiskLevel::Low,
    }
}

fn create_task_with_args(id: &str, module: &str, args: Vec<KeyValue>) -> TaskPlan {
    let mut task = create_test_task(id, module);
    task.args = args;
    task
}

fn create_task_with_hosts(id: &str, module: &str, hosts: Vec<String>) -> TaskPlan {
    let mut task = create_test_task(id, module);
    task.hosts = hosts;
    task
}

fn create_task_with_risk(id: &str, module: &str, risk: RiskLevel) -> TaskPlan {
    let mut task = create_test_task(id, module);
    task.risk_level = risk;
    task
}

#[test]
fn suitability_test_new() {
    let analyzer = BinarySuitabilityAnalyzer::new();
    assert!(std::ptr::eq(&analyzer, &analyzer));
}

#[test]
fn suitability_test_default() {
    let analyzer = BinarySuitabilityAnalyzer;
    assert!(std::ptr::eq(&analyzer, &analyzer));
}

#[test]
fn test_analyze_empty_tasks() {
    let analyzer = BinarySuitabilityAnalyzer::new();
    let result = analyzer.analyze(&vec![]).unwrap();

    assert!(result.suitable_groups.is_empty());
    assert!(result.unsuitable_tasks.is_empty());
    assert!(result.reasons.is_empty());
}

#[test]
fn test_analyze_single_suitable_task_insufficient_network() {
    let analyzer = BinarySuitabilityAnalyzer::new();
    let task = create_test_task("task1", "copy");
    let result = analyzer.analyze(&vec![task]).unwrap();

    // Single task with copy (2 network ops) needs >= 3 for binary deployment
    assert_eq!(result.suitable_groups.len(), 0);
    assert_eq!(result.unsuitable_tasks.len(), 1);
    assert!(result
        .reasons
        .get("task1")
        .unwrap()
        .contains("Insufficient network operations"));
}

#[test]
fn test_analyze_single_suitable_task_low_network() {
    let analyzer = BinarySuitabilityAnalyzer::new();
    let task = create_test_task("task1", "shell");
    let result = analyzer.analyze(&vec![task]).unwrap();

    assert!(result.suitable_groups.is_empty());
    assert_eq!(result.unsuitable_tasks.len(), 1);
    assert!(result.reasons.contains_key("task1"));
}

#[test]
fn test_analyze_unsuitable_task() {
    let analyzer = BinarySuitabilityAnalyzer::new();
    let task = create_test_task("task1", "debug");
    let result = analyzer.analyze(&vec![task]).unwrap();

    assert!(result.suitable_groups.is_empty());
    assert_eq!(result.unsuitable_tasks.len(), 1);
    assert_eq!(result.unsuitable_tasks[0], "task1");
}

#[test]
fn test_is_task_binary_suitable_compatible_modules() {
    let analyzer = BinarySuitabilityAnalyzer::new();
    let compatible_modules = [
        "file", "copy", "template", "shell", "command", "package", "service", "user", "group",
        "cron",
    ];

    for module in &compatible_modules {
        let task = create_test_task("test", module);
        assert!(
            analyzer.is_task_binary_suitable(&task),
            "Module {module} should be suitable"
        );
    }
}

#[test]
fn test_is_task_binary_suitable_incompatible_modules() {
    let analyzer = BinarySuitabilityAnalyzer::new();
    let incompatible_modules = ["debug", "assert", "fail", "meta", "include", "import_tasks"];

    for module in &incompatible_modules {
        let task = create_test_task("test", module);
        assert!(
            !analyzer.is_task_binary_suitable(&task),
            "Module {module} should not be suitable"
        );
    }
}

#[test]
fn test_is_task_binary_suitable_critical_risk() {
    let analyzer = BinarySuitabilityAnalyzer::new();
    let task = create_task_with_risk("test", "shell", RiskLevel::Critical);
    assert!(!analyzer.is_task_binary_suitable(&task));
}

#[test]
fn test_is_task_binary_suitable_interactive_modules() {
    let analyzer = BinarySuitabilityAnalyzer::new();
    let interactive_modules = ["pause", "prompt", "vars_prompt"];

    for module in &interactive_modules {
        let task = create_test_task("test", module);
        assert!(
            !analyzer.is_task_binary_suitable(&task),
            "Interactive module {module} should not be suitable"
        );
    }
}

#[test]
fn test_has_unsuitable_arguments_delegate_to() {
    let analyzer = BinarySuitabilityAnalyzer::new();
    let args = vec![text_arg("delegate_to", "other_host")];
    let task = create_task_with_args("test", "shell", args);

    assert!(analyzer.has_unsuitable_arguments(&task));
}

#[test]
fn test_has_unsuitable_arguments_local_action() {
    let analyzer = BinarySuitabilityAnalyzer::new();
    let args = vec![KeyValue {
        key: "local_action".to_string(),
        value: ArgValue::Json("true".to_string()),
    }];
    let task = create_task_with_args("test", "shell", args);

    assert!(analyzer.has_unsuitable_arguments(&task));
}

#[test]
fn test_has_unsuitable_arguments_hostvars_condition() {
    let analyzer = BinarySuitabilityAnalyzer::new();
    let mut task = create_test_task("test", "shell");
    task.conditions = vec![ExecutionCondition::When {
        expression: "hostvars[inventory_hostname]['some_var']".to_string(),
    }];

    assert!(analyzer.has_unsuitable_arguments(&task));
}

#[test]
fn test_can_group_tasks_same_hosts() {
    let analyzer = BinarySuitabilityAnalyzer::new();
    let task1 = create_task_with_hosts(
        "task1",
        "shell",
        vec!["host1".to_string(), "host2".to_string()],
    );
    let task2 = create_task_with_hosts("task2", "copy", vec!["host1".to_string()]);

    assert!(analyzer.can_group_tasks(&task1, &task2));
}

#[test]
fn test_can_group_tasks_no_host_overlap() {
    let analyzer = BinarySuitabilityAnalyzer::new();
    let task1 = create_task_with_hosts("task1", "shell", vec!["host1".to_string()]);
    let task2 = create_task_with_hosts("task2", "copy", vec!["host2".to_string()]);

    assert!(!analyzer.can_group_tasks(&task1, &task2));
}

#[test]
fn test_has_host_overlap() {
    let analyzer = BinarySuitabilityAnalyzer::new();
    let hosts1 = vec!["host1".to_string(), "host2".to_string()];
    let hosts2 = vec!["host2".to_string(), "host3".to_string()];
    let hosts3 = vec!["host4".to_string()];

    assert!(analyzer.has_host_overlap(&hosts1, &hosts2));
    assert!(!analyzer.has_host_overlap(&hosts1, &hosts3));
}

#[test]
fn test_has_resource_conflict_same_file_path() {
    let analyzer = BinarySuitabilityAnalyzer::new();
    let args1 = vec![text_arg("dest", "/etc/nginx.conf")];
    let args2 = vec![text_arg("dest", "/etc/nginx.conf")];

    let task1 = create_task_with_args("task1", "copy", args1);
    let task2 = create_task_with_args("task2", "template", args2);

    assert!(analyzer.has_resource_conflict(&task1, &task2));
}

#[test]
fn suitability_test_has_resource_conflict_same_service() {
    let analyzer = BinarySuitabilityAnalyzer::new();
    let args1 = vec![text_arg("name", "nginx")];
    let args2 = vec![text_arg("name", "nginx")];

    let task1 = create_task_with_args("task1", "service", args1);
    let task2 = create_task_with_args("task2", "service", args2);

    assert!(analyzer.has_resource_conflict(&task1, &task2));
}

#[test]
fn test_are_logically_related_shared_tags() {
    let analyzer = BinarySuitabilityAnalyzer::new();
    let mut task1 = create_test_task("task1", "copy");
    task1.tags = vec!["webserver".to_string(), "config".to_string()];
    let mut task2 = create_test_task("task2", "service");
    task2.tags = vec!["webserver".to_string()];

    assert!(analyzer.are_logically_related(&task1, &task2));
}

#[test]
fn test_are_logically_related_copy_service_pattern() {
    let analyzer = BinarySuitabilityAnalyzer::new();
    let task1 = create_test_task("task1", "copy");
    let task2 = create_test_task("task2", "service");

    assert!(analyzer.are_logically_related(&task1, &task2));
}

#[test]
fn test_are_logically_related_package_service_pattern() {
    let analyzer = BinarySuitabilityAnalyzer::new();
    let task1 = create_test_task("task1", "package");
    let task2 = create_test_task("task2", "service");

    assert!(analyzer.are_logically_related(&task1, &task2));
}

#[test]
fn test_tasks_interfere_dependency() {
    let analyzer = BinarySuitabilityAnalyzer::new();
    let task1 = create_test_task("task1", "copy");
    let mut task2 = create_test_task("task2", "service");
    task2.dependencies = vec!["task1".to_string()];

    assert!(analyzer.tasks_interfere(&task1, &task2));
}

#[test]
fn test_tasks_interfere_notification() {
    let analyzer = BinarySuitabilityAnalyzer::new();
    let mut task1 = create_test_task("task1", "copy");
    task1.notify = vec!["restart nginx".to_string()];
    let mut task2 = create_test_task("task2", "service");
    task2.name = "restart nginx service".to_string();

    assert!(analyzer.tasks_interfere(&task1, &task2));
}

#[test]
fn test_get_file_path() {
    let analyzer = BinarySuitabilityAnalyzer::new();

    let args = vec![text_arg("dest", "/path/to/file")];
    let task = create_task_with_args("test", "copy", args);

    assert_eq!(
        analyzer.get_file_path(&task),
        Some("/path/to/file".to_string())
    );
}

#[test]
fn test_get_unsuitability_reason() {
    let analyzer = BinarySuitabilityAnalyzer::new();

    let task1 = create_test_task("test1", "debug");
    assert!(analyzer
        .get_unsuitability_reason(&task1)
        .contains("not compatible"));

    let task2 = create_task_with_risk("test2", "debug", RiskLevel::Critical);
    assert!(analyzer
        .get_unsuitability_reason(&task2)
        .contains("not compatible"));
}

#[test]
fn test_get_unsuitability_reason_critical_risk_compatible_module() {
    let analyzer = BinarySuitabilityAnalyzer::new();

    // A compatible module at critical risk is not suitable either
    let task = create_task_with_risk("test", "shell", RiskLevel::Critical);

    assert!(analyzer
        .get_unsuitability_reason(&task)
        .contains("not compatible"));
}

#[test]
fn test_count_network_operations() {
    let analyzer = BinarySuitabilityAnalyzer::new();

    assert_eq!(
        analyzer.count_network_operations(&create_test_task("test", "copy")),
        2
    );
    assert_eq!(
        analyzer.count_network_operations(&create_test_task("test", "package")),
        1
    );
    assert_eq!(
        analyzer.count_network_operations(&create_test_task("test", "shell")),
        1
    );
}

#[test]
fn test_analyze_multiple_compatible_tasks() {
    let analyzer = BinarySuitabilityAnalyzer::new();
    let tasks = vec![
        create_test_task("task1", "copy"),
        create_test_task("task2", "service"),
    ];

    let result = analyzer.analyze(&tasks).unwrap();
    assert_eq!(result.suitable_groups.len(), 1);
    assert_eq!(result.suitable_groups[0].tasks.len(), 2);
}

#[test]
fn test_single_copy_task_is_left_out_with_its_reason() {
    let analyzer = BinarySuitabilityAnalyzer::new();
    let result = analyzer
        .analyze(&vec![create_test_task("only", "copy")])
        .unwrap();

    assert!(result.suitable_groups.is_empty());
    assert_eq!(result.unsuitable_tasks, vec!["only"]);
    assert_eq!(
        result.reasons.get("only").unwrap(),
        "Insufficient network operations to justify binary deployment"
    );
    assert_eq!(result.reasons.len(), 1);
}

#[test]
fn test_analysis_groups_in_order_and_counts_operations() {
    let analyzer = BinarySuitabilityAnalyzer::new();
    let mut blocked = create_test_task("blocked", "service");
    blocked.dependencies = vec!["seed".to_string()];
    blocked.module = "cron".to_string();
    let tasks = vec![
        create_test_task("bad", "debug"),
        create_test_task("seed", "copy"),
        blocked,
        create_test_task("friend", "template"),
    ];

    let result = analyzer.analyze(&tasks).unwrap();

    assert_eq!(result.unsuitable_tasks, vec!["bad", "blocked"]);
    assert_eq!(
        result.reasons.get("bad").unwrap(),
        "Module 'debug' is not compatible with binary deployment"
    );
    assert_eq!(result.suitable_groups.len(), 1);
    let group = &result.suitable_groups[0];
    assert_eq!(group.id, "group_0");
    assert_eq!(group.modules, vec!["copy", "template"]);
    assert_eq!(group.network_operations, 4);
    assert_eq!(group.hosts, vec!["host1"]);
    let ids: Vec<&str> = group.tasks.iter().map(|t| t.task_id.as_str()).collect();
    assert_eq!(ids, vec!["seed", "friend"]);
}

#[test]
fn test_file_path_takes_the_first_key_that_is_there() {
    let analyzer = BinarySuitabilityAnalyzer::new();

    let task = create_task_with_args(
        "test",
        "copy",
        vec![text_arg("src", "/from"), text_arg("path", "/at")],
    );
    assert_eq!(analyzer.get_file_path(&task), Some("/at".to_string()));

    let not_text = create_task_with_args(
        "test",
        "copy",
        vec![
            KeyValue {
                key: "dest".to_string(),
                value: ArgValue::Json("17".to_string()),
            },
            text_arg("src", "/from"),
        ],
    );
    assert_eq!(analyzer.get_file_path(&not_text), None);
}

#[test]
fn test_unknown_reason_for_a_suitable_task() {
    let analyzer = BinarySuitabilityAnalyzer::new();
    let task = create_test_task("fine", "copy");

    assert_eq!(
        analyzer.get_unsuitability_reason(&task),
        "Unknown unsuitability reason"
    );
}

#[test]
fn test_tasks_interfere_notification_in_either_direction() {
    let analyzer = BinarySuitabilityAnalyzer::new();
    let mut restart = create_test_task("task1", "service");
    restart.name = "restart".to_string();
    let mut notifier = create_test_task("task2", "copy");
    notifier.notify = vec!["restart".to_string()];

    assert!(analyzer.tasks_interfere(&restart, &notifier));
    assert!(analyzer.tasks_interfere(&notifier, &restart));
    assert!(analyzer.task_notifies(&notifier, &restart));
    assert!(!analyzer.task_notifies(&restart, &notifier));
    // a service after a copy belongs to it all the same
    assert!(analyzer.can_group_tasks(&notifier, &restart));
    assert!(!analyzer.can_group_tasks(&restart, &notifier));
}

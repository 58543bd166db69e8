use rustle_plan::{ExecutionStrategy, RiskLevel, StrategyPlanner, TaskPlan};

fn create_test_task(id: &str, can_parallel: bool) -> TaskPlan {
    TaskPlan {
        task_id: id.to_string(),
        name: format!("Test task {}", id),
        module: "shell".to_string(),
        args: vec![],
        hosts: vec!["host1".to_string()],
        dependencies: Vec::new(),
        conditions: Vec::new(),
        tags: Vec::new(),
        notify: Vec::new(),
        execution_order: 0,
        can_run_parallel: can_parallel,
        estimated_duration: Some(1_000_000_000),
        risk_level: RiskLevel::Low,
    }
}

#[test]
fn test_new_and_default() {
    let planner1 = StrategyPlanner::new();
    let planner2 = StrategyPlanner::default();

    // Both should create instances successfully
    let _ = (planner1, planner2);
}

#[test]
fn test_plan_linear_strategy() {
    let planner = StrategyPlanner::new();
    let tasks = vec![
        create_test_task("task1", true),
        create_test_task("task2", true),
        create_test_task("task3", false),
    ];
    let hosts = vec!["host1".to_string(), "host2".to_string()];

    let batches = planner.plan_linear(&tasks, &hosts);

    assert_eq!(batches.len(), 3);
    assert_eq!(batches[0].batch_id, "linear-batch-0");
    assert_eq!(batches[1].batch_id, "linear-batch-1");
    assert_eq!(batches[2].batch_id, "linear-batch-2");

    // Each batch should have one task
    for (i, batch) in batches.iter().enumerate() {
        assert_eq!(batch.tasks.len(), 1);
        assert_eq!(batch.tasks[0].task_id, format!("task{}", i + 1));
        assert_eq!(batch.hosts, hosts);
    }

    // Check dependencies
    assert!(batches[0].dependencies.is_empty());
    assert_eq!(batches[1].dependencies, vec!["linear-batch-0"]);
    assert_eq!(batches[2].dependencies, vec!["linear-batch-1"]);
}

#[test]
fn test_plan_free_strategy() {
    let planner = StrategyPlanner::new();
    let tasks = vec![
        create_test_task("task1", true),
        create_test_task("task2", true),
        create_test_task("task3", false),
        create_test_task("task4", false),
    ];
    let hosts = vec!["host1".to_string(), "host2".to_string()];

    let batches = planner.plan_free(&tasks, &hosts);

    // Should have one parallel batch and two sequential batches
    assert_eq!(batches.len(), 3);
    assert_eq!(batches[0].batch_id, "free-parallel");
    assert_eq!(batches[0].tasks.len(), 2); // Two parallel tasks

    assert_eq!(batches[1].batch_id, "free-sequential-0");
    assert_eq!(batches[1].tasks.len(), 1);
    assert_eq!(batches[1].dependencies, vec!["free-parallel"]);

    assert_eq!(batches[2].batch_id, "free-sequential-1");
    assert_eq!(batches[2].tasks.len(), 1);
    assert_eq!(batches[2].dependencies, vec!["free-sequential-0"]);
}

#[test]
fn test_plan_free_strategy_only_sequential() {
    let planner = StrategyPlanner::new();
    let tasks = vec![
        create_test_task("task1", false),
        create_test_task("task2", false),
    ];
    let hosts = vec!["host1".to_string()];

    let batches = planner.plan_free(&tasks, &hosts);

    assert_eq!(batches.len(), 2);
    assert_eq!(batches[0].batch_id, "free-sequential-0");
    assert!(batches[0].dependencies.is_empty());

    assert_eq!(batches[1].batch_id, "free-sequential-1");
    assert_eq!(batches[1].dependencies, vec!["free-sequential-0"]);
}

#[test]
fn test_plan_rolling_strategy() {
    let planner = StrategyPlanner::new();
    let tasks = vec![
        create_test_task("task1", true),
        create_test_task("task2", true),
    ];
    let hosts = vec![
        "host1".to_string(),
        "host2".to_string(),
        "host3".to_string(),
        "host4".to_string(),
        "host5".to_string(),
    ];

    let batches = planner.plan_rolling(&tasks, &hosts, 2);

    // With 5 hosts and batch size 2, should have 3 batches
    assert_eq!(batches.len(), 3);

    // First batch should have 2 hosts
    assert_eq!(batches[0].batch_id, "rolling-0");
    assert_eq!(batches[0].hosts, vec!["host1", "host2"]);
    assert_eq!(batches[0].tasks.len(), 2);
    assert!(batches[0].dependencies.is_empty());

    // Second batch should have 2 hosts
    assert_eq!(batches[1].batch_id, "rolling-1");
    assert_eq!(batches[1].hosts, vec!["host3", "host4"]);
    assert_eq!(batches[1].dependencies, vec!["rolling-0"]);

    // Third batch should have 1 host
    assert_eq!(batches[2].batch_id, "rolling-2");
    assert_eq!(batches[2].hosts, vec!["host5"]);
    assert_eq!(batches[2].dependencies, vec!["rolling-1"]);
}

#[test]
fn test_plan_host_pinned_strategy() {
    let planner = StrategyPlanner::new();
    let tasks = vec![
        create_test_task("task1", true),
        create_test_task("task2", false),
    ];
    let hosts = vec![
        "host1".to_string(),
        "host2".to_string(),
        "host3".to_string(),
    ];

    let batches = planner.plan_host_pinned(&tasks, &hosts);

    // Should have one batch per host
    assert_eq!(batches.len(), 3);

    for (i, batch) in batches.iter().enumerate() {
        assert_eq!(batch.batch_id, format!("host-{}", i));
        assert_eq!(batch.hosts, vec![format!("host{}", i + 1)]);
        assert_eq!(batch.tasks.len(), 2); // Each host gets all tasks
        assert!(batch.dependencies.is_empty()); // Host-pinned runs in parallel

        // Verify tasks are assigned to correct host
        for task in &batch.tasks {
            assert_eq!(task.hosts, vec![format!("host{}", i + 1)]);
        }
    }
}

#[test]
fn test_plan_binary_hybrid_strategy() {
    let planner = StrategyPlanner::new();
    let tasks = vec![create_test_task("task1", true)];
    let hosts = vec!["host1".to_string()];

    let batches = planner.plan_binary_hybrid(&tasks, &hosts);
    assert_eq!(batches.len(), 1);
    assert_eq!(batches[0].batch_id, "linear-batch-0");
}

#[test]
fn test_plan_binary_only_strategy() {
    let planner = StrategyPlanner::new();
    let tasks = vec![create_test_task("task1", true)];
    let hosts = vec!["host1".to_string()];

    let batches = planner.plan_binary_only(&tasks, &hosts);
    assert_eq!(batches.len(), 1);
    assert_eq!(batches[0].batch_id, "linear-batch-0");
}

#[test]
fn test_plan_strategy_all_variants() {
    let planner = StrategyPlanner::new();
    let tasks = vec![
        create_test_task("task1", true),
        create_test_task("task2", false),
    ];
    let hosts = vec!["host1".to_string(), "host2".to_string()];

    let strategies = vec![
        ExecutionStrategy::Linear,
        ExecutionStrategy::Free,
        ExecutionStrategy::Rolling { batch_size: 1 },
        ExecutionStrategy::HostPinned,
        ExecutionStrategy::BinaryHybrid,
        ExecutionStrategy::BinaryOnly,
    ];

    for strategy in strategies {
        let batches = planner.plan_strategy(&strategy, &tasks, &hosts);
        assert!(
            !batches.is_empty(),
            "Strategy {:?} produced no batches",
            strategy
        );
    }
}

#[test]
fn test_empty_tasks() {
    let planner = StrategyPlanner::new();
    let tasks = vec![];
    let hosts = vec!["host1".to_string()];

    let batches = planner.plan_linear(&tasks, &hosts);
    assert!(batches.is_empty());

    let batches = planner.plan_free(&tasks, &hosts);
    assert!(batches.is_empty());
}

#[test]
fn test_single_host() {
    let planner = StrategyPlanner::new();
    let tasks = vec![create_test_task("task1", true)];
    let hosts = vec!["host1".to_string()];

    let batches = planner.plan_strategy(&ExecutionStrategy::Linear, &tasks, &hosts);
    assert_eq!(batches.len(), 1);
    assert_eq!(batches[0].hosts, vec!["host1"]);
}

#[test]
fn test_rolling_without_tasks_or_hosts_has_no_batches() {
    let planner = StrategyPlanner::new();
    let tasks = vec![create_test_task("task1", true)];
    let hosts = vec!["host1".to_string()];

    assert!(planner.plan_rolling(&vec![], &hosts, 2).is_empty());
    assert!(planner.plan_rolling(&tasks, &vec![], 2).is_empty());
}

#[test]
fn test_rolling_batch_ids_count_in_decimal() {
    let planner = StrategyPlanner::new();
    let tasks = vec![create_test_task("task1", true)];
    let hosts: Vec<String> = (0..12).map(|i| format!("h{}", i)).collect();

    let batches = planner.plan_rolling(&tasks, &hosts, 1);

    assert_eq!(batches.len(), 12);
    assert_eq!(batches[10].batch_id, "rolling-10");
    assert_eq!(batches[11].batch_id, "rolling-11");
    assert_eq!(batches[11].dependencies, vec!["rolling-10"]);
    assert_eq!(batches[11].hosts, vec!["h11"]);
}

#[test]
fn test_rolling_window_larger_than_hosts() {
    let planner = StrategyPlanner::new();
    let tasks = vec![create_test_task("task1", true)];
    let hosts = vec!["a".to_string(), "b".to_string()];

    let batches = planner.plan_rolling(&tasks, &hosts, 5);

    assert_eq!(batches.len(), 1);
    assert_eq!(batches[0].hosts, vec!["a", "b"]);
    assert_eq!(batches[0].tasks[0].hosts, vec!["a", "b"]);
}

#[test]
fn test_binary_strategy_holds_all_tasks_in_one_batch() {
    let planner = StrategyPlanner::new();
    let tasks = vec![
        create_test_task("task1", true),
        create_test_task("task2", false),
        create_test_task("task3", true),
    ];
    let hosts = vec!["host1".to_string()];

    let batches = planner.plan_strategy(&ExecutionStrategy::BinaryHybrid, &tasks, &hosts);

    assert_eq!(batches.len(), 1);
    assert_eq!(batches[0].tasks.len(), 3);
    assert!(batches[0].dependencies.is_empty());
    assert_eq!(batches[0].estimated_duration, None);
}

#[test]
fn test_free_parallel_batch_keeps_task_order() {
    let planner = StrategyPlanner::new();
    let tasks = vec![
        create_test_task("a", true),
        create_test_task("b", false),
        create_test_task("c", true),
    ];
    let hosts = vec!["host1".to_string()];

    let batches = planner.plan_free(&tasks, &hosts);

    assert_eq!(batches.len(), 2);
    let ids: Vec<&str> = batches[0].tasks.iter().map(|t| t.task_id.as_str()).collect();
    assert_eq!(ids, vec!["a", "c"]);
    assert_eq!(batches[1].tasks[0].task_id, "b");
    assert_eq!(batches[1].estimated_duration, Some(1_000_000_000));
}

#[test]
fn test_rolling_window_of_no_host_without_tasks_or_hosts() {
    let planner = StrategyPlanner::new();
    let tasks = vec![create_test_task("task1", true)];
    let hosts = vec!["host1".to_string()];

    assert!(planner.plan_rolling(&vec![], &hosts, 0).is_empty());
    assert!(planner.plan_rolling(&tasks, &vec![], 0).is_empty());
    assert!(planner
        .plan_strategy(&ExecutionStrategy::Rolling { batch_size: 0 }, &tasks, &vec![])
        .is_empty());
}

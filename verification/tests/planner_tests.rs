use rustle_plan::types::{
    ArgValue, HostFacts, KeyValue, ParsedHandler, Ratio, Timestamp,
};
use rustle_plan::{
    BinarySuitabilityAnalyzer, ExecutionCondition, ExecutionPlan, ExecutionPlanner,
    ExecutionStrategy, ParsedInventory, ParsedPlay, ParsedPlaybook, ParsedTask, PlanError,
    PlanningOptions, RiskLevel, TaskPlan,
};

fn text_arg(key: &str, value: &str) -> KeyValue {
    KeyValue {
        key: key.to_string(),
        value: ArgValue::Text(value.to_string()),
    }
}

fn task(id: &str, module: &str) -> ParsedTask {
    ParsedTask {
        id: id.to_string(),
        name: format!("Task {id}"),
        module: module.to_string(),
        args: vec![],
        dependencies: vec![],
        tags: vec![],
        when: None,
        notify: vec![],
    }
}

fn task_with(id: &str, module: &str, args: Vec<KeyValue>, deps: &[&str], tags: &[&str]) -> ParsedTask {
    let mut t = task(id, module);
    t.args = args;
    t.dependencies = deps.iter().map(|s| s.to_string()).collect();
    t.tags = tags.iter().map(|s| s.to_string()).collect();
    t
}

fn play(hosts: &[&str], tasks: Vec<ParsedTask>) -> ParsedPlay {
    ParsedPlay {
        name: "Play".to_string(),
        hosts: hosts.iter().map(|s| s.to_string()).collect(),
        tasks,
        handlers: vec![],
        vars: vec![],
    }
}

fn playbook(plays: Vec<ParsedPlay>) -> ParsedPlaybook {
    ParsedPlaybook {
        name: "book".to_string(),
        plays,
        vars: vec![],
    }
}

fn inventory(hosts: &[&str]) -> ParsedInventory {
    ParsedInventory {
        hosts: hosts.iter().map(|s| s.to_string()).collect(),
        groups: vec![],
        vars: vec![],
        host_facts: vec![],
    }
}

fn options(strategy: ExecutionStrategy) -> PlanningOptions {
    PlanningOptions {
        limit: None,
        tags: vec![],
        skip_tags: vec![],
        check_mode: false,
        diff_mode: false,
        forks: 50,
        serial: None,
        strategy,
        binary_threshold: 5,
        force_binary: false,
        force_ssh: false,
    }
}

fn stamp() -> Timestamp {
    Timestamp {
        secs: 1_700_000_000,
        nanos: 5,
    }
}

fn all_tasks(plan: &ExecutionPlan) -> Vec<&TaskPlan> {
    plan.plays
        .iter()
        .flat_map(|p| p.batches.iter())
        .flat_map(|b| b.tasks.iter())
        .collect()
}

fn five_file_tasks() -> Vec<ParsedTask> {
    (1..=5)
        .map(|i| task_with(&format!("f{i}"), "file", vec![text_arg("path", &format!("/p{i}"))], &[], &[]))
        .collect()
}

#[test]
fn test_package_and_service_are_planned_with_high_risk() {
    let planner = ExecutionPlanner::new();
    let book = playbook(vec![play(
        &["all"],
        vec![
            task_with(
                "t1",
                "package",
                vec![text_arg("name", "nginx"), text_arg("state", "present")],
                &[],
                &[],
            ),
            task_with(
                "t2",
                "service",
                vec![text_arg("name", "nginx"), text_arg("state", "started")],
                &[],
                &[],
            ),
        ],
    )]);

    let graph = planner.analyze_dependencies(&book.plays[0].tasks).unwrap();
    assert_eq!(
        graph.edge_list(),
        vec![(0, 1, rustle_plan::types::DependencyType::ServicePackage)]
    );

    let plan = planner
        .plan_execution(&book, &inventory(&["h1"]), &options(ExecutionStrategy::Linear))
        .unwrap();

    let tasks = all_tasks(&plan);
    assert_eq!(tasks.len(), 2);
    assert_eq!(tasks[0].task_id, "t1");
    assert_eq!(tasks[0].risk_level, RiskLevel::High);
    assert_eq!(tasks[1].task_id, "t2");
    assert_eq!(tasks[1].risk_level, RiskLevel::High);
    assert!(!tasks[0].can_run_parallel);
    assert_eq!(tasks[0].estimated_duration, Some(60_000_000_000));
    assert_eq!(tasks[1].estimated_duration, Some(5_000_000_000));
    assert_eq!(plan.estimated_duration, Some(65_000_000_000));
}

#[test]
fn test_cycle_fails_the_plan() {
    let planner = ExecutionPlanner::new();
    let book = playbook(vec![play(
        &["all"],
        vec![
            task_with("a", "debug", vec![], &["b"], &[]),
            task_with("b", "debug", vec![], &["a"], &[]),
        ],
    )]);

    let result = planner.plan_execution(&book, &inventory(&["h1"]), &options(ExecutionStrategy::Linear));

    assert!(matches!(result, Err(PlanError::CircularDependency { .. })));
}

#[test]
fn test_unknown_dependency_fails_the_plan() {
    let planner = ExecutionPlanner::new();
    let book = playbook(vec![
        play(&["all"], vec![task("fine", "debug")]),
        play(&["all"], vec![task_with("a", "debug", vec![], &["fine"], &[])]),
    ]);

    // a task of another play is no task of this play
    match planner.plan_execution(&book, &inventory(&["h1"]), &options(ExecutionStrategy::Linear)) {
        Err(PlanError::UnknownTaskDependency { task_id }) => assert_eq!(task_id, "fine"),
        other => panic!("{other:?}"),
    }
}

#[test]
fn test_rolling_takes_the_hosts_two_by_two() {
    let planner = ExecutionPlanner::new();
    let book = playbook(vec![play(&["all"], vec![task("a", "debug"), task("b", "file")])]);
    let mut opts = options(ExecutionStrategy::Rolling { batch_size: 5 });
    opts.serial = Some(2);

    let plan = planner
        .plan_execution(&book, &inventory(&["h1", "h2", "h3", "h4", "h5"]), &opts)
        .unwrap();

    let batches = &plan.plays[0].batches;
    assert_eq!(batches.len(), 3);
    assert_eq!(batches[0].hosts, vec!["h1", "h2"]);
    assert_eq!(batches[1].hosts, vec!["h3", "h4"]);
    assert_eq!(batches[2].hosts, vec!["h5"]);
    assert_eq!(batches[0].batch_id, "rolling-batch-0");
    assert!(batches[0].dependencies.is_empty());
    assert_eq!(batches[1].dependencies, vec!["rolling-batch-0"]);
    assert_eq!(batches[2].dependencies, vec!["rolling-batch-1"]);
    for batch in batches {
        assert_eq!(batch.tasks.len(), 2);
        for t in &batch.tasks {
            assert_eq!(t.hosts, batch.hosts);
        }
    }
    assert_eq!(plan.total_tasks, 6);
    assert_eq!(plan.plays[0].serial, Some(2));
    // 100 ms and 1 s in each of three batches, for four fifths
    assert_eq!(plan.estimated_duration, Some(2_640_000_000));
}

#[test]
fn test_rolling_without_serial_uses_the_batch_size() {
    let planner = ExecutionPlanner::new();
    let book = playbook(vec![play(&["all"], vec![task("a", "debug")])]);

    let plan = planner
        .plan_execution(
            &book,
            &inventory(&["h1", "h2", "h3"]),
            &options(ExecutionStrategy::Rolling { batch_size: 2 }),
        )
        .unwrap();

    assert_eq!(plan.plays[0].batches.len(), 2);
    assert_eq!(plan.plays[0].batches[1].hosts, vec!["h3"]);
}

#[test]
fn test_single_copy_task_gets_no_binary() {
    let planner = ExecutionPlanner::new();
    let book = playbook(vec![play(&["all"], vec![task("only", "copy")])]);

    let plan = planner
        .plan_execution(&book, &inventory(&["h1"]), &options(ExecutionStrategy::BinaryHybrid))
        .unwrap();
    assert!(plan.binary_deployments.is_empty());
    assert_eq!(plan.estimated_compilation_time, None);

    let tasks: Vec<TaskPlan> = all_tasks(&plan).into_iter().cloned().collect();
    let analysis = BinarySuitabilityAnalyzer::new().analyze(&tasks).unwrap();
    assert!(analysis.suitable_groups.is_empty());
    assert_eq!(analysis.unsuitable_tasks, vec!["only"]);
    assert!(analysis
        .reasons
        .get("only")
        .unwrap()
        .to_lowercase()
        .contains("insufficient network operations"));
    assert_eq!(
        planner.analyze_binary_suitability(&tasks).unwrap().unsuitable_tasks,
        vec!["only"]
    );
}

#[test]
fn test_five_shell_tasks_of_medium_risk_get_a_binary() {
    let planner = ExecutionPlanner::new().with_binary_threshold(5);
    let hosts = vec!["h1".to_string(), "h2".to_string()];
    let tasks: Vec<TaskPlan> = (1..=5)
        .map(|i| TaskPlan {
            task_id: format!("s{i}"),
            name: format!("Shell {i}"),
            module: "shell".to_string(),
            args: vec![],
            hosts: hosts.clone(),
            dependencies: vec![],
            conditions: vec![],
            tags: vec![],
            notify: vec![],
            execution_order: i,
            can_run_parallel: false,
            estimated_duration: None,
            risk_level: RiskLevel::Medium,
        })
        .collect();

    let deployments = planner.plan_binary_deployments(&tasks, &hosts).unwrap();

    assert!(!deployments.is_empty());
    assert_eq!(deployments[0].tasks.len(), 5);
    assert_eq!(
        deployments[0].execution_mode,
        rustle_plan::types::BinaryExecutionMode::Controller
    );
    assert_eq!(
        deployments[0].compilation_requirements.target_arch,
        planner.binary_planner.host_arch
    );
    assert!(deployments[0].estimated_size >= 5 * 1024 * 1024 + 5 * 1024);
    assert_eq!(
        planner.estimate_compilation_time(&deployments).unwrap(),
        30_500_000_000
    );
}

#[test]
fn test_limit_that_matches_no_host_fails_the_plan() {
    let planner = ExecutionPlanner::new();
    let book = playbook(vec![play(&["all"], vec![task("a", "debug")])]);
    let mut opts = options(ExecutionStrategy::Linear);
    opts.limit = Some("xyz".to_string());

    match planner.plan_execution(&book, &inventory(&["a", "b", "c"]), &opts) {
        Err(PlanError::InvalidHostPattern { pattern, reason }) => {
            assert_eq!(pattern, "xyz");
            assert_eq!(reason, "No hosts match the pattern");
        }
        other => panic!("{other:?}"),
    }
}

#[test]
fn test_limit_keeps_the_hosts_that_hold_it() {
    let planner = ExecutionPlanner::new();
    let hosts: Vec<String> = ["web1", "db1", "web2"].iter().map(|s| s.to_string()).collect();

    assert_eq!(
        planner.filter_hosts(&hosts, &Some("web".to_string())).unwrap(),
        vec!["web1", "web2"]
    );
    assert_eq!(planner.filter_hosts(&hosts, &Some("all".to_string())).unwrap(), hosts);
    assert_eq!(planner.filter_hosts(&hosts, &None).unwrap(), hosts);
    assert_eq!(planner.filter_hosts(&hosts, &Some("".to_string())).unwrap(), hosts);
    assert!(planner.filter_hosts(&vec![], &Some("".to_string())).unwrap().is_empty());
    assert!(matches!(
        planner.filter_hosts(&vec![], &Some("web".to_string())),
        Err(PlanError::InvalidHostPattern { .. })
    ));
}

#[test]
fn test_play_hosts_are_resolved_against_the_limit() {
    let planner = ExecutionPlanner::new();
    let book = playbook(vec![
        play(&["all"], vec![task("a", "debug")]),
        play(&["web2", "db1", "web1", "gone"], vec![task("b", "debug")]),
    ]);
    let mut opts = options(ExecutionStrategy::Linear);
    opts.limit = Some("web".to_string());

    let plan = planner
        .plan_execution(&book, &inventory(&["web1", "db1", "web2"]), &opts)
        .unwrap();

    assert_eq!(plan.hosts, vec!["web1", "web2"]);
    assert_eq!(plan.plays[0].hosts, vec!["web1", "web2"]);
    assert_eq!(plan.plays[1].hosts, vec!["web2", "web1"]);
    assert_eq!(plan.plays[0].play_id, "play-0");
    assert_eq!(plan.plays[1].play_id, "play-1");
    assert_eq!(plan.plays[1].batches[0].hosts, vec!["web2", "web1"]);
}

#[test]
fn test_tag_filters() {
    let planner = ExecutionPlanner::new();
    let tasks = vec![
        task_with("a", "debug", vec![], &[], &["web", "slow"]),
        task_with("b", "debug", vec![], &[], &["db"]),
        task_with("c", "debug", vec![], &[], &[]),
        task_with("d", "debug", vec![], &[], &["web"]),
    ];
    let ids = |kept: &Vec<ParsedTask>| -> Vec<String> { kept.iter().map(|t| t.id.clone()).collect() };

    let mut opts = options(ExecutionStrategy::Linear);
    assert_eq!(ids(&planner.filter_tasks_by_tags(&tasks, &opts).unwrap()), ["a", "b", "c", "d"]);

    opts.tags = vec!["web".to_string()];
    assert_eq!(ids(&planner.filter_tasks_by_tags(&tasks, &opts).unwrap()), ["a", "d"]);

    opts.skip_tags = vec!["slow".to_string()];
    let once = planner.filter_tasks_by_tags(&tasks, &opts).unwrap();
    assert_eq!(ids(&once), ["d"]);

    // filtering what was kept keeps it
    let twice = planner.filter_tasks_by_tags(&once, &opts).unwrap();
    assert_eq!(ids(&twice), ids(&once));

    opts.tags = vec![];
    assert_eq!(ids(&planner.filter_tasks_by_tags(&tasks, &opts).unwrap()), ["b", "c", "d"]);
}

#[test]
fn test_risk_and_parallelism_of_modules() {
    let planner = ExecutionPlanner::new();
    let cases = vec![
        ("debug", RiskLevel::Low, true),
        ("assert", RiskLevel::Low, true),
        ("fail", RiskLevel::Low, true),
        ("meta", RiskLevel::Low, true),
        ("copy", RiskLevel::Medium, true),
        ("template", RiskLevel::Medium, true),
        ("file", RiskLevel::Medium, true),
        ("lineinfile", RiskLevel::Medium, true),
        ("unheard-of", RiskLevel::Medium, true),
        ("service", RiskLevel::High, false),
        ("systemd", RiskLevel::High, false),
        ("package", RiskLevel::High, false),
        ("yum", RiskLevel::High, false),
        ("apt", RiskLevel::High, false),
        ("shell", RiskLevel::Critical, false),
        ("command", RiskLevel::Critical, false),
        ("raw", RiskLevel::Critical, false),
    ];
    for (module, risk, parallel) in cases {
        let level = planner.assess_task_risk(module);
        assert_eq!(level, risk, "{module}");
        assert_eq!(planner.can_task_run_parallel(&task("t", module), &level), parallel, "{module}");
    }
    // the level decides, whatever the module
    assert!(planner.can_task_run_parallel(&task("t", "debug"), &RiskLevel::High));
    assert!(!planner.can_task_run_parallel(&task("t", "debug"), &RiskLevel::Critical));
}

#[test]
fn test_conditions_of_tasks_and_handlers() {
    let planner = ExecutionPlanner::new().with_check_mode(true);
    let mut t = task_with("a", "debug", vec![], &[], &["web"]);
    t.when = Some("x is defined".to_string());

    let conditions = planner.create_execution_conditions(&t).unwrap();
    assert_eq!(conditions.len(), 3);
    assert!(matches!(&conditions[0], ExecutionCondition::When { expression } if expression == "x is defined"));
    assert!(matches!(&conditions[1], ExecutionCondition::Tag { tags } if tags == &vec!["web".to_string()]));
    assert!(matches!(&conditions[2], ExecutionCondition::CheckMode { enabled: true }));

    let plain = ExecutionPlanner::new();
    assert!(plain.create_execution_conditions(&task("b", "debug")).unwrap().is_empty());

    let handlers = vec![
        ParsedHandler {
            id: "h1".to_string(),
            name: "restart".to_string(),
            module: "service".to_string(),
            args: vec![text_arg("name", "nginx")],
            when: Some("changed".to_string()),
        },
        ParsedHandler {
            id: "h2".to_string(),
            name: "reload".to_string(),
            module: "service".to_string(),
            args: vec![],
            when: None,
        },
    ];
    let plans = planner.create_handler_plans(&handlers).unwrap();
    assert_eq!(plans.len(), 2);
    assert_eq!(plans[0].handler_id, "h1");
    assert_eq!(plans[0].conditions.len(), 1);
    assert_eq!(plans[0].execution_order, 0);
    assert_eq!(plans[0].args.len(), 1);
    assert!(plans[1].conditions.is_empty());
    assert_eq!(plans[1].execution_order, 1);
}

#[test]
fn test_linear_plan_is_a_chain_of_the_filtered_tasks() {
    let planner = ExecutionPlanner::new();
    let book = playbook(vec![play(
        &["all"],
        vec![
            task_with("a", "debug", vec![], &[], &["keep"]),
            task_with("b", "debug", vec![], &[], &["drop"]),
            task_with("c", "file", vec![], &[], &["keep"]),
            task_with("d", "copy", vec![], &[], &["keep"]),
        ],
    )]);
    let mut opts = options(ExecutionStrategy::Linear);
    opts.tags = vec!["keep".to_string()];

    let plan = planner.plan_execution(&book, &inventory(&["h1", "h2"]), &opts).unwrap();

    let batches = &plan.plays[0].batches;
    assert_eq!(batches.len(), 3);
    assert!(batches[0].dependencies.is_empty());
    for i in 0..batches.len() {
        assert_eq!(batches[i].batch_id, format!("batch-{i}"));
        assert_eq!(batches[i].tasks.len(), 1);
        assert_eq!(batches[i].tasks[0].execution_order as usize, i);
        assert_eq!(batches[i].hosts, vec!["h1", "h2"]);
        assert_eq!(batches[i].estimated_duration, batches[i].tasks[0].estimated_duration);
        if i > 0 {
            assert_eq!(batches[i].dependencies, vec![format!("batch-{}", i - 1)]);
        }
    }
    assert_eq!(plan.total_tasks, 3);
}

#[test]
fn test_free_and_pinned_and_binary_layouts_of_a_plan() {
    let planner = ExecutionPlanner::new();
    let book = playbook(vec![play(
        &["all"],
        vec![task("a", "debug"), task("b", "shell"), task("c", "file"), task("d", "raw")],
    )]);
    let inv = inventory(&["h1", "h2"]);

    let free = planner.plan_execution(&book, &inv, &options(ExecutionStrategy::Free)).unwrap();
    let ids: Vec<&str> = free.plays[0].batches.iter().map(|b| b.batch_id.as_str()).collect();
    assert_eq!(ids, vec!["parallel-batch", "sequential-batch-0", "sequential-batch-1"]);
    assert_eq!(free.plays[0].batches[0].tasks.len(), 2);
    assert_eq!(free.plays[0].batches[1].dependencies, vec!["parallel-batch"]);
    assert_eq!(free.plays[0].batches[2].dependencies, vec!["sequential-batch-0"]);
    assert_eq!(free.total_tasks, 4);
    // the longest batch: a shell command of 4.5 s
    assert_eq!(free.estimated_duration, Some(4_500_000_000));

    let pinned = planner.plan_execution(&book, &inv, &options(ExecutionStrategy::HostPinned)).unwrap();
    let ids: Vec<&str> = pinned.plays[0].batches.iter().map(|b| b.batch_id.as_str()).collect();
    assert_eq!(ids, vec!["host-0", "host-1"]);
    assert_eq!(pinned.plays[0].batches[1].hosts, vec!["h2"]);
    assert_eq!(pinned.plays[0].batches[1].tasks[3].hosts, vec!["h2"]);
    assert_eq!(pinned.total_tasks, 8);

    let hybrid = planner.plan_execution(&book, &inv, &options(ExecutionStrategy::BinaryHybrid)).unwrap();
    assert_eq!(hybrid.plays[0].batches.len(), 1);
    assert_eq!(hybrid.plays[0].batches[0].batch_id, "binary-batch");
    assert_eq!(hybrid.plays[0].batches[0].tasks.len(), 4);
    assert_eq!(hybrid.total_tasks, 4);
    // ten seconds and three tenths of 0.1 + 4.5 + 1 + 4.5 s
    assert_eq!(hybrid.estimated_duration, Some(13_030_000_000));

    let only = planner.plan_execution(&book, &inv, &options(ExecutionStrategy::BinaryOnly)).unwrap();
    assert_eq!(only.estimated_duration, None);
}

#[test]
fn test_scores_of_a_plan() {
    let planner = ExecutionPlanner::new();
    let book = playbook(vec![play(
        &["all"],
        vec![task("a", "debug"), task("b", "shell"), task("c", "file"), task("d", "raw")],
    )]);

    let plan = planner
        .plan_execution(&book, &inventory(&["h1"]), &options(ExecutionStrategy::Linear))
        .unwrap();

    assert_eq!(plan.parallelism_score, Ratio { numerator: 2, denominator: 4 });
    assert_eq!(plan.network_efficiency_score, Ratio { numerator: 8, denominator: 40 });

    let empty = planner
        .plan_execution(&playbook(vec![]), &inventory(&["h1"]), &options(ExecutionStrategy::Linear))
        .unwrap();
    assert_eq!(empty.total_tasks, 0);
    assert_eq!(empty.parallelism_score, Ratio { numerator: 0, denominator: 1 });
    assert_eq!(empty.network_efficiency_score, Ratio { numerator: 1, denominator: 1 });
    assert_eq!(empty.estimated_duration, Some(0));
}

#[test]
fn test_plan_with_binaries() {
    let planner = ExecutionPlanner::new();
    let mut tasks = five_file_tasks();
    tasks.push(task("dbg", "debug"));
    let book = playbook(vec![play(&["h2", "h1"], tasks)]);
    let mut inv = inventory(&["h1", "h2", "h3"]);
    inv.host_facts = vec![HostFacts {
        host: "h1".to_string(),
        facts: vec![
            text_arg("ansible_architecture", "aarch64"),
            text_arg("ansible_system", "Linux"),
        ],
    }];

    let plan = planner.plan_execution(&book, &inv, &options(ExecutionStrategy::Linear)).unwrap();

    assert_eq!(plan.binary_deployments.len(), 1);
    let d = &plan.binary_deployments[0];
    assert_eq!(d.tasks, vec!["f1", "f2", "f3", "f4", "f5"]);
    assert_eq!(d.target_hosts, vec!["h2", "h1"]);
    // h2 has no facts, h1 has
    assert_eq!(d.compilation_requirements.target_arch, "aarch64");
    assert!(d.compilation_requirements.cross_compilation);
    assert_eq!(d.embedded_data.facts_required, vec!["ansible_user_gid", "ansible_user_uid"]);
    assert_eq!(d.estimated_size, 5 * 1024 * 1024 + 5 * 1024);
    assert_eq!(plan.estimated_compilation_time, Some(30_500_000_000));
    assert_eq!(plan.total_tasks, 6);
    assert_eq!(plan.network_efficiency_score, Ratio { numerator: 52, denominator: 60 });
    assert_eq!(plan.parallelism_score, Ratio { numerator: 6, denominator: 6 });

    // every host of a batch or a binary is a host of the plan
    for p in &plan.plays {
        for b in &p.batches {
            assert!(b.hosts.iter().all(|h| plan.hosts.contains(h)));
        }
    }
    assert!(d.target_hosts.iter().all(|h| plan.hosts.contains(h)));
    // every task of a binary is a task of a batch
    let planned: Vec<&str> = all_tasks(&plan).iter().map(|t| t.task_id.as_str()).collect();
    assert!(d.tasks.iter().all(|id| planned.contains(&id.as_str())));

    let mut ssh = options(ExecutionStrategy::Linear);
    ssh.force_ssh = true;
    let without = planner.plan_execution(&book, &inv, &ssh).unwrap();
    assert!(without.binary_deployments.is_empty());
    assert_eq!(without.network_efficiency_score, Ratio { numerator: 12, denominator: 60 });
}

#[test]
fn test_dependencies_of_planned_tasks_are_planned() {
    let planner = ExecutionPlanner::new().with_optimization(true);
    let book = playbook(vec![play(
        &["all"],
        vec![
            task_with("a", "shell", vec![], &[], &[]),
            task_with("b", "debug", vec![], &["a"], &[]),
            task_with("c", "file", vec![], &["a", "b"], &[]),
        ],
    )]);

    for strategy in [
        ExecutionStrategy::Linear,
        ExecutionStrategy::Free,
        ExecutionStrategy::Rolling { batch_size: 1 },
        ExecutionStrategy::HostPinned,
        ExecutionStrategy::BinaryHybrid,
    ] {
        let plan = planner
            .plan_execution(&book, &inventory(&["h1", "h2"]), &options(strategy))
            .unwrap();
        let planned: Vec<&str> = all_tasks(&plan).iter().map(|t| t.task_id.as_str()).collect();
        for t in all_tasks(&plan) {
            for dep in &t.dependencies {
                assert!(planned.contains(&dep.as_str()));
            }
        }
        let in_batches: usize = plan
            .plays
            .iter()
            .map(|p| p.batches.iter().map(|b| b.tasks.len()).sum::<usize>())
            .sum();
        assert_eq!(plan.total_tasks, in_batches);
        let p = plan.parallelism_score;
        assert!(p.denominator > 0 && p.numerator <= p.denominator);
        let n = plan.network_efficiency_score;
        assert!(n.numerator <= n.denominator && 5 * n.numerator >= n.denominator);
    }
}

#[test]
fn test_optimization_puts_low_risk_and_short_tasks_first() {
    let planner = ExecutionPlanner::new().with_optimization(true);
    let book = playbook(vec![play(
        &["all"],
        vec![
            task("shell", "shell"),
            task("copy", "copy"),
            task("pkg", "package"),
            task("dbg", "debug"),
            task("file", "file"),
            task("tmpl", "template"),
        ],
    )]);

    let plan = planner
        .plan_execution(&book, &inventory(&["h1"]), &options(ExecutionStrategy::Linear))
        .unwrap();

    let ids: Vec<&str> = all_tasks(&plan).iter().map(|t| t.task_id.as_str()).collect();
    assert_eq!(ids, vec!["dbg", "file", "copy", "tmpl", "pkg", "shell"]);
    // the order in the playbook stays on record
    let orders: Vec<u32> = all_tasks(&plan).iter().map(|t| t.execution_order).collect();
    assert_eq!(orders, vec![3, 4, 1, 5, 2, 0]);
}

#[test]
fn test_planning_twice_gives_the_same_plan() {
    let planner = ExecutionPlanner::new().with_version("9.9.9").with_host_platform("aarch64", "macos");
    let book = playbook(vec![play(&["all"], five_file_tasks())]);
    let inv = inventory(&["h1", "h2"]);
    let opts = options(ExecutionStrategy::Free);

    let first = planner.plan_execution_at(&book, &inv, &opts, stamp()).unwrap();
    let second = planner.plan_execution_at(&book, &inv, &opts, stamp()).unwrap();

    assert_eq!(format!("{first:?}"), format!("{second:?}"));
    assert_eq!(first.metadata.created_at, stamp());
    assert_eq!(first.metadata.rustle_version, "9.9.9");
    assert_eq!(first.metadata.planning_options.forks, 50);
    assert_eq!(first.metadata.playbook_hash.len(), 32);
    assert_ne!(first.metadata.playbook_hash, first.metadata.inventory_hash);
    assert!(first.binary_deployments[0].compilation_requirements.cross_compilation);
}

#[test]
fn test_plan_is_stamped_with_the_time() {
    let planner = ExecutionPlanner::new();
    let plan = planner
        .plan_execution(&playbook(vec![]), &inventory(&["h1"]), &options(ExecutionStrategy::Linear))
        .unwrap();

    // later than the year 2020
    assert!(plan.metadata.created_at.secs > 1_577_836_800);
    assert_eq!(plan.metadata.rustle_version, "0.1.0");
}

#[test]
fn test_builders_set_their_field() {
    let planner = ExecutionPlanner::new()
        .with_strategy(ExecutionStrategy::Free)
        .with_forks(7)
        .with_optimization(true)
        .with_check_mode(true)
        .with_binary_threshold(3);

    assert_eq!(planner.strategy, ExecutionStrategy::Free);
    assert_eq!(planner.forks, 7);
    assert!(planner.optimize);
    assert!(planner.check_mode);
    assert_eq!(planner.binary_threshold, 3);

    let fresh = ExecutionPlanner::default();
    assert_eq!(fresh.strategy, ExecutionStrategy::Linear);
    assert_eq!(fresh.forks, 50);
    assert!(!fresh.optimize);
    assert!(!fresh.check_mode);
    assert_eq!(fresh.binary_threshold, 5);
    assert_eq!(ExecutionStrategy::default(), ExecutionStrategy::Linear);
    assert_eq!(RiskLevel::default(), RiskLevel::Low);
}

#[test]
fn test_validation_and_estimate_of_a_plan() {
    let planner = ExecutionPlanner::new();
    let book = playbook(vec![play(&["nobody"], vec![task("a", "debug")])]);

    let plan = planner
        .plan_execution(&book, &inventory(&["h1"]), &options(ExecutionStrategy::Linear))
        .unwrap();
    let report = planner.validate_plan(&plan).unwrap();

    assert!(!report.is_valid);
    assert_eq!(report.errors, vec!["Batch 'batch-0' has no target hosts"]);
    assert_eq!(planner.estimate_duration(&plan).unwrap(), 100_000_000);
    assert_eq!(planner.estimate_duration_for_plays(&plan.plays).unwrap(), 100_000_000);
}

#[test]
fn test_inputs_beyond_the_limits_are_not_planned() {
    let planner = ExecutionPlanner::new();
    let book = playbook(vec![play(&["all"], vec![task("a", "debug")])]);
    let inv = inventory(&["h1"]);

    let mut no_window = options(ExecutionStrategy::Rolling { batch_size: 0 });
    assert!(!planner.check_planning_limits(&book, &inv, &no_window));
    assert!(planner.try_plan_execution(&book, &inv, &no_window).is_none());

    // the serial setting takes the place of the batch size
    no_window.serial = Some(1);
    assert!(planner.check_planning_limits(&book, &inv, &no_window));
    let plan = planner.try_plan_execution(&book, &inv, &no_window).unwrap().unwrap();
    assert_eq!(plan.total_tasks, 1);

    let mut no_serial = options(ExecutionStrategy::Rolling { batch_size: 3 });
    no_serial.serial = Some(0);
    assert!(!planner.check_planning_limits(&book, &inv, &no_serial));
}

#[test]
fn test_too_many_tasks_for_the_graph_are_not_planned() {
    let planner = ExecutionPlanner::new();
    let many: Vec<ParsedTask> = (0..65_536).map(|i| task(&format!("t{i}"), "debug")).collect();
    let few: Vec<ParsedTask> = (0..300).map(|i| task(&format!("t{i}"), "debug")).collect();
    let inv = inventory(&["h1"]);
    let opts = options(ExecutionStrategy::Linear);

    assert!(!rustle_plan::planner::limits::check_task_limits(&many));
    assert!(rustle_plan::planner::limits::check_task_limits(&few));
    assert!(!planner.check_planning_limits(&playbook(vec![play(&["all"], many)]), &inv, &opts));

    // a failure of the plan is no matter of the limits
    let mut off = options(ExecutionStrategy::Linear);
    off.limit = Some("nowhere".to_string());
    let result = planner.try_plan_execution(&playbook(vec![play(&["all"], few)]), &inv, &off);
    assert!(matches!(result, Some(Err(PlanError::InvalidHostPattern { .. }))));
}

#[test]
fn test_rolling_window_of_no_host_is_taken_where_nothing_rolls() {
    let planner = ExecutionPlanner::new();
    let no_window = options(ExecutionStrategy::Rolling { batch_size: 0 });
    let inv = inventory(&["h1"]);

    // a play without hosts
    let nowhere = playbook(vec![play(&["nobody"], vec![task("a", "debug")])]);
    assert!(planner.check_planning_limits(&nowhere, &inv, &no_window));
    let plan = planner.try_plan_execution(&nowhere, &inv, &no_window).unwrap().unwrap();
    assert!(plan.plays[0].batches.is_empty());
    assert_eq!(plan.total_tasks, 0);

    // a play without tasks
    let idle = playbook(vec![play(&["all"], vec![])]);
    assert!(planner.check_planning_limits(&idle, &inv, &no_window));
    let plan = planner.try_plan_execution(&idle, &inv, &no_window).unwrap().unwrap();
    assert!(plan.plays[0].batches.is_empty());

    // one play with work among them is one too many
    let mixed = playbook(vec![
        play(&["all"], vec![]),
        play(&["all"], vec![task("a", "debug")]),
    ]);
    assert!(!planner.check_planning_limits(&mixed, &inv, &no_window));

    // a limit that leaves no host fails the plan before any layout
    let mut off = options(ExecutionStrategy::Rolling { batch_size: 0 });
    off.limit = Some("nowhere".to_string());
    assert!(matches!(
        planner.try_plan_execution(&mixed, &inv, &off),
        Some(Err(PlanError::InvalidHostPattern { .. }))
    ));
}

use rustle_plan::types::{ArgValue, KeyValue, ParallelGroup};
use rustle_plan::{
    ExecutionBatch, ExecutionStrategy, ParsedTask, PlayPlan, RiskLevel, TaskEstimator, TaskPlan,
};

const SECOND: u128 = 1_000_000_000;

fn text_arg(key: &str, value: &str) -> KeyValue {
    KeyValue {
        key: key.to_string(),
        value: ArgValue::Text(value.to_string()),
    }
}

fn parsed(module: &str, args: Vec<KeyValue>) -> ParsedTask {
    ParsedTask {
        id: "t".to_string(),
        name: "task".to_string(),
        module: module.to_string(),
        args,
        dependencies: vec![],
        tags: vec![],
        when: None,
        notify: vec![],
    }
}

fn planned(id: &str, duration: Option<u128>) -> TaskPlan {
    TaskPlan {
        task_id: id.to_string(),
        name: id.to_string(),
        module: "file".to_string(),
        args: vec![],
        hosts: vec!["h".to_string()],
        dependencies: vec![],
        conditions: vec![],
        tags: vec![],
        notify: vec![],
        execution_order: 0,
        can_run_parallel: true,
        estimated_duration: duration,
        risk_level: RiskLevel::Medium,
    }
}

fn batch(tasks: Vec<TaskPlan>, groups: Vec<ParallelGroup>) -> ExecutionBatch {
    ExecutionBatch {
        batch_id: "b".to_string(),
        hosts: vec!["h".to_string()],
        tasks,
        parallel_groups: groups,
        dependencies: vec![],
        estimated_duration: None,
    }
}

fn play(strategy: ExecutionStrategy, batches: Vec<ExecutionBatch>) -> PlayPlan {
    PlayPlan {
        play_id: "play-0".to_string(),
        name: "play".to_string(),
        strategy,
        serial: None,
        hosts: vec!["h".to_string()],
        batches,
        handlers: vec![],
        estimated_duration: None,
    }
}

fn group(ids: &[&str]) -> ParallelGroup {
    ParallelGroup {
        group_id: "group_0".to_string(),
        tasks: ids.iter().map(|s| s.to_string()).collect(),
        max_parallelism: 4,
        shared_resources: vec![],
    }
}

#[test]
fn test_base_durations_of_modules() {
    let estimator = TaskEstimator::new();
    let cases: Vec<(&str, u128)> = vec![
        ("debug", 100_000_000),
        ("assert", 100_000_000),
        ("fail", 100_000_000),
        ("meta", 100_000_000),
        ("file", SECOND),
        ("lineinfile", SECOND),
        ("cron", SECOND),
        ("copy", 2 * SECOND),
        ("template", 2 * SECOND),
        ("user", 2 * SECOND),
        ("group", 2 * SECOND),
        ("shell", 3 * SECOND),
        ("command", 3 * SECOND),
        ("raw", 3 * SECOND),
        ("package", 30 * SECOND),
        ("yum", 30 * SECOND),
        ("apt", 30 * SECOND),
        ("service", 5 * SECOND),
        ("systemd", 5 * SECOND),
        ("something-else", 5 * SECOND),
    ];
    for (module, expected) in cases {
        assert_eq!(estimator.base_duration_of(module), expected, "{module}");
    }
}

#[test]
fn test_plain_task_takes_its_base_duration() {
    let estimator = TaskEstimator::new();
    assert_eq!(
        estimator.estimate_task_duration(&parsed("debug", vec![])),
        Some(100_000_000)
    );
    assert_eq!(
        estimator.estimate_task_duration(&parsed("unknown", vec![])),
        Some(5 * SECOND)
    );
}

#[test]
fn test_command_modules_take_half_as_long_again() {
    let estimator = TaskEstimator::new();
    assert_eq!(
        estimator.estimate_task_duration(&parsed("shell", vec![])),
        Some(4_500_000_000)
    );
    assert_eq!(
        estimator.calculate_complexity_multiplier(&parsed("raw", vec![])),
        15_000
    );
}

#[test]
fn test_package_installation_takes_twice_as_long() {
    let estimator = TaskEstimator::new();
    let present = parsed("package", vec![text_arg("state", "present")]);
    let latest = parsed("package", vec![text_arg("state", "latest")]);
    let absent = parsed("package", vec![text_arg("state", "absent")]);
    let not_text = parsed(
        "package",
        vec![KeyValue {
            key: "state".to_string(),
            value: ArgValue::Json("true".to_string()),
        }],
    );

    assert_eq!(estimator.estimate_task_duration(&present), Some(60 * SECOND));
    assert_eq!(estimator.estimate_task_duration(&latest), Some(60 * SECOND));
    assert_eq!(estimator.estimate_task_duration(&absent), Some(30 * SECOND));
    assert_eq!(estimator.estimate_task_duration(&not_text), Some(30 * SECOND));
}

#[test]
fn test_all_factors_multiply() {
    let estimator = TaskEstimator::new();
    let mut task = parsed(
        "copy",
        vec![
            text_arg("src", "a"),
            text_arg("dest", "b"),
            text_arg("backup", "yes"),
            text_arg("mode", "0644"),
            text_arg("owner", "root"),
            text_arg("group", "root"),
        ],
    );
    task.when = Some("x is defined".to_string());
    task.notify = vec!["restart".to_string()];

    // 1.2 for six arguments, 1.1 for the condition, 1.1 for the
    // notification, 1.3 for the backup
    assert_eq!(estimator.calculate_complexity_multiplier(&task), 18_876);
    assert_eq!(estimator.estimate_task_duration(&task), Some(3_775_200_000));
}

#[test]
fn test_more_than_ten_arguments_count_for_more_than_six() {
    let estimator = TaskEstimator::new();
    let five: Vec<KeyValue> = (0..5).map(|i| text_arg(&format!("k{i}"), "v")).collect();
    let six: Vec<KeyValue> = (0..6).map(|i| text_arg(&format!("k{i}"), "v")).collect();
    let ten: Vec<KeyValue> = (0..10).map(|i| text_arg(&format!("k{i}"), "v")).collect();
    let eleven: Vec<KeyValue> = (0..11).map(|i| text_arg(&format!("k{i}"), "v")).collect();

    assert_eq!(estimator.estimate_task_duration(&parsed("file", five)), Some(SECOND));
    assert_eq!(
        estimator.estimate_task_duration(&parsed("file", six)),
        Some(1_200_000_000)
    );
    assert_eq!(
        estimator.estimate_task_duration(&parsed("file", ten)),
        Some(1_200_000_000)
    );
    assert_eq!(
        estimator.estimate_task_duration(&parsed("file", eleven)),
        Some(1_500_000_000)
    );
}

#[test]
fn test_condition_and_notification_multiply() {
    let estimator = TaskEstimator::new();
    let mut task = parsed("debug", vec![text_arg("backup", "x")]);
    task.when = Some("w".to_string());
    task.notify = vec!["n".to_string()];
    // 100 ms times 1.21
    assert_eq!(estimator.estimate_task_duration(&task), Some(121_000_000));
}

#[test]
fn test_batch_without_groups_takes_the_sum() {
    let estimator = TaskEstimator::new();
    let b = batch(
        vec![
            planned("a", Some(2 * SECOND)),
            planned("b", None),
            planned("c", Some(3 * SECOND)),
        ],
        vec![],
    );
    assert_eq!(estimator.estimate_batch_duration(&b).unwrap(), 5 * SECOND);
    assert_eq!(estimator.estimate_batch_duration(&batch(vec![], vec![])).unwrap(), 0);
}

#[test]
fn test_batch_with_groups_takes_the_longest_of_a_group() {
    let estimator = TaskEstimator::new();
    let b = batch(
        vec![
            planned("a", Some(2 * SECOND)),
            planned("b", Some(7 * SECOND)),
            planned("c", Some(3 * SECOND)),
            planned("d", Some(SECOND)),
        ],
        vec![group(&["a", "b", "missing"])],
    );
    // a and b side by side take 7 s, then c and d one after another
    assert_eq!(estimator.estimate_batch_duration(&b).unwrap(), 11 * SECOND);
    assert_eq!(estimator.duration_of_task(&b.tasks, "b"), 7 * SECOND);
    assert_eq!(estimator.duration_of_task(&b.tasks, "missing"), 0);
    assert!(estimator.named_by_group(&b.parallel_groups, "a"));
    assert!(!estimator.named_by_group(&b.parallel_groups, "c"));
    assert_eq!(
        estimator.estimate_group_duration(&b.tasks, &b.parallel_groups[0]),
        7 * SECOND
    );
}

#[test]
fn test_group_of_foreign_tasks_changes_nothing() {
    let estimator = TaskEstimator::new();
    let b = batch(
        vec![planned("a", Some(2 * SECOND)), planned("b", Some(SECOND))],
        vec![group(&["x", "y"])],
    );
    assert_eq!(estimator.estimate_batch_duration(&b).unwrap(), 3 * SECOND);
}

#[test]
fn test_play_durations_by_strategy() {
    let estimator = TaskEstimator::new();
    let batches = || {
        vec![
            batch(vec![planned("a", Some(2 * SECOND))], vec![]),
            batch(vec![planned("b", Some(5 * SECOND))], vec![]),
            batch(vec![planned("c", Some(3 * SECOND))], vec![]),
        ]
    };

    let linear = play(ExecutionStrategy::Linear, batches());
    let pinned = play(ExecutionStrategy::HostPinned, batches());
    let free = play(ExecutionStrategy::Free, batches());
    let rolling = play(ExecutionStrategy::Rolling { batch_size: 2 }, batches());
    let hybrid = play(ExecutionStrategy::BinaryHybrid, batches());
    let only = play(ExecutionStrategy::BinaryOnly, batches());

    assert_eq!(estimator.estimate_play_duration(&linear).unwrap(), 10 * SECOND);
    assert_eq!(estimator.estimate_play_duration(&pinned).unwrap(), 10 * SECOND);
    assert_eq!(estimator.estimate_play_duration(&free).unwrap(), 5 * SECOND);
    assert_eq!(estimator.estimate_play_duration(&rolling).unwrap(), 8 * SECOND);
    assert_eq!(estimator.estimate_play_duration(&hybrid).unwrap(), 13 * SECOND);
    assert_eq!(estimator.estimate_play_duration(&only).unwrap(), 13 * SECOND);
    assert_eq!(estimator.sum_of_batches(&linear.batches), 10 * SECOND);
    assert_eq!(estimator.longest_batch(&linear.batches), 5 * SECOND);
}

#[test]
fn test_plays_are_taken_one_after_another() {
    let estimator = TaskEstimator::new();
    let plays = vec![
        play(
            ExecutionStrategy::Free,
            vec![
                batch(vec![planned("a", Some(2 * SECOND))], vec![]),
                batch(vec![planned("b", Some(5 * SECOND))], vec![]),
            ],
        ),
        play(
            ExecutionStrategy::Linear,
            vec![batch(vec![planned("c", Some(3 * SECOND))], vec![])],
        ),
    ];
    assert_eq!(estimator.estimate_plays_duration(&plays).unwrap(), 8 * SECOND);
    assert_eq!(estimator.estimate_plays_duration(&vec![]).unwrap(), 0);
}

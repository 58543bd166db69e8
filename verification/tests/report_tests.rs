use rustle_plan::report::{
    generate_dot_visualization, join_with_commas, list_binary_deployments, list_hosts, list_tasks,
};
use rustle_plan::types::Timestamp;
use rustle_plan::{
    ExecutionPlan, ExecutionPlanner, ExecutionStrategy, ParsedInventory, ParsedPlay,
    ParsedPlaybook, ParsedTask, PlanningOptions,
};

fn task(id: &str, name: &str, module: &str, deps: &[&str]) -> ParsedTask {
    ParsedTask {
        id: id.to_string(),
        name: name.to_string(),
        module: module.to_string(),
        args: vec![],
        dependencies: deps.iter().map(|s| s.to_string()).collect(),
        tags: vec![],
        when: None,
        notify: vec![],
    }
}

fn plan_of(plays: Vec<ParsedPlay>, strategy: ExecutionStrategy) -> ExecutionPlan {
    let playbook = ParsedPlaybook {
        name: "book".to_string(),
        plays,
        vars: vec![],
    };
    let inventory = ParsedInventory {
        hosts: vec!["h1".to_string(), "h2".to_string()],
        groups: vec![],
        vars: vec![],
        host_facts: vec![],
    };
    let options = PlanningOptions {
        limit: None,
        tags: vec![],
        skip_tags: vec![],
        check_mode: false,
        diff_mode: false,
        forks: 50,
        serial: None,
        strategy,
        binary_threshold: 5,
        force_binary: false,
        force_ssh: false,
    };
    ExecutionPlanner::new()
        .plan_execution_at(
            &playbook,
            &inventory,
            &options,
            Timestamp { secs: 0, nanos: 0 },
        )
        .unwrap()
}

fn two_plays() -> Vec<ParsedPlay> {
    vec![
        ParsedPlay {
            name: "Web".to_string(),
            hosts: vec!["all".to_string()],
            tasks: vec![
                task("t1", "Install", "debug", &[]),
                task("t2", "Start", "debug", &["t1"]),
                task("t3", "Check", "debug", &["t1", "t2"]),
            ],
            handlers: vec![],
            vars: vec![],
        },
        ParsedPlay {
            name: "Empty".to_string(),
            hosts: vec!["all".to_string()],
            tasks: vec![],
            handlers: vec![],
            vars: vec![],
        },
    ]
}

#[test]
fn test_tasks_are_listed_play_by_play() {
    let plan = plan_of(two_plays(), ExecutionStrategy::Linear);

    assert_eq!(
        list_tasks(&plan),
        vec![
            "Planned tasks:",
            "  Play 1: Web",
            "    - Install (t1)",
            "    - Start (t2)",
            "    - Check (t3)",
            "  Play 2: Empty",
        ]
    );
    assert_eq!(
        list_tasks(&plan_of(vec![], ExecutionStrategy::Linear)),
        vec!["Planned tasks:"]
    );
}

#[test]
fn test_hosts_are_listed() {
    let plan = plan_of(two_plays(), ExecutionStrategy::Linear);
    assert_eq!(list_hosts(&plan), vec!["Target hosts:", "  - h1", "  - h2"]);
}

#[test]
fn test_binaries_are_listed() {
    let files: Vec<ParsedTask> = (1..=5)
        .map(|i| task(&format!("f{i}"), "File", "file", &[]))
        .collect();
    let plan = plan_of(
        vec![ParsedPlay {
            name: "Files".to_string(),
            hosts: vec!["all".to_string()],
            tasks: files,
            handlers: vec![],
            vars: vec![],
        }],
        ExecutionStrategy::Linear,
    );

    assert_eq!(
        list_binary_deployments(&plan),
        vec![
            "Binary deployments:",
            "  - rustle-runner-group_0 (group_0)",
            "    Hosts: h1, h2",
            "    Tasks: 5",
            "    Estimated size: 5248000 bytes",
        ]
    );
    assert_eq!(
        list_binary_deployments(&plan_of(vec![], ExecutionStrategy::Linear)),
        vec!["Binary deployments:"]
    );
}

#[test]
fn test_graph_in_the_dot_language() {
    let plan = plan_of(two_plays(), ExecutionStrategy::Linear);

    assert_eq!(
        generate_dot_visualization(&plan),
        vec![
            "digraph execution_plan {",
            "  rankdir=TB;",
            "  node [shape=box];",
            "  subgraph cluster_0 {",
            "    label=\"Web\";",
            "    \"t1\" [label=\"Install\"];",
            "    \"t2\" [label=\"Start\"];",
            "    \"t1\" -> \"t2\";",
            "    \"t3\" [label=\"Check\"];",
            "    \"t1\" -> \"t3\";",
            "    \"t2\" -> \"t3\";",
            "  }",
            "  subgraph cluster_1 {",
            "    label=\"Empty\";",
            "  }",
            "}",
        ]
    );
}

#[test]
fn test_every_batch_of_a_rolling_plan_is_drawn() {
    let plan = plan_of(two_plays(), ExecutionStrategy::Rolling { batch_size: 1 });
    let lines = generate_dot_visualization(&plan);

    // three tasks with three edges in each of two windows
    assert_eq!(lines.iter().filter(|l| l.contains("[label=")).count(), 6);
    assert_eq!(lines.iter().filter(|l| l.contains(" -> ")).count(), 6);
}

#[test]
fn test_commas_between_texts() {
    assert_eq!(join_with_commas(&vec![]), "");
    assert_eq!(join_with_commas(&vec!["a".to_string()]), "a");
    assert_eq!(
        join_with_commas(&vec!["a".to_string(), "b".to_string(), "c".to_string()]),
        "a, b, c"
    );
}

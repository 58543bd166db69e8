use rustle_plan::planner::DependencyGraphBuilder;
use rustle_plan::types::{ArgValue, KeyValue};
use rustle_plan::{RiskLevel, TaskPlan};

fn text_arg(key: &str, value: &str) -> KeyValue {
    KeyValue {
        key: key.to_string(),
        value: ArgValue::Text(value.to_string()),
    }
}

fn create_test_task(id: &str, module: &str) -> TaskPlan {
    TaskPlan {
        task_id: id.to_string(),
        name: format!("Test Task {id}"),
        module: module.to_string(),
        args: vec![],
        hosts: vec!["host1".to_string()],
        dependencies: vec![],
        conditions: vec![],
        tags: vec![],
        notify: vec![],
        execution_order: 1,
        can_run_parallel: true,
        estimated_duration: Some(5_000_000_000),
        risk_level: RiskLevel::Low,
    }
}

fn create_task_with_dependencies(id: &str, dependencies: Vec<String>) -> TaskPlan {
    let mut task = create_test_task(id, "shell");
    task.dependencies = dependencies;
    task
}

fn create_task_with_args(id: &str, module: &str, args: Vec<KeyValue>) -> TaskPlan {
    let mut task = create_test_task(id, module);
    task.args = args;
    task
}

fn create_task_non_parallel(id: &str) -> TaskPlan {
    let mut task = create_test_task(id, "shell");
    task.can_run_parallel = false;
    task
}

#[test]
fn graph_test_new() {
    let builder = DependencyGraphBuilder::new();
    assert!(std::ptr::eq(&builder, &builder));
}

#[test]
fn graph_test_default() {
    let builder = DependencyGraphBuilder;
    assert!(std::ptr::eq(&builder, &builder));
}

#[test]
fn test_build_from_tasks_empty() {
    let builder = DependencyGraphBuilder::new();
    let result = builder.build_from_tasks(&vec![]).unwrap();

    assert_eq!(result.graph.node_count(), 0);
    assert_eq!(result.graph.edge_count(), 0);
}

#[test]
fn test_build_from_tasks_single_task() {
    let builder = DependencyGraphBuilder::new();
    let task = create_test_task("task1", "shell");
    let result = builder.build_from_tasks(&vec![task]).unwrap();

    assert_eq!(result.graph.node_count(), 1);
    assert_eq!(result.graph.edge_count(), 0);
    assert!(result.task_nodes.contains_key("task1"));
}

#[test]
fn test_build_from_tasks_with_dependencies() {
    let builder = DependencyGraphBuilder::new();
    let task1 = create_test_task("task1", "shell");
    let task2 = create_task_with_dependencies("task2", vec!["task1".to_string()]);
    let tasks = vec![task1, task2];

    let result = builder.build_from_tasks(&tasks).unwrap();

    assert_eq!(result.graph.node_count(), 2);
    assert_eq!(result.graph.edge_count(), 1);
    assert!(result.has_path("task1", "task2"));
    assert!(!result.has_path("task2", "task1"));
}

#[test]
fn test_build_from_tasks_missing_dependency() {
    let builder = DependencyGraphBuilder::new();
    let task = create_task_with_dependencies("task1", vec!["missing_task".to_string()]);
    let result = builder.build_from_tasks(&vec![task]).unwrap();

    assert_eq!(result.graph.node_count(), 1);
    assert_eq!(result.graph.edge_count(), 0);
}

#[test]
fn test_find_parallel_groups_empty() {
    let builder = DependencyGraphBuilder::new();
    let graph = builder.build_from_tasks(&vec![]).unwrap();
    let groups = builder.find_parallel_groups(&vec![], &graph);

    assert!(groups.is_empty());
}

#[test]
fn test_find_parallel_groups_single_task() {
    let builder = DependencyGraphBuilder::new();
    let task = create_test_task("task1", "shell");
    let graph = builder.build_from_tasks(&vec![task.clone()]).unwrap();
    let groups = builder.find_parallel_groups(&vec![task], &graph);

    assert!(groups.is_empty());
}

#[test]
fn test_find_parallel_groups_independent_tasks() {
    let builder = DependencyGraphBuilder::new();
    let task1 = create_test_task("task1", "shell");
    let task2 = create_test_task("task2", "copy");
    let tasks = vec![task1, task2];
    let graph = builder.build_from_tasks(&tasks).unwrap();
    let groups = builder.find_parallel_groups(&tasks, &graph);

    assert_eq!(groups.len(), 1);
    assert_eq!(groups[0].tasks.len(), 2);
    assert!(groups[0].tasks.contains(&"task1".to_string()));
    assert!(groups[0].tasks.contains(&"task2".to_string()));
}

#[test]
fn test_find_parallel_groups_dependent_tasks() {
    let builder = DependencyGraphBuilder::new();
    let task1 = create_test_task("task1", "shell");
    let task2 = create_task_with_dependencies("task2", vec!["task1".to_string()]);
    let tasks = vec![task1, task2];
    let graph = builder.build_from_tasks(&tasks).unwrap();
    let groups = builder.find_parallel_groups(&tasks, &graph);

    assert!(groups.is_empty());
}

#[test]
fn test_find_parallel_groups_non_parallel_task() {
    let builder = DependencyGraphBuilder::new();
    let task1 = create_task_non_parallel("task1");
    let task2 = create_test_task("task2", "copy");
    let tasks = vec![task1, task2];
    let graph = builder.build_from_tasks(&tasks).unwrap();
    let groups = builder.find_parallel_groups(&tasks, &graph);

    assert!(groups.is_empty());
}

#[test]
fn test_can_run_parallel_independent_tasks() {
    let builder = DependencyGraphBuilder::new();
    let task1 = create_test_task("task1", "shell");
    let task2 = create_test_task("task2", "copy");
    let tasks = vec![task1.clone(), task2.clone()];
    let graph = builder.build_from_tasks(&tasks).unwrap();

    assert!(builder.can_run_parallel(&task1, &task2, &graph));
}

#[test]
fn test_can_run_parallel_dependent_tasks() {
    let builder = DependencyGraphBuilder::new();
    let task1 = create_test_task("task1", "shell");
    let task2 = create_task_with_dependencies("task2", vec!["task1".to_string()]);
    let tasks = vec![task1.clone(), task2.clone()];
    let graph = builder.build_from_tasks(&tasks).unwrap();

    assert!(!builder.can_run_parallel(&task1, &task2, &graph));
}

#[test]
fn test_can_run_parallel_non_parallel_task() {
    let builder = DependencyGraphBuilder::new();
    let task1 = create_task_non_parallel("task1");
    let task2 = create_test_task("task2", "copy");
    let tasks = vec![task1.clone(), task2.clone()];
    let graph = builder.build_from_tasks(&tasks).unwrap();

    assert!(!builder.can_run_parallel(&task1, &task2, &graph));
}

#[test]
fn test_can_run_parallel_resource_conflict() {
    let builder = DependencyGraphBuilder::new();
    let args = vec![text_arg("dest", "/etc/config")];
    let task1 = create_task_with_args("task1", "copy", args.clone());
    let task2 = create_task_with_args("task2", "template", args);
    let tasks = vec![task1.clone(), task2.clone()];
    let graph = builder.build_from_tasks(&tasks).unwrap();

    assert!(!builder.can_run_parallel(&task1, &task2, &graph));
}

#[test]
fn test_has_resource_conflict_same_dest() {
    let builder = DependencyGraphBuilder::new();
    let args = vec![text_arg("dest", "/etc/config")];
    let task1 = create_task_with_args("task1", "copy", args.clone());
    let task2 = create_task_with_args("task2", "template", args);

    assert!(builder.has_resource_conflict(&task1, &task2));
}

#[test]
fn graph_test_has_resource_conflict_same_service() {
    let builder = DependencyGraphBuilder::new();
    let args = vec![text_arg("name", "nginx")];
    let task1 = create_task_with_args("task1", "service", args.clone());
    let task2 = create_task_with_args("task2", "service", args);

    assert!(builder.has_resource_conflict(&task1, &task2));
}

#[test]
fn test_has_resource_conflict_different_resources() {
    let builder = DependencyGraphBuilder::new();
    let args1 = vec![text_arg("dest", "/etc/config1")];
    let args2 = vec![text_arg("dest", "/etc/config2")];
    let task1 = create_task_with_args("task1", "copy", args1);
    let task2 = create_task_with_args("task2", "template", args2);

    assert!(!builder.has_resource_conflict(&task1, &task2));
}

#[test]
fn test_calculate_max_parallelism() {
    let builder = DependencyGraphBuilder::new();
    let task = create_test_task("task1", "shell");

    assert_eq!(builder.calculate_max_parallelism(&task), 4);
}

#[test]
fn test_dependency_graph_has_path() {
    let builder = DependencyGraphBuilder::new();
    let task1 = create_test_task("task1", "shell");
    let task2 = create_task_with_dependencies("task2", vec!["task1".to_string()]);
    let task3 = create_task_with_dependencies("task3", vec!["task2".to_string()]);
    let tasks = vec![task1, task2, task3];
    let graph = builder.build_from_tasks(&tasks).unwrap();

    assert!(graph.has_path("task1", "task2"));
    assert!(graph.has_path("task1", "task3"));
    assert!(graph.has_path("task2", "task3"));
    assert!(!graph.has_path("task2", "task1"));
    assert!(!graph.has_path("task3", "task1"));
}

#[test]
fn test_dependency_graph_no_path_independent() {
    let builder = DependencyGraphBuilder::new();
    let task1 = create_test_task("task1", "shell");
    let task2 = create_test_task("task2", "copy");
    let tasks = vec![task1, task2];
    let graph = builder.build_from_tasks(&tasks).unwrap();

    assert!(!graph.has_path("task1", "task2"));
    assert!(!graph.has_path("task2", "task1"));
}

#[test]
fn test_parallel_group_structure() {
    let builder = DependencyGraphBuilder::new();
    let task1 = create_test_task("task1", "shell");
    let task2 = create_test_task("task2", "copy");
    let tasks = vec![task1, task2];
    let graph = builder.build_from_tasks(&tasks).unwrap();
    let groups = builder.find_parallel_groups(&tasks, &graph);

    assert_eq!(groups.len(), 1);
    let group = &groups[0];
    assert_eq!(group.group_id, "group_0");
    assert_eq!(group.max_parallelism, 4);
    assert!(group.shared_resources.is_empty());
}

#[test]
fn test_has_path_of_a_task_to_itself_and_of_unknown_tasks() {
    let builder = DependencyGraphBuilder::new();
    let tasks = vec![create_test_task("task1", "shell")];
    let graph = builder.build_from_tasks(&tasks).unwrap();

    assert!(graph.has_path("task1", "task1"));
    assert!(!graph.has_path("task1", "nowhere"));
    assert!(!graph.has_path("nowhere", "task1"));
    assert_eq!(graph.node_count(), 1);
    assert_eq!(graph.edge_count(), 0);
    assert_eq!(graph.task_nodes.get("task1"), Some(0));
    assert_eq!(graph.task_nodes.len(), 1);
}

#[test]
fn test_parallel_group_takes_every_task_that_fits_its_founder() {
    let builder = DependencyGraphBuilder::new();
    let a = create_test_task("a", "shell");
    let b = create_task_with_dependencies("b", vec!["a".to_string()]);
    let c = create_test_task("c", "copy");
    let d = create_task_with_dependencies("d", vec!["c".to_string()]);
    let tasks = vec![a, b, c, d];
    let graph = builder.build_from_tasks(&tasks).unwrap();

    let groups = builder.find_parallel_groups(&tasks, &graph);

    // b waits for a; c and d are only held against a, the founder
    assert_eq!(groups.len(), 1);
    assert_eq!(groups[0].group_id, "group_0");
    assert_eq!(groups[0].tasks, vec!["a", "c", "d"]);
}

#[test]
fn test_parallel_groups_are_numbered_in_order() {
    let builder = DependencyGraphBuilder::new();
    let a = create_task_with_args("a", "copy", vec![text_arg("dest", "/x")]);
    let b = create_task_with_args("b", "copy", vec![text_arg("dest", "/x")]);
    let c = create_test_task("c", "copy");
    let e = create_task_with_dependencies("e", vec!["a".to_string()]);
    let tasks = vec![a, b, c, e];
    let graph = builder.build_from_tasks(&tasks).unwrap();

    let groups = builder.find_parallel_groups(&tasks, &graph);

    // b writes the file of a and e waits for a, so they found a second group
    assert_eq!(groups.len(), 2);
    assert_eq!(groups[0].group_id, "group_0");
    assert_eq!(groups[0].tasks, vec!["a", "c"]);
    assert_eq!(groups[1].group_id, "group_1");
    assert_eq!(groups[1].tasks, vec!["b", "e"]);
}

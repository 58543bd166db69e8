use rustle_plan::types::{ArgValue, DependencyType, KeyValue};
use rustle_plan::{DependencyAnalyzer, ParsedTask, PlanError};

fn text_arg(key: &str, value: &str) -> KeyValue {
    KeyValue {
        key: key.to_string(),
        value: ArgValue::Text(value.to_string()),
    }
}

fn task(id: &str, module: &str, args: Vec<KeyValue>, dependencies: &[&str]) -> ParsedTask {
    ParsedTask {
        id: id.to_string(),
        name: id.to_string(),
        module: module.to_string(),
        args,
        dependencies: dependencies.iter().map(|s| s.to_string()).collect(),
        tags: vec![],
        when: None,
        notify: vec![],
    }
}

#[test]
fn test_service_waits_for_its_package() {
    let tasks = vec![
        task(
            "t1",
            "package",
            vec![text_arg("name", "nginx"), text_arg("state", "present")],
            &[],
        ),
        task(
            "t2",
            "service",
            vec![text_arg("name", "nginx"), text_arg("state", "started")],
            &[],
        ),
    ];

    let graph = DependencyAnalyzer::new().analyze(&tasks).unwrap();

    assert_eq!(graph.node_count(), 2);
    assert_eq!(
        graph.edge_list(),
        vec![(0, 1, DependencyType::ServicePackage)]
    );
    assert!(graph.has_path("t1", "t2"));
    assert!(!graph.has_path("t2", "t1"));
}

#[test]
fn test_implicit_dependencies_by_kind() {
    let analyzer = DependencyAnalyzer::new();
    let writer = task("w", "copy", vec![text_arg("dest", "/f")], &[]);
    let reader = task("r", "copy", vec![text_arg("src", "/f")], &[]);
    let creator = task("c", "file", vec![text_arg("path", "/p")], &[]);
    let editor = task("e", "lineinfile", vec![text_arg("path", "/p")], &[]);
    let other = task("o", "lineinfile", vec![text_arg("path", "/q")], &[]);
    let package = task("p", "package", vec![text_arg("name", "a")], &[]);
    let service = task("s", "service", vec![text_arg("name", "b")], &[]);

    assert_eq!(
        analyzer.detect_implicit_dependency(&writer, &reader),
        Some(DependencyType::FileOutput)
    );
    assert_eq!(analyzer.detect_implicit_dependency(&reader, &writer), None);
    assert_eq!(
        analyzer.detect_implicit_dependency(&creator, &editor),
        Some(DependencyType::FileOutput)
    );
    assert_eq!(analyzer.detect_implicit_dependency(&creator, &other), None);
    assert_eq!(analyzer.detect_implicit_dependency(&package, &service), None);
}

#[test]
fn test_no_implicit_edge_between_explicitly_related_tasks() {
    let tasks = vec![
        task("t1", "package", vec![text_arg("name", "nginx")], &["t2"]),
        task("t2", "service", vec![text_arg("name", "nginx")], &[]),
    ];

    let graph = DependencyAnalyzer::new().analyze(&tasks).unwrap();

    // only the stated edge from t2 to t1
    assert_eq!(graph.edge_list(), vec![(1, 0, DependencyType::Explicit)]);
}

#[test]
fn test_edges_are_added_task_by_task() {
    let tasks = vec![
        task("a", "copy", vec![text_arg("dest", "/x")], &[]),
        task("b", "copy", vec![text_arg("src", "/x"), text_arg("dest", "/y")], &[]),
        task("c", "copy", vec![text_arg("src", "/y")], &["a"]),
    ];

    let graph = DependencyAnalyzer::new().analyze(&tasks).unwrap();

    assert_eq!(
        graph.edge_list(),
        vec![
            (0, 1, DependencyType::FileOutput),
            (0, 2, DependencyType::Explicit),
            (1, 2, DependencyType::FileOutput),
        ]
    );
    assert_eq!(graph.edge_count(), 3);
    assert!(graph.has_path("a", "c"));
}

#[test]
fn test_cycle_is_reported_with_a_task_on_it() {
    let tasks = vec![
        task("free", "debug", vec![], &[]),
        task("a", "debug", vec![], &["b"]),
        task("b", "debug", vec![], &["a"]),
    ];

    match DependencyAnalyzer::new().analyze(&tasks) {
        Err(PlanError::CircularDependency { cycle }) => {
            assert!(
                cycle == "Cycle detected involving task 'a'"
                    || cycle == "Cycle detected involving task 'b'",
                "{cycle}"
            );
        }
        other => panic!("expected a cycle, got {other:?}"),
    }
}

#[test]
fn test_task_that_depends_on_itself_is_a_cycle() {
    let tasks = vec![task("a", "debug", vec![], &["a"])];

    match DependencyAnalyzer::new().analyze(&tasks) {
        Err(PlanError::CircularDependency { cycle }) => {
            assert_eq!(cycle, "Cycle detected involving task 'a'");
        }
        other => panic!("expected a cycle, got {other:?}"),
    }
}

#[test]
fn test_implicit_edges_can_close_a_cycle() {
    let tasks = vec![
        task("a", "copy", vec![text_arg("src", "/y"), text_arg("dest", "/x")], &[]),
        task("b", "copy", vec![text_arg("src", "/x"), text_arg("dest", "/y")], &[]),
    ];

    assert!(matches!(
        DependencyAnalyzer::new().analyze(&tasks),
        Err(PlanError::CircularDependency { .. })
    ));
}

#[test]
fn test_first_unknown_dependency_is_reported() {
    let tasks = vec![
        task("a", "debug", vec![], &[]),
        task("b", "debug", vec![], &["a", "ghost", "phantom"]),
        task("c", "debug", vec![], &["nobody"]),
    ];

    match DependencyAnalyzer::new().analyze(&tasks) {
        Err(PlanError::UnknownTaskDependency { task_id }) => assert_eq!(task_id, "ghost"),
        other => panic!("expected an unknown dependency, got {other:?}"),
    }
}

#[test]
fn test_unknown_dependency_comes_before_a_cycle() {
    let tasks = vec![
        task("a", "debug", vec![], &["b"]),
        task("b", "debug", vec![], &["a", "ghost"]),
    ];

    assert!(matches!(
        DependencyAnalyzer::new().analyze(&tasks),
        Err(PlanError::UnknownTaskDependency { .. })
    ));
}

#[test]
fn test_analysis_of_no_tasks() {
    let graph = DependencyAnalyzer::new().analyze(&vec![]).unwrap();
    assert_eq!(graph.node_count(), 0);
    assert_eq!(graph.edge_count(), 0);
    assert!(graph.edge_list().is_empty());
}

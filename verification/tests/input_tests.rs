use rustle_plan::input::{create_default_inventory, remove_first_inventory_field};
use rustle_plan::text::{clone_strings, contains_string, join2, join3, lists_intersect, numbered};
use rustle_plan::types::{ArgValue, KeyValue};
use rustle_plan::{ExecutionOptimizer, RiskLevel, TaskPlan};

fn renamed(content: &str) -> String {
    String::from_utf8(remove_first_inventory_field(content.as_bytes())).unwrap()
}

fn planned(id: &str, risk: RiskLevel, duration: Option<u128>) -> TaskPlan {
    TaskPlan {
        task_id: id.to_string(),
        name: id.to_string(),
        module: "file".to_string(),
        args: vec![],
        hosts: vec![],
        dependencies: vec![],
        conditions: vec![],
        tags: vec![],
        notify: vec![],
        execution_order: 0,
        can_run_parallel: true,
        estimated_duration: duration,
        risk_level: risk,
    }
}

#[test]
fn test_one_inventory_is_left_alone() {
    let content = r#"{"plays":[],"inventory":{"hosts":["a"]}}"#;
    assert_eq!(renamed(content), content);
    assert_eq!(renamed(""), "");
    assert_eq!(renamed(r#"{"plays":[]}"#), r#"{"plays":[]}"#);
    assert_eq!(renamed(r#""inventory":"#), r#""inventory":"#);
}

#[test]
fn test_first_of_two_inventories_is_put_aside() {
    let content = r#"{"inventory":{"hosts":[]},"plays":[],"inventory":{"hosts":["a"]}}"#;
    assert_eq!(
        renamed(content),
        r#"{"old_inventory":{"hosts":[]},"plays":[],"inventory":{"hosts":["a"]}}"#
    );
}

#[test]
fn test_only_the_first_of_three_inventories_is_put_aside() {
    let content = r#""inventory":1,"inventory":2,"inventory":3"#;
    assert_eq!(renamed(content), r#""old_inventory":1,"inventory":2,"inventory":3"#);
}

#[test]
fn test_key_needs_its_colon() {
    let content = r#"{"inventory" :1,"inventory":2,"my_inventory":3}"#;
    assert_eq!(renamed(content), content);
}

#[test]
fn test_default_inventory_is_the_local_host() {
    let inventory = create_default_inventory();
    assert_eq!(inventory.hosts, vec!["localhost"]);
    assert!(inventory.groups.is_empty());
    assert!(inventory.vars.is_empty());
    assert!(inventory.host_facts.is_empty());
}

#[test]
fn test_order_by_risk_then_duration() {
    let optimizer = ExecutionOptimizer::new();
    let tasks = vec![
        planned("crit", RiskLevel::Critical, Some(1)),
        planned("med-5", RiskLevel::Medium, Some(5)),
        planned("low-none", RiskLevel::Low, None),
        planned("med-2a", RiskLevel::Medium, Some(2)),
        planned("high", RiskLevel::High, None),
        planned("low-0", RiskLevel::Low, Some(0)),
        planned("med-2b", RiskLevel::Medium, Some(2)),
        planned("med-none", RiskLevel::Medium, None),
    ];

    let ordered = optimizer.optimize_order(&tasks).unwrap();

    let ids: Vec<&str> = ordered.iter().map(|t| t.task_id.as_str()).collect();
    assert_eq!(
        ids,
        vec!["low-none", "low-0", "med-none", "med-2a", "med-2b", "med-5", "high", "crit"]
    );
    assert!(optimizer.comes_first(&tasks[2], &tasks[5]));
    assert!(!optimizer.comes_first(&tasks[3], &tasks[6]));
    assert!(optimizer.optimize_order(&vec![]).unwrap().is_empty());
    assert!(RiskLevel::Low < RiskLevel::Medium);
    assert!(RiskLevel::High < RiskLevel::Critical);
    assert_eq!(RiskLevel::High.rank(), 2);
}

#[test]
fn test_text_helpers() {
    assert_eq!(numbered("batch-", 0), "batch-0");
    assert_eq!(numbered("batch-", 1234567890), "batch-1234567890");
    assert_eq!(join2("a", "b"), "ab");
    assert_eq!(join3("a", "", "c"), "ac");
    let list = vec!["x".to_string(), "yy".to_string()];
    assert_eq!(clone_strings(&list), list);
    assert!(contains_string(&list, "yy"));
    assert!(!contains_string(&list, "y"));
    assert!(lists_intersect(&list, &vec!["z".to_string(), "x".to_string()]));
    assert!(!lists_intersect(&list, &vec![]));
}

#[test]
fn test_first_entry_under_a_key_counts() {
    let entries = vec![
        KeyValue {
            key: "k".to_string(),
            value: ArgValue::Text("first".to_string()),
        },
        KeyValue {
            key: "k".to_string(),
            value: ArgValue::Text("second".to_string()),
        },
        KeyValue {
            key: "n".to_string(),
            value: ArgValue::Json("1".to_string()),
        },
    ];
    assert_eq!(
        rustle_plan::types::parsed::find_text(&entries, "k"),
        Some(&"first".to_string())
    );
    assert_eq!(rustle_plan::types::parsed::find_text(&entries, "n"), None);
    assert!(rustle_plan::types::parsed::contains_key(&entries, "n"));
    assert!(!rustle_plan::types::parsed::contains_key(&entries, "K"));
}

use rustle_plan::hashing::{calculate_inventory_hash, calculate_playbook_hash};
use rustle_plan::json::{
    write_entries, write_inventory, write_playbook, write_string, write_strings,
};
use rustle_plan::types::{ArgValue, HostFacts, HostGroup, KeyValue, ParsedHandler};
use rustle_plan::{ParsedInventory, ParsedPlay, ParsedPlaybook, ParsedTask};

fn text_arg(key: &str, value: &str) -> KeyValue {
    KeyValue {
        key: key.to_string(),
        value: ArgValue::Text(value.to_string()),
    }
}

fn small_playbook() -> ParsedPlaybook {
    ParsedPlaybook {
        name: "site".to_string(),
        plays: vec![ParsedPlay {
            name: "web".to_string(),
            hosts: vec!["all".to_string()],
            tasks: vec![ParsedTask {
                id: "t1".to_string(),
                name: "say \"hi\"".to_string(),
                module: "debug".to_string(),
                args: vec![
                    text_arg("msg", "line\nbreak"),
                    KeyValue {
                        key: "verbosity".to_string(),
                        value: ArgValue::Json("2".to_string()),
                    },
                ],
                dependencies: vec![],
                tags: vec!["a".to_string(), "b".to_string()],
                when: None,
                notify: vec!["h".to_string()],
            }],
            handlers: vec![ParsedHandler {
                id: "h1".to_string(),
                name: "h".to_string(),
                module: "service".to_string(),
                args: vec![],
                when: Some("changed".to_string()),
            }],
            vars: vec![text_arg("env", "prod")],
        }],
        vars: vec![],
    }
}

fn small_inventory() -> ParsedInventory {
    ParsedInventory {
        hosts: vec!["h1".to_string(), "h2".to_string()],
        groups: vec![HostGroup {
            name: "web".to_string(),
            hosts: vec!["h1".to_string()],
        }],
        vars: vec![KeyValue {
            key: "listen".to_string(),
            value: ArgValue::Json("8080".to_string()),
        }],
        host_facts: vec![HostFacts {
            host: "h1".to_string(),
            facts: vec![text_arg("ansible_system", "Linux")],
        }],
    }
}

fn parts(list: &[&str]) -> String {
    list.iter().map(|s| s.to_string()).collect()
}

#[test]
fn test_strings_are_quoted_and_escaped() {
    assert_eq!(write_string("plain").unwrap(), "\"plain\"");
    assert_eq!(write_string("").unwrap(), "\"\"");
    assert_eq!(write_string("a\"b\\c\nd\te").unwrap(), "\"a\\\"b\\\\c\\nd\\te\"");
    assert_eq!(write_string("\u{1}é/").unwrap(), "\"\\u0001é/\"");
    assert_eq!(
        write_strings(&vec!["x".to_string(), "y".to_string()]).unwrap(),
        "[\"x\",\"y\"]"
    );
    assert_eq!(write_strings(&vec![]).unwrap(), "[]");
    assert_eq!(write_entries(&vec![]).unwrap(), "{}");
}

#[test]
fn test_playbook_as_json() {
    assert_eq!(
        write_playbook(&small_playbook()).unwrap(),
        parts(&[
            r#"{"name":"site","plays":[{"name":"web","hosts":["all"],"tasks":["#,
            r#"{"id":"t1","name":"say \"hi\"","module":"debug","#,
            r#""args":{"msg":"line\nbreak","verbosity":2},"dependencies":[],"#,
            r#""tags":["a","b"],"when":null,"notify":["h"]}],"#,
            r#""handlers":[{"id":"h1","name":"h","module":"service","args":{},"when":"changed"}],"#,
            r#""vars":{"env":"prod"}}],"vars":{}}"#,
        ])
    );
}

#[test]
fn test_inventory_as_json() {
    assert_eq!(
        write_inventory(&small_inventory()).unwrap(),
        parts(&[
            r#"{"hosts":["h1","h2"],"groups":{"web":["h1"]},"vars":{"listen":8080},"#,
            r#""host_facts":{"h1":{"ansible_system":"Linux"}}}"#,
        ])
    );
}

#[test]
fn test_hash_is_the_digest_of_the_json_text() {
    let book = small_playbook();
    let text = write_playbook(&book).unwrap();
    let expected = format!("{:x}", md5::compute(text.as_bytes()));

    let hash = calculate_playbook_hash(&book).unwrap();

    assert_eq!(hash, expected);
    assert_eq!(hash.len(), 32);
    assert!(hash.chars().all(|c| c.is_ascii_digit() || ('a'..='f').contains(&c)));
    assert_ne!(hash, text);

    let inv = small_inventory();
    let inv_text = write_inventory(&inv).unwrap();
    assert_eq!(
        calculate_inventory_hash(&inv).unwrap(),
        format!("{:x}", md5::compute(inv_text.as_bytes()))
    );
}

#[test]
fn test_hash_of_the_empty_inventory() {
    let inv = ParsedInventory {
        hosts: vec![],
        groups: vec![],
        vars: vec![],
        host_facts: vec![],
    };
    assert_eq!(
        write_inventory(&inv).unwrap(),
        r#"{"hosts":[],"groups":{},"vars":{},"host_facts":{}}"#
    );
    // the digest of that text
    assert_eq!(
        calculate_inventory_hash(&inv).unwrap(),
        format!(
            "{:x}",
            md5::compute(br#"{"hosts":[],"groups":{},"vars":{},"host_facts":{}}"#)
        )
    );
}

#[test]
fn test_hash_follows_the_order_of_the_entries() {
    let mut one = small_inventory();
    one.vars = vec![text_arg("a", "1"), text_arg("b", "2")];
    let mut other = small_inventory();
    other.vars = vec![text_arg("b", "2"), text_arg("a", "1")];

    assert_ne!(
        calculate_inventory_hash(&one).unwrap(),
        calculate_inventory_hash(&other).unwrap()
    );
    assert_eq!(
        calculate_inventory_hash(&one).unwrap(),
        calculate_inventory_hash(&one.clone()).unwrap()
    );
}

#[test]
fn test_every_string_has_a_json_text() {
    let mut all = String::new();
    for code in 0u32..0x3000 {
        if let Some(c) = char::from_u32(code) {
            all.push(c);
        }
    }
    all.push('\u{10ffff}');
    let text = write_string(&all).unwrap();
    assert!(text.starts_with('"') && text.ends_with('"'));
    assert!(text.len() > all.len());
    for code in 0u32..0x80 {
        let c = char::from_u32(code).unwrap();
        assert!(write_string(&c.to_string()).is_ok());
    }
}

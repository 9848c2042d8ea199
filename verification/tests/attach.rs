use kron::commands::attach::{attach_body, attach_to_task};
use kron::domain::task::{new_task, Task};

fn pairs(kv: &[(&str, &str)]) -> Vec<(String, String)> {
    kv.iter().map(|(k, v)| (k.to_string(), v.to_string())).collect()
}

#[test]
fn attach_to_a_plain_body_replaces_it_with_an_object() {
    let out = attach_body("just some notes", &pairs(&[("priority", "high")]));
    assert_eq!(out, "{\n  \"priority\": \"high\"\n}");
}

#[test]
fn attach_merges_into_an_existing_object_in_key_order() {
    let out = attach_body("{\"a\": 1, \"c\": [true]}", &pairs(&[("b", "x"), ("a", "y")]));
    assert_eq!(out, "{\n  \"a\": \"y\",\n  \"b\": \"x\",\n  \"c\": [\n    true\n  ]\n}");
}

#[test]
fn attach_later_pair_wins_and_values_are_escaped() {
    let out = attach_body("[1, 2]", &pairs(&[("k", "one"), ("k", "say \"hi\"")]));
    assert_eq!(out, "{\n  \"k\": \"say \\\"hi\\\"\"\n}");
}

#[test]
fn attach_touches_the_task_and_keeps_the_rest() {
    let mut t: Task = new_task("T1", "x", "d", "", &["a".to_string()], "t0");
    assert_eq!(t.state, "todo");
    assert_eq!(t.created_at, "t0");
    assert_eq!(t.updated_at, "t0");
    assert!(t.source_file.is_none());
    t.source_file = Some("f.md".into());
    attach_to_task(&mut t, &pairs(&[("owner", "me")]), "t1");
    assert_eq!(t.body, "{\n  \"owner\": \"me\"\n}");
    assert_eq!(t.updated_at, "t1");
    assert_eq!(t.created_at, "t0");
    assert_eq!(t.tags, vec!["a".to_string()]);
    assert!(t.source_file.is_none());
}

#[test]
fn attach_escapes_control_characters_as_json_does() {
    let out = attach_body("", &pairs(&[("k", "a\tb\u{1}\\")]));
    assert_eq!(out, "{\n  \"k\": \"a\\tb\\u0001\\\\\"\n}");
}

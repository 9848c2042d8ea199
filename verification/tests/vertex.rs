use kron::commands::vertex::{delete_check, list_marker, orphan_dirs, pointer_orphaned, porcelain_line, use_action, UseAction};
use kron::domain::state_pointer::{clear, current, PointerState};
use kron::domain::vertex::{create, delete, find, find_required, registry_path, update, VertexRecord};
use kron::error::KronError;

const NOW: &str = "2026-09-07T00:00:00+00:00";

#[test]
fn vertex_registry_starts_empty_after_init() {
    let reg: Vec<VertexRecord> = Vec::new();
    assert!(reg.is_empty(), "expected empty registry after init");
    assert_eq!(registry_path("/p"), "/p/kron-internal/vertices.json");
}

#[test]
fn vertex_create_adds_entry_and_materializes_dir() {
    let mut reg = Vec::new();
    let rec = create(&mut reg, "review", Some("Under review"), Some("feature/x"), None, NOW).unwrap();
    assert_eq!(rec.name, "review");
    assert_eq!(rec.description.as_deref(), Some("Under review"));
    assert_eq!(rec.branch.as_deref(), Some("feature/x"));
    assert_eq!(rec.path, "KRON/VERTEX/review");
    assert_eq!(reg.len(), 1);
    assert_eq!(reg[0].name, "review");
}

#[test]
fn vertex_create_rejects_invalid_slug_and_duplicates() {
    let mut reg = Vec::new();
    assert!(matches!(create(&mut reg, "Bad Name", None, None, None, NOW), Err(KronError::InvalidVertexName(_))));
    create(&mut reg, "todo", None, None, None, NOW).unwrap();
    assert!(matches!(create(&mut reg, "todo", None, None, None, NOW), Err(KronError::Cli(_))));
    assert_eq!(reg.len(), 1);
}

#[test]
fn vertex_update_modifies_description_and_branch() {
    let mut reg = Vec::new();
    create(&mut reg, "review", Some("old"), None, None, NOW).unwrap();
    let upd = update(&mut reg, "/p", "review", Some("new desc"), Some("feature/y"), "later").unwrap();
    assert_eq!(upd.description.as_deref(), Some("new desc"));
    assert_eq!(upd.branch.as_deref(), Some("feature/y"));
    assert_eq!(upd.updated_at, "later");
    assert!(matches!(update(&mut reg, "/p", "nope", None, None, NOW), Err(KronError::NotFound(p)) if p == "/p/kron-internal/vertices.json"));
}

#[test]
fn vertex_delete_removes_from_registry_and_optional_dir() {
    let mut reg = Vec::new();
    create(&mut reg, "scratch", None, None, None, NOW).unwrap();
    let removed = delete(&mut reg, "scratch").unwrap();
    assert_eq!(removed.path, "KRON/VERTEX/scratch");
    assert!(find(&reg, "scratch").is_none());
    assert!(matches!(delete(&mut reg, "scratch"), Err(KronError::Cli(m)) if m == "vertex 'scratch' not found"));
}

#[test]
fn task_add_to_unregistered_vertex_is_rejected() {
    let reg: Vec<VertexRecord> = Vec::new();
    match find_required(&reg, "unregistered").unwrap_err() {
        KronError::Cli(msg) => {
            assert!(msg.contains("unregistered"), "msg should mention the missing name: {msg}");
            assert!(msg.contains("kron vertex create"), "msg should hint at the fix: {msg}");
        }
        other => panic!("expected Cli error, got {other:?}"),
    }
}

#[test]
fn vertex_find_required_hint_mentions_create_command() {
    let reg: Vec<VertexRecord> = Vec::new();
    match find_required(&reg, "missing").unwrap_err() {
        KronError::Cli(msg) => {
            assert!(msg.contains("missing"), "msg must include vertex name: {msg}");
            assert!(msg.contains("kron vertex create missing"), "msg must hint at fix: {msg}");
        }
        other => panic!("expected Cli error, got {other:?}"),
    }
}

#[test]
fn vertex_delete_leaves_pointer_intact_when_targeting_current() {
    let mut reg = Vec::new();
    create(&mut reg, "todo", None, None, None, NOW).unwrap();
    create(&mut reg, "doing", None, None, None, NOW).unwrap();
    let mut st = PointerState::fresh(NOW);
    kron::domain::state_pointer::set(&mut st, "todo", NOW).unwrap();
    assert_eq!(current(&st).as_deref(), Some("todo"), "precondition: pointer set to todo");
    delete(&mut reg, "todo").unwrap();
    assert!(pointer_orphaned(current(&st).as_deref(), "todo"));
    assert_eq!(current(&st).as_deref(), Some("todo"));
    assert!(find(&reg, "todo").is_none());
    clear(&mut st, NOW);
    assert!(current(&st).is_none());
}

#[test]
fn vertex_list_marks_current_pointer_with_star_in_human_mode() {
    assert_eq!(list_marker(Some("doing"), "doing"), "*");
    assert_eq!(list_marker(Some("doing"), "todo"), "");
    assert_eq!(list_marker(None, "todo"), "");
    let mut reg = Vec::new();
    let rec = create(&mut reg, "doing", None, Some("feat"), None, NOW).unwrap();
    assert_eq!(porcelain_line(Some("doing"), &rec, 3), "*\tdoing\tKRON/VERTEX/doing\t3\tfeat\t-");
}

#[test]
fn vertex_list_does_not_auto_register_orphan_directory() {
    let mut reg = Vec::new();
    create(&mut reg, "todo", None, None, None, NOW).unwrap();
    let dirs = vec!["zeta".to_string(), "todo".to_string(), "alpha".to_string()];
    assert_eq!(orphan_dirs(&reg, &dirs), vec!["alpha".to_string(), "zeta".to_string()]);
    assert_eq!(reg.len(), 1);
}

#[test]
fn vertex_delete_needs_force_when_registered() {
    assert!(delete_check("v", true, false, Some(3)).is_ok());
    assert!(delete_check("v", false, false, None).is_ok());
    match delete_check("v", false, false, Some(3)) {
        Err(KronError::Cli(m)) => assert_eq!(m, "vertex 'v' has 3 task(s); use --force --also-remove-dir to delete"),
        other => panic!("expected Cli, got {other:?}"),
    }
    match delete_check("v", false, true, Some(0)) {
        Err(KronError::Cli(m)) => assert_eq!(m, "delete vertex 'v' requires --force"),
        other => panic!("expected Cli, got {other:?}"),
    }
}

#[test]
fn vertex_use_actions() {
    assert!(use_action(Some("x"), true).is_err());
    assert_eq!(use_action(None, true).unwrap(), UseAction::Clear);
    assert_eq!(use_action(None, false).unwrap(), UseAction::Show);
    assert_eq!(use_action(Some("x"), false).unwrap(), UseAction::Point);
}

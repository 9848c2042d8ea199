use kron::commands::important::{mark_added, normalize_rel_for_test, registered_entry, remove_registered, row_conflict_id};
use kron::domain::sync::sync_index::{md5_hex, ImportantEntry, ImportantIndex};
use kron::error::KronError;
use kron::model::SyncState;

const NOW: &str = "2026-09-07T10:00:00+00:00";

#[test]
fn important_normalize_rel_rejects_parent_dir_and_empty() {
    assert!(normalize_rel_for_test("../escape").is_err());
    assert!(normalize_rel_for_test("foo/../bar").is_err());
    assert!(normalize_rel_for_test("   ").is_err());
    assert!(normalize_rel_for_test("ok/rel/path").is_ok());
    assert!(normalize_rel_for_test("ok\\rel\\path").is_ok());
    assert!(normalize_rel_for_test("single").is_ok());
    assert!(normalize_rel_for_test("..\\x").is_err());
    assert!(normalize_rel_for_test("a\\..\\b").is_err());
    assert!(normalize_rel_for_test("\\abs").is_err());
}

#[test]
fn normalize_rel_forms() {
    assert_eq!(normalize_rel_for_test("  ./src/a.rs ").unwrap(), "src/a.rs");
    assert_eq!(normalize_rel_for_test(".\\src\\a.rs").unwrap(), "src/a.rs");
    assert_eq!(normalize_rel_for_test("a/..b/c").unwrap(), "a/..b/c");
    match normalize_rel_for_test("/etc/passwd") {
        Err(KronError::Cli(m)) => assert_eq!(m, "path must be relative to project root (no leading '/')"),
        other => panic!("expected Cli, got {other:?}"),
    }
    match normalize_rel_for_test("a/..") {
        Err(KronError::Cli(m)) => assert_eq!(m, "path may not contain '..'"),
        other => panic!("expected Cli, got {other:?}"),
    }
}

#[test]
fn important_register_creates_mirror_and_index_entry() {
    let mut idx = ImportantIndex::new();
    mark_added(&mut idx, "src/notes.md", b"hello\n", NOW);
    let entry = idx.get("src/notes.md").expect("index must contain entry");
    assert_eq!(entry.sync_state, SyncState::Synced);
    assert_eq!(entry.internal_hash, md5_hex(b"hello\n"));
    mark_added(&mut idx, "src/notes.md", b"changed\n", "later");
    let again = idx.get("src/notes.md").unwrap();
    assert_eq!(again.added_at, NOW);
    assert_eq!(again.updated_at, "later");
}

#[test]
fn important_remove_clears_index_and_mirror() {
    let mut idx = ImportantIndex::new();
    mark_added(&mut idx, "src/temp.md", b"temp\n", NOW);
    assert!(idx.remove_entry("src/temp.md"));
    assert!(idx.get("src/temp.md").is_none());
    assert!(!idx.remove_entry("src/temp.md"));
}

#[test]
fn removing_needs_registration_and_force() {
    let mut idx = ImportantIndex::new();
    mark_added(&mut idx, "a.md", b"a", NOW);
    assert!(matches!(remove_registered(&mut idx, "b.md", true), Err(KronError::Cli(m)) if m == "'b.md' is not registered as important"));
    assert!(matches!(remove_registered(&mut idx, "a.md", false), Err(KronError::Cli(m)) if m == "remove 'a.md' requires --force"));
    assert!(idx.get("a.md").is_some());
    assert!(remove_registered(&mut idx, "a.md", true).is_ok());
    assert!(registered_entry(&idx, "a.md").is_err());
}

#[test]
fn conflict_id_shown_only_for_files_in_conflict() {
    let e = ImportantEntry { path: "a".into(), sync_state: SyncState::Synced, internal_hash: String::new(), added_at: NOW.into(), updated_at: NOW.into() };
    assert_eq!(row_conflict_id(&e, &[]), None);
}

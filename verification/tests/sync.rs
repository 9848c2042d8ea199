use kron::commands::conflict::{build_unified_diff, fmt_record, list_line, resolution_of, state_after_label, truncate, ResolveStrategy};
use kron::domain::sync::conflict::{
    classify, conflict_id_for, detect, list_all, list_by_status, new_conflict_record, resolve, chosen_backup, FileCopies,
};
use kron::domain::sync::daemon::{check_can_start, is_running, pid_path, started, status_path, ScanSummary, START_NOTE};
use kron::domain::sync::scan;
use kron::domain::sync::sync_index::{
    conflicts_dir, internal_path_for, md5_hex, project_path_for, ConflictIndex, ImportantEntry, ImportantIndex,
};
use kron::error::KronError;
use kron::model::{ConflictRecord, ConflictResolution, ConflictStatus, SyncState};

const NOW: &str = "2026-09-07T10:00:00+00:00";
const TS: &str = "20260907_100000";
const ROOT: &str = "/p";

fn index_with(paths: &[(&str, &str)]) -> ImportantIndex {
    let mut idx = ImportantIndex::new();
    for (rel, content) in paths {
        idx.upsert(ImportantEntry {
            path: rel.to_string(),
            sync_state: SyncState::Synced,
            internal_hash: md5_hex(content.as_bytes()),
            added_at: NOW.into(),
            updated_at: NOW.into(),
        });
    }
    idx
}

fn copies(project: Option<&str>, internal: Option<&str>) -> FileCopies {
    FileCopies {
        project: project.map(|s| s.as_bytes().to_vec()),
        internal: internal.map(|s| s.as_bytes().to_vec()),
    }
}

fn state_of(idx: &ImportantIndex, rel: &str) -> SyncState {
    idx.get(rel).unwrap_or_else(|| panic!("index missing entry {rel}")).sync_state
}

/// Scan a file whose copies differ and create the record the scan asks for.
fn conflict_on(rel: &str, project: &str, internal: &str) -> (ImportantIndex, ConflictRecord) {
    let mut idx = index_with(&[(rel, internal)]);
    let (r, scans) = detect(&mut idx, &[copies(Some(project), Some(internal))], &[], TS, NOW);
    assert_eq!(r.stats.conflicts_new, 1);
    let rec = new_conflict_record(ROOT, &scans[0], NOW, NOW, NOW);
    (idx, rec)
}

#[test]
fn classify_both_gone_returns_recorded_or_synced() {
    assert_eq!(classify(false, false, "", "", Some(SyncState::InternalOnly)), SyncState::InternalOnly);
    assert_eq!(classify(false, false, "", "", None), SyncState::Synced);
}

#[test]
fn classify_project_only_when_internal_missing() {
    assert_eq!(classify(true, false, "x", "", None), SyncState::ProjectOnly);
}

#[test]
fn classify_internal_only_when_project_missing() {
    assert_eq!(classify(false, true, "", "x", None), SyncState::InternalOnly);
}

#[test]
fn classify_synced_when_hashes_match() {
    assert_eq!(classify(true, true, "abc", "abc", None), SyncState::Synced);
}

#[test]
fn classify_conflict_when_hashes_differ() {
    assert_eq!(classify(true, true, "abc", "xyz", None), SyncState::Conflict);
}

#[test]
fn md5_hex_is_lower_case_hex() {
    assert_eq!(md5_hex(b""), "d41d8cd98f00b204e9800998ecf8427e");
    assert_eq!(md5_hex(b"hello\n"), "b1946ac92492d2347c6235b4d2611184");
}

#[test]
fn sync_paths() {
    assert_eq!(project_path_for(ROOT, "src/a.rs"), "/p/src/a.rs");
    assert_eq!(internal_path_for(ROOT, "src/a.rs"), "/p/kron-internal/important/files/src/a.rs");
    assert_eq!(conflicts_dir(ROOT), "/p/kron-internal/conflicts");
    assert_eq!(pid_path(ROOT), "/p/kron-internal/.daemon.pid");
    assert_eq!(status_path(ROOT), "/p/kron-internal/.daemon.status.json");
}

#[test]
fn detect_on_empty_index_is_noop() {
    let mut idx = ImportantIndex::new();
    let (r, scans) = detect(&mut idx, &[], &[], TS, NOW);
    assert_eq!(r.stats.scanned, 0);
    assert!(r.pairs.is_empty());
    assert!(scans.is_empty());
}

#[test]
fn detect_marks_matching_pair_as_synced() {
    let mut idx = index_with(&[("src/main.rs", "fn main() {}\n")]);
    let c = copies(Some("fn main() {}\n"), Some("fn main() {}\n"));
    let (r, _) = detect(&mut idx, &[c], &[], TS, NOW);
    assert_eq!(r.stats.scanned, 1);
    assert_eq!(r.stats.synced, 1);
    assert_eq!(state_of(&idx, "src/main.rs"), SyncState::Synced);
}

#[test]
fn important_sync_runs_one_shot_detect() {
    let mut idx = index_with(&[("src/a.md", "alpha\n"), ("src/b.md", "beta\n")]);
    let files = vec![copies(Some("alpha\n"), Some("alpha\n")), copies(Some("beta\n"), Some("beta\n"))];
    let (r, _) = scan::run(&mut idx, &files, &[], TS, NOW);
    assert_eq!(r.stats.scanned, 2);
    assert_eq!(r.stats.synced, 2);
}

#[test]
fn detect_creates_conflict_when_hashes_differ() {
    let (idx, rec) = conflict_on("src/main.rs", "version 2 from project\n", "version 1\n");
    let hash = md5_hex(b"version 2 from project\n");
    assert_eq!(rec.id, format!("{TS}_{}_src_main_rs", &hash[..6]));
    assert_eq!(rec.status, ConflictStatus::Pending);
    assert_eq!(rec.relative_path, "src/main.rs");
    assert_eq!(rec.project_backup, format!("/p/kron-internal/conflicts/{}/project_version", rec.id));
    assert_eq!(state_of(&idx, "src/main.rs"), SyncState::Conflict);
    let records = vec![rec.clone()];
    let pending = list_by_status(&records, "pending").unwrap();
    assert_eq!(pending.len(), 1);
    assert_eq!(pending[0].id, rec.id);
}

#[test]
fn detect_is_idempotent_for_existing_pending_conflict() {
    let (mut idx, rec) = conflict_on("src/lib.rs", "beta\n", "alpha\n");
    let (r2, scans) = detect(&mut idx, &[copies(Some("beta\n"), Some("alpha\n"))], &[rec.clone()], "20260907_100500", NOW);
    assert_eq!(r2.stats.scanned, 1);
    assert_eq!(r2.stats.conflicts_new, 0);
    assert_eq!(r2.stats.conflicts_existing, 1);
    assert!(!scans[0].is_new_conflict);
    assert_eq!(r2.pairs[0].conflict_id.as_deref(), Some(rec.id.as_str()));
}

#[test]
fn detect_marks_project_only_when_internal_missing() {
    let mut idx = index_with(&[("docs/readme.md", "hello\n")]);
    let (r, _) = detect(&mut idx, &[copies(Some("hello\n"), None)], &[], TS, NOW);
    assert_eq!(r.stats.project_only, 1);
    assert_eq!(state_of(&idx, "docs/readme.md"), SyncState::ProjectOnly);
}

#[test]
fn detect_marks_internal_only_when_project_missing() {
    let mut idx = index_with(&[("src/utils.rs", "fn x() {}\n")]);
    let (r, _) = detect(&mut idx, &[copies(None, Some("fn x() {}\n"))], &[], TS, NOW);
    assert_eq!(r.stats.internal_only, 1);
    assert_eq!(state_of(&idx, "src/utils.rs"), SyncState::InternalOnly);
}

#[test]
fn resolve_use_project_copies_project_backup_over_both_sides() {
    let (mut idx, rec) = conflict_on("src/main.rs", "project-version\n", "internal-version\n");
    let id = rec.id.clone();
    let updated = resolve(ROOT, &id, Some(rec), ConflictResolution::UseProject, NOW, &mut idx).unwrap();
    assert_eq!(updated.status, ConflictStatus::Resolved);
    assert_eq!(updated.resolution, Some(ConflictResolution::UseProject));
    assert!(updated.resolved_at.is_some());
    assert_eq!(chosen_backup(&updated, ConflictResolution::UseProject), Some(updated.project_backup.clone()));
    assert_eq!(state_of(&idx, "src/main.rs"), SyncState::Synced);
    let records = vec![updated];
    assert!(list_by_status(&records, "pending").unwrap().is_empty());
    let resolved = list_by_status(&records, "resolved").unwrap();
    assert_eq!(resolved.len(), 1);
    assert_eq!(resolved[0].id, id);
}

#[test]
fn resolve_use_internal_copies_internal_over_both_sides() {
    let (mut idx, rec) = conflict_on("src/main.rs", "project-version\n", "internal-version\n");
    let id = rec.id.clone();
    let updated = resolve(ROOT, &id, Some(rec), ConflictResolution::UseInternal, NOW, &mut idx).unwrap();
    assert_eq!(updated.status, ConflictStatus::Resolved);
    assert_eq!(chosen_backup(&updated, ConflictResolution::UseInternal), Some(updated.internal_backup.clone()));
}

#[test]
fn resolve_ignore_keeps_both_sides_and_marks_ignored() {
    let (mut idx, rec) = conflict_on("src/main.rs", "project-version\n", "internal-version\n");
    let id = rec.id.clone();
    let updated = resolve(ROOT, &id, Some(rec), ConflictResolution::Ignore, NOW, &mut idx).unwrap();
    assert_eq!(updated.status, ConflictStatus::Ignored);
    assert_eq!(updated.resolution, Some(ConflictResolution::Ignore));
    assert_eq!(chosen_backup(&updated, ConflictResolution::Ignore), None);
    assert_eq!(state_of(&idx, "src/main.rs"), SyncState::Conflict);
}

#[test]
fn resolve_twice_fails_on_second_call() {
    let (mut idx, rec) = conflict_on("src/main.rs", "project-version\n", "internal-version\n");
    let id = rec.id.clone();
    let first = resolve(ROOT, &id, Some(rec), ConflictResolution::UseProject, NOW, &mut idx).expect("first resolve");
    let err = resolve(ROOT, &id, Some(first), ConflictResolution::UseInternal, NOW, &mut idx);
    match err {
        Err(KronError::Cli(m)) => assert_eq!(m, format!("conflict {id} is already resolved (cannot resolve)")),
        other => panic!("second resolve must fail, got {:?}", other.map(|r| r.id)),
    }
}

#[test]
fn resolving_a_missing_record_is_not_found() {
    let mut idx = ImportantIndex::new();
    match resolve(ROOT, "abc", None, ConflictResolution::Ignore, NOW, &mut idx) {
        Err(KronError::NotFound(p)) => assert_eq!(p, "/p/kron-internal/conflicts/abc"),
        other => panic!("expected NotFound, got {:?}", other.map(|r| r.id)),
    }
}

#[test]
fn listing_filters_and_unknown_filter() {
    let (_, rec) = conflict_on("a.txt", "1\n", "2\n");
    let all = list_all(&[Some(rec.clone()), None]);
    assert_eq!(all.len(), 1);
    assert_eq!(list_by_status(&all, "all").unwrap().len(), 1);
    assert!(list_by_status(&all, "ignored").unwrap().is_empty());
    match list_by_status(&all, "weird") {
        Err(KronError::Cli(m)) => assert_eq!(m, "unknown conflict status filter: weird"),
        other => panic!("expected Cli, got {:?}", other.map(|v| v.len())),
    }
}

#[test]
fn conflict_ids_use_six_bytes_of_the_hash_and_a_slug() {
    assert_eq!(conflict_id_for("20260101_000000", "Src/My File.rs", "abcdef0123"), "20260101_000000_abcdef_src_my_file_rs");
    assert_eq!(conflict_id_for("t", "a", "ab"), "t_ab_a");
}

#[test]
fn conflict_index_add_is_idempotent() {
    let mut idx = ConflictIndex::new();
    assert!(idx.add("c1"));
    assert!(!idx.add("c1"));
    assert!(idx.add("c2"));
    assert_eq!(idx.ids, vec!["c1".to_string(), "c2".to_string()]);
}

#[test]
fn daemon_start_twice_fails() {
    assert!(check_can_start(&None).is_ok());
    let mut idx = ImportantIndex::new();
    let (r, _) = detect(&mut idx, &[], &[], TS, NOW);
    let (status, outcome) = started(4242, NOW, NOW, r.stats);
    assert!(outcome.pid > 0);
    assert_eq!(outcome.note, START_NOTE);
    assert!(is_running(&Some(status.clone())));
    assert!(status.last_scan.is_some());
    assert!(status.last_scan_at.is_some());
    let err = check_can_start(&Some(status));
    match err {
        Err(KronError::Cli(m)) => {
            assert!(m.starts_with("daemon already registered (pid 4242, started 2026-09-07 10:00:00 UTC)"), "got {m}")
        }
        other => panic!("second start must fail, got {other:?}"),
    }
    assert!(!is_running(&None));
}

#[test]
fn scan_summary_keeps_the_counters() {
    let mut idx = index_with(&[("a", "1"), ("b", "2")]);
    let files = vec![copies(Some("1"), Some("1")), copies(Some("x"), None)];
    let (r, _) = detect(&mut idx, &files, &[], TS, NOW);
    let s = ScanSummary::from(r.stats);
    assert_eq!((s.scanned, s.synced, s.project_only, s.conflicts_new), (2, 1, 1, 0));
}

#[test]
fn conflict_command_helpers() {
    assert_eq!(truncate("abcdef", 3), "abc\n... (3 more chars)");
    assert_eq!(truncate("abc", 3), "abc");
    assert_eq!(resolution_of(ResolveStrategy::Internal), ConflictResolution::UseInternal);
    assert_eq!(state_after_label(ConflictStatus::Ignored), "conflict");
    assert_eq!(state_after_label(ConflictStatus::Resolved), "synced");
    let (_, rec) = conflict_on("a.txt", "1\n", "2\n");
    assert_eq!(fmt_record(&rec), format!("{} a.txt pending {NOW}", rec.id));
    assert!(list_line(&rec).starts_with(&format!("{}\ta.txt\tpending\t", rec.id)));
}

#[test]
fn unified_diff_compares_lines_by_position() {
    let d = build_unified_diff("f", b"a\nb\nc", "f", b"a\nx\n");
    assert_eq!(d, "--- a/f\n+++ b/f\n a\n-b\n+x\n-c");
    let bin = build_unified_diff("f", &[0xff, 0xfe], "f", b"ok");
    assert_eq!(bin, "Binary file diff not supported.\n  project: 2 bytes\n  internal: 2 bytes\n");
}

use kron::commands::context::{glob_match, kinds_to_generate};
use kron::domain::context::code_structure::{generate, render_tree, should_skip, tree_prefix, Entry};
use kron::domain::context::git_branch::{branch_label, first_branch, render_branch, summarize};
use kron::domain::context::git_commits::{log_is_cuttable, not_a_repository, render_commits};
use kron::domain::context::{file_header, generated_timestamp, list_docs, DocMeta, DocProbe, DocType, Registry};

const TS: &str = "2026-09-07T10:00:00+00:00";

fn entry(rel: &str, is_dir: bool, depth: u32) -> Entry {
    Entry { rel_path: rel.into(), is_dir, depth }
}

#[test]
fn test_render_tree_empty() {
    let result = render_tree(&[], "foo");
    assert!(result.contains("foo/"));
    assert!(result.contains("(empty)"));
}

#[test]
fn code_structure_test_generates_valid_content() {
    let entries = vec![entry("src", true, 0), entry("src/lib.rs", false, 1), entry("Cargo.toml", false, 0)];
    let content = generate(&file_header(TS), "kron", 2, &entries);
    assert!(content.contains("# Project Structure"));
    assert!(content.contains("src/"));
}

#[test]
fn render_tree_draws_branches_and_columns() {
    let entries = vec![
        entry("src", true, 0),
        entry("src/a.rs", false, 1),
        entry("src/b.rs", false, 1),
        entry("README.md", false, 0),
    ];
    let tree = render_tree(&entries, "proj");
    assert_eq!(tree, "proj/\nsrc/\n├── a.rs\n└── b.rs\nREADME.md");
    assert_eq!(tree_prefix(&entries, 0), "");
}

#[test]
fn tree_prefix_keeps_a_bar_while_deeper_entries_follow() {
    let entries = vec![
        entry("a", true, 0),
        entry("a/b", true, 1),
        entry("a/b/c", false, 2),
        entry("a/d", false, 1),
    ];
    assert_eq!(tree_prefix(&entries, 2), "│   └── ");
    assert_eq!(tree_prefix(&entries, 3), "└── ");
}

#[test]
fn skipped_names() {
    assert!(should_skip("node_modules"));
    assert!(should_skip(".git"));
    assert!(should_skip("x.pyc"));
    assert!(!should_skip("src"));
}

#[test]
fn git_branch_test_generates_valid_content() {
    let content = render_branch(&file_header(TS), "feature", "main", &["abc1234 add x".to_string()], &[]);
    assert!(content.contains("# Branch Summary"));
    assert!(content.contains("**Current branch**:"));
    assert!(content.contains("## Ahead (1)\n- abc1234 add x"));
    assert!(content.contains("## Behind (0)\n(none)"));
}

#[test]
fn test_placeholder_for_non_git() {
    let content = render_branch(&file_header(TS), "(unknown)", "main", &[], &[]);
    assert!(content.contains("kron-generated:"));
    assert!(content.contains("# Branch Summary"));
}

#[test]
fn branch_helpers() {
    assert_eq!(branch_label(" feature/x \n", ""), "feature/x");
    assert_eq!(branch_label("\n", "abc123\n"), "(detached HEAD at abc123)");
    assert_eq!(first_branch(""), "main");
    assert_eq!(first_branch("  dev\r\nmain\n"), "dev");
    assert_eq!(summarize("a1 one\n\n  b2 two  \n"), vec!["a1 one".to_string(), "b2 two".to_string()]);
}

#[test]
fn test_generates_valid_markdown_table() {
    let stdout = "0123456789abcdef|2026-09-01T12:00:00+00:00|Ann|fix: a|b\nbad line\n";
    assert!(log_is_cuttable(stdout));
    let content = render_commits(&file_header(TS), 5, stdout);
    assert!(content.contains("# Recent Commits"));
    assert!(content.contains("| SHA |"));
    assert!(content.contains("| `01234567` | 2026-09-01 | Ann | fix: a|b |"));
    assert!(!content.contains("bad line"));
}

#[test]
fn test_placeholder_for_non_git_dir() {
    let content = not_a_repository(&file_header(TS));
    assert!(content.contains("kron-generated:"));
}

#[test]
fn header_timestamps_with_a_trailing_marker_do_not_parse() {
    // The header keeps " --" after cutting at '>', so the time does not parse.
    assert_eq!(generated_timestamp(&file_header(TS)), None);
    assert_eq!(
        generated_timestamp("<!-- kron-generated: 2026-09-07T10:00:00Z\nrest"),
        Some("2026-09-07T10:00:00+00:00".to_string())
    );
}

#[test]
fn glob_matching() {
    assert!(glob_match("*", "anything"));
    assert!(glob_match("git/*", "git/recent-commits.md"));
    assert!(!glob_match("code/*", "git/recent-commits.md"));
    assert!(glob_match("git/*.md", "git/recent-commits.md"));
    assert!(glob_match("*/*.md", "code/structure.md"));
    assert!(glob_match("git/branch-summary.md", "git/branch-summary.md"));
    assert!(!glob_match("git/branch", "git/branch-summary.md"));
    assert!(!glob_match("it", "git/recent-commits.md"));
    assert!(!glob_match("*.md", "git/recent-commits.md"));
    assert!(glob_match("*.md", "README.md"));
}

#[test]
fn doc_paths_and_kinds() {
    assert_eq!(DocType::GitCommits.path(), "git/recent-commits.md");
    assert_eq!(DocType::all().len(), 4);
    assert_eq!(DocType::all()[3], DocType::Readme);
}

#[test]
fn registry_upsert_replaces_same_kind() {
    let mut reg = Registry::new();
    let m = |at: &str| DocMeta { path: "README.md".into(), doc_type: DocType::Readme, generated_at: at.into(), stale_reason: None };
    reg.upsert(m("t1"));
    reg.upsert(m("t2"));
    assert_eq!(reg.docs.len(), 1);
    assert_eq!(reg.get(DocType::Readme).unwrap().generated_at, "t2");
    assert!(reg.get(DocType::GitBranch).is_none());
}

#[test]
fn list_docs_marks_missing_files_stale() {
    let mut reg = Registry::new();
    reg.upsert(DocMeta { path: "README.md".into(), doc_type: DocType::Readme, generated_at: "t".into(), stale_reason: None });
    let probes: Vec<DocProbe> = (0..4).map(|_| DocProbe { exists: false, generated_at: None }).collect();
    let docs = list_docs(&reg, &[false], &probes, "now");
    assert_eq!(docs[0].stale_reason.as_deref(), Some("file missing"));
    let empty = Registry::new();
    let docs = list_docs(&empty, &[], &probes, "now");
    assert_eq!(docs.len(), 4);
    assert_eq!(docs[0].path, "git/recent-commits.md");
    assert_eq!(docs[0].generated_at, "now");
}

#[test]
fn incremental_generation_skips_fresh_documents() {
    let mut reg = Registry::new();
    reg.upsert(DocMeta { path: "README.md".into(), doc_type: DocType::Readme, generated_at: "t".into(), stale_reason: None });
    let present = [true, true, true, true];
    let kinds = kinds_to_generate(&reg.docs, None, &present, false, true);
    assert_eq!(kinds, vec![DocType::GitCommits, DocType::GitBranch, DocType::CodeStructure]);
    let forced = kinds_to_generate(&reg.docs, Some("git/*"), &present, true, true);
    assert_eq!(forced, vec![DocType::GitCommits, DocType::GitBranch]);
}

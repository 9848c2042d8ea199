use kron::commands::status::{count_md_entries, status_porcelain, StatusReport};
use kron::domain::sync::conflict::check_status_filter;
use kron::domain::task::DirEntry;
use kron::error::KronError;

#[test]
fn only_markdown_files_are_counted() {
    let e = |p: &str, f: bool| DirEntry { path: p.to_string(), is_file: f };
    let entries = vec![e("/d/T1.md", true), e("/d/notes.txt", true), e("/d/sub.md", false), e("/d/.md", true), e("/d/T2.md", true)];
    assert_eq!(count_md_entries(&entries), 2);
    assert_eq!(count_md_entries(&[]), 0);
}

#[test]
fn status_porcelain_line_lists_the_report() {
    let mut r = StatusReport {
        project: "/p".into(),
        initialized: true,
        vertices: 3,
        tasks: 7,
        important_files: 1,
        pending_conflicts: 0,
        daemon_running: false,
        daemon_pid: None,
    };
    assert_eq!(status_porcelain(&r), "/p\ttrue\t3\t7\t1\t0\trunning=false\tpid=-");
    r.daemon_running = true;
    r.daemon_pid = Some(42);
    assert_eq!(status_porcelain(&r), "/p\ttrue\t3\t7\t1\t0\trunning=true\tpid=42");
}

#[test]
fn conflict_status_words_are_checked_before_listing() {
    for w in ["pending", "resolved", "ignored", "all"] {
        assert!(check_status_filter(w).is_ok());
    }
    assert!(matches!(check_status_filter("bogus"), Err(KronError::Cli(m)) if m == "unknown conflict status filter: bogus"));
}

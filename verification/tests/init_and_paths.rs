use kron::commands::init::check_reinit;
use kron::commands::path::path_for;
use kron::domain::init::{plan_layout, prepare, StepKind};
use kron::error::KronError;
use kron::model::LinkMode;

#[test]
fn init_without_git_is_rejected_unless_no_git() {
    let err = prepare("/tmp/x", true, true, false, false, false).unwrap_err();
    assert!(err.message().contains("not a Git repository"), "got: {}", err.message());
    let prep = prepare("/tmp/x", true, true, false, false, true).expect("prepare ok with --no-git");
    assert!(!prep.is_git);
    assert_eq!(prep.kron_dir, "/tmp/x/kron-internal");
}

#[test]
fn reinit_needs_force() {
    let prep = prepare("/tmp/x", true, true, true, true, false).unwrap();
    assert!(matches!(check_reinit(&prep, false), Err(KronError::AlreadyInitialized(p)) if p == "/tmp/x"));
    assert!(check_reinit(&prep, true).is_ok());
}

#[test]
fn path_selectors() {
    assert_eq!(path_for("/p", true, false).unwrap(), "/p/kron-internal");
    assert_eq!(path_for("/p", false, true).unwrap(), "/p/KRON/important");
    assert!(path_for("/p", true, true).is_err());
    assert!(path_for("/p", false, false).is_err());
}

#[test]
fn link_mode_falls_back_to_copy_on_windows_only() {
    assert_eq!(LinkMode::Symlink.fallback_for_platform(false), LinkMode::Symlink);
    assert_eq!(LinkMode::Symlink.fallback_for_platform(true), LinkMode::Copy);
}

fn probe(all: bool) -> kron::domain::init::LayoutProbe {
    kron::domain::init::LayoutProbe {
        kron_dir: all,
        config: all,
        vertices: all,
        kron_public: all,
        readme: all,
        public_important: all,
        internal_important: all,
        public_vertex: all,
    }
}

#[test]
fn init_plans_the_full_layout_once() {
    let prep = prepare("/p", true, true, false, true, false).unwrap();
    let first = plan_layout(&prep, false, LinkMode::Symlink, probe(false));
    assert_eq!(first.created.len(), 8);
    assert_eq!(first.steps.len(), 8);
    assert!(first.skipped.is_empty());
    assert_eq!(first.steps[1].kind, StepKind::Config);
    assert_eq!(first.steps[1].path, "/p/kron-internal/config.json");

    let again = plan_layout(&prep, false, LinkMode::Symlink, probe(true));
    assert!(again.created.is_empty());
    assert!(again.steps.is_empty());
    assert_eq!(again.skipped.len(), 8);
    assert!(again.skipped.iter().any(|s| s.contains("config.json")));
}

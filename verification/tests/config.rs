use kron::commands::config::{get_value, set_value};
use kron::error::KronError;
use kron::model::{AutoResolve, LinkMode, Project, ProjectSettings};

fn project() -> Project {
    Project::new("/work/demo", LinkMode::Copy, "2026-09-05T00:00:00+00:00", "0.1.0")
}

#[test]
fn config_settings_have_correct_defaults() {
    let s = ProjectSettings::default();
    assert_eq!(s.conflict_threshold_minutes, 5);
    assert_eq!(s.auto_resolve, AutoResolve::Prompt);
    assert_eq!(s.context_refresh_minutes, 5);
}

#[test]
fn new_project_is_named_after_its_directory() {
    let p = project();
    assert_eq!(p.name, "demo");
    assert_eq!(p.kron_data_path, "/work/demo/kron-internal");
    assert_eq!(get_value(&p, "settings.auto_resolve").unwrap(), "prompt");
}

#[test]
fn set_then_get_reads_back_the_written_value() {
    let mut p = project();
    assert_eq!(set_value(&mut p, "settings.conflict_threshold_minutes", "30").unwrap(), "30");
    assert_eq!(get_value(&p, "settings.conflict_threshold_minutes").unwrap(), "30");
    assert_eq!(set_value(&mut p, "settings.auto_resolve", "LATEST").unwrap(), "latest");
    assert_eq!(p.settings.auto_resolve, AutoResolve::Latest);
    assert_eq!(set_value(&mut p, "name", "renamed").unwrap(), "renamed");
    assert_eq!(get_value(&p, "name").unwrap(), "renamed");
    assert_eq!(set_value(&mut p, "settings.context_refresh_minutes", "+7").unwrap(), "7");
}

#[test]
fn refused_writes_leave_the_project_unchanged() {
    let mut p = project();
    let before = p.clone();
    match set_value(&mut p, "settings.conflict_threshold_minutes", "0") {
        Err(KronError::Cli(m)) => assert_eq!(m, "conflict_threshold_minutes must be >= 1"),
        other => panic!("expected Cli, got {other:?}"),
    }
    match set_value(&mut p, "settings.context_refresh_minutes", "soon") {
        Err(KronError::Cli(m)) => assert_eq!(m, "expected integer for settings.context_refresh_minutes, got \"soon\""),
        other => panic!("expected Cli, got {other:?}"),
    }
    match set_value(&mut p, "settings.auto_resolve", "Never") {
        Err(KronError::Cli(m)) => assert_eq!(m, "auto_resolve must be one of: prompt | latest | manual (got \"never\")"),
        other => panic!("expected Cli, got {other:?}"),
    }
    assert!(matches!(set_value(&mut p, "kron_version", "9"), Err(KronError::Cli(m)) if m == "kron_version is read-only (set by `kron init`)"));
    assert!(matches!(set_value(&mut p, "created_at", "x"), Err(KronError::Cli(m)) if m == "created_at is read-only"));
    assert!(matches!(set_value(&mut p, "name", ""), Err(KronError::Cli(m)) if m == "name must not be empty"));
    assert!(matches!(get_value(&p, "bogus"), Err(KronError::Cli(m)) if m == "unknown config key: \"bogus\" (try `kron config list`)"));
    assert_eq!(p, before);
}

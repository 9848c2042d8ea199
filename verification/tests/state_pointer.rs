use kron::domain::state_pointer::{check_loaded, clear, current, PointerState, STATE_VERSION};
use kron::error::KronError;

const NOW: &str = "2026-09-06T00:00:00+00:00";

#[test]
fn current_is_none_when_no_file() {
    let st = PointerState::fresh(NOW);
    assert_eq!(current(&st), None);
}

#[test]
fn set_then_current_round_trips() {
    let mut st = PointerState::fresh(NOW);
    kron::domain::state_pointer::set(&mut st, "开发", NOW).unwrap();
    assert_eq!(current(&st).as_deref(), Some("开发"));
}

#[test]
fn set_rejects_empty_name() {
    let mut st = PointerState::fresh(NOW);
    let err = kron::domain::state_pointer::set(&mut st, "", NOW).unwrap_err();
    assert!(matches!(err, KronError::Cli(_)));
    assert_eq!(current(&st), None);
}

#[test]
fn clear_removes_pointer() {
    let mut st = PointerState::fresh(NOW);
    kron::domain::state_pointer::set(&mut st, "doing", NOW).unwrap();
    clear(&mut st, NOW);
    assert_eq!(current(&st), None);
}

#[test]
fn set_records_the_time_and_keeps_the_version() {
    let mut st = PointerState::fresh("t0");
    kron::domain::state_pointer::set(&mut st, "done", "t1").unwrap();
    assert_eq!(st.updated_at, "t1");
    assert_eq!(st.version, STATE_VERSION);
}

#[test]
fn version_mismatch_is_reported() {
    let parsed = PointerState { version: 999, current_vertex: Some("x".into()), updated_at: NOW.into() };
    match check_loaded(parsed) {
        Err(KronError::Internal(msg)) => assert!(msg.contains("version")),
        other => panic!("expected Internal, got {other:?}"),
    }
}

#[test]
fn vertex_use_set_get_unset_round_trip() {
    let mut st = PointerState::fresh(NOW);
    assert!(current(&st).is_none(), "fresh project has no pointer");
    kron::domain::state_pointer::set(&mut st, "开发", NOW).unwrap();
    assert_eq!(current(&st).as_deref(), Some("开发"));
    kron::domain::state_pointer::set(&mut st, "doing", NOW).unwrap();
    assert_eq!(current(&st).as_deref(), Some("doing"));
    clear(&mut st, NOW);
    assert!(current(&st).is_none(), "--unset must clear");
}

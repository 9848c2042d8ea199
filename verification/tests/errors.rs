use kron::error::KronError;

#[test]
fn cli_variants_exit_2() {
    assert_eq!(KronError::Cli("x".into()).exit_code(), 2);
    assert_eq!(
        KronError::InvalidFrontmatter { file: "x".into(), reason: "x".into() }.exit_code(),
        2
    );
    assert_eq!(KronError::InvalidVertexName("x".into()).exit_code(), 2);
    assert_eq!(KronError::InvalidTaskFilename("x".into()).exit_code(), 2);
    assert_eq!(KronError::DuplicateTaskId("x".into()).exit_code(), 2);
}

#[test]
fn not_initialised_variants_exit_4() {
    assert_eq!(KronError::NotAProject("x".into()).exit_code(), 4);
    assert_eq!(KronError::AlreadyInitialized("x".into()).exit_code(), 4);
    assert_eq!(KronError::NotGitRepo("x".into()).exit_code(), 4);
    assert_eq!(
        KronError::AncestorProject { attempted: "x".into(), ancestor: "y".into() }.exit_code(),
        4
    );
}

#[test]
fn not_found_exits_8() {
    assert_eq!(KronError::NotFound("x".into()).exit_code(), 8);
}

#[test]
fn permission_exits_9_io_exits_6() {
    assert_eq!(KronError::PermissionDenied("x".into()).exit_code(), 9);
}

#[test]
fn io_and_internal_exit_codes() {
    assert_eq!(KronError::Io("disk".into()).exit_code(), 6);
    assert_eq!(KronError::Internal("x".into()).exit_code(), 1);
    assert_eq!(KronError::NotYetImplemented("x".into()).exit_code(), 1);
}

#[test]
fn error_display_does_not_leak_internal_paths_to_user_messages() {
    let err = KronError::NotAProject("/tmp/foo".into());
    let s = err.message();
    assert!(s.contains("not a Kron project"));
    assert!(s.contains("/tmp/foo"));
}

#[test]
fn messages_quote_names_as_debug_strings() {
    let s = KronError::InvalidVertexName("Bad Name".into()).message();
    assert_eq!(s, "invalid vertex name: \"Bad Name\" (expected slug: [a-z0-9-_])");
    assert_eq!(KronError::Cli("boom".into()).message(), "cli: boom");
}

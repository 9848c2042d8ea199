//! Kron error type, its user-facing messages and its process exit codes.
//!
//! Every fallible operation returns `Result<T, KronError>`. Paths and the
//! messages of underlying I/O, JSON and YAML errors are carried as text.

use vstd::prelude::*;
use crate::text::concat2;

verus! {

/// Top-level error type.
#[derive(Debug, Clone)]
pub enum KronError {
    /// A required directory or file does not exist.
    NotFound(String),
    /// The path is not inside a Kron project.
    NotAProject(String),
    /// An ancestor directory already hosts a Kron project.
    AncestorProject { attempted: String, ancestor: String },
    /// Frontmatter missing required fields, or a field has an invalid value.
    InvalidFrontmatter { file: String, reason: String },
    /// Vertex directory name violates the slug rules.
    InvalidVertexName(String),
    /// Task filename does not match the expected pattern.
    InvalidTaskFilename(String),
    /// Two tasks claim the same ID.
    DuplicateTaskId(String),
    /// Permission denied reading or writing a file.
    PermissionDenied(String),
    /// I/O error (its message).
    Io(String),
    /// JSON serialization/deserialization failure (its message).
    Json(String),
    /// YAML serialization/deserialization failure (its message).
    Yaml(String),
    /// Unexpected internal error.
    Internal(String),
    /// Workspace already initialized.
    AlreadyInitialized(String),
    /// Operation requires a Git repository.
    NotGitRepo(String),
    /// CLI-level error (invalid args, conflicting flags, ...).
    Cli(String),
    /// CLI-level error with a custom message.
    CliCustom(String),
    /// A feature is not yet implemented.
    NotYetImplemented(String),
    /// A text file could not be parsed into the expected structure.
    Parse(String),
}

/// Convenient Result alias.
pub type Result<T> = core::result::Result<T, KronError>;

/// The exit code of each error kind.
pub open spec fn exit_code_of(e: KronError) -> i32 {
    match e {
        KronError::Cli(_) | KronError::CliCustom(_) | KronError::InvalidFrontmatter { .. }
        | KronError::InvalidVertexName(_) | KronError::InvalidTaskFilename(_)
        | KronError::DuplicateTaskId(_) => 2,
        KronError::NotAProject(_) | KronError::AlreadyInitialized(_) | KronError::NotGitRepo(_)
        | KronError::AncestorProject { .. } => 4,
        KronError::PermissionDenied(_) | KronError::Parse(_) => 9,
        KronError::Io(_) | KronError::Json(_) | KronError::Yaml(_) => 6,
        KronError::NotFound(_) => 8,
        KronError::Internal(_) | KronError::NotYetImplemented(_) => 1,
    }
}

/// `format!("{:?}", s)` for a string.
pub uninterp spec fn debug_quoted(s: Seq<char>) -> Seq<char>;

/// Wraps the `Debug` formatting of `str`: the string in double quotes with
/// Rust's escapes. Only its dependence on `s` is stated.
#[verifier::external_body]
pub(crate) fn debug_str(s: &str) -> (res: String)
    ensures
        res@ == debug_quoted(s@),
{
    format!("{:?}", s)
}

/// The user-facing message (what `Display` prints).
pub open spec fn message_of(e: KronError) -> Seq<char> {
    match e {
        KronError::NotFound(p) => "path not found: "@ + p@,
        KronError::NotAProject(p) => "not a Kron project: "@ + p@
            + " (no `kron-internal/config.json` found in this directory or any parent)"@,
        KronError::AncestorProject { attempted, ancestor } => "cannot initialize Kron project at `"@
            + attempted@ + "`: an ancestor project already exists at `"@ + ancestor@ + "`"@,
        KronError::InvalidFrontmatter { file, reason } => "invalid frontmatter in "@ + file@
            + ": "@ + reason@,
        KronError::InvalidVertexName(n) => "invalid vertex name: "@ + debug_quoted(n@)
            + " (expected slug: [a-z0-9-_])"@,
        KronError::InvalidTaskFilename(n) => "invalid task filename: "@ + debug_quoted(n@)
            + " (expected t-<yyyy>-<seq>-<slug>.md)"@,
        KronError::DuplicateTaskId(id) => "duplicate task id: "@ + id@,
        KronError::PermissionDenied(p) => "permission denied: "@ + p@,
        KronError::Io(m) => "io error: "@ + m@,
        KronError::Json(m) => "json error: "@ + m@,
        KronError::Yaml(m) => "yaml error: "@ + m@,
        KronError::Internal(m) => "internal error: "@ + m@,
        KronError::AlreadyInitialized(p) => "already initialized at "@ + p@
            + " (use --force to re-initialize)"@,
        KronError::NotGitRepo(p) => "not a Git repository: "@ + p@ + " (use --no-git to bypass)"@,
        KronError::Cli(m) => "cli: "@ + m@,
        KronError::CliCustom(m) => m@,
        KronError::NotYetImplemented(m) => "not yet implemented: "@ + m@,
        KronError::Parse(m) => "parse error: "@ + m@,
    }
}

impl KronError {
    /// Map an error to a process exit code.
    pub fn exit_code(&self) -> (res: i32)
        ensures
            res == exit_code_of(*self),
    {
        match self {
            KronError::Cli(_) | KronError::CliCustom(_) | KronError::InvalidFrontmatter { .. }
            | KronError::InvalidVertexName(_) | KronError::InvalidTaskFilename(_)
            | KronError::DuplicateTaskId(_) => 2,
            KronError::NotAProject(_) | KronError::AlreadyInitialized(_)
            | KronError::NotGitRepo(_) | KronError::AncestorProject { .. } => 4,
            KronError::PermissionDenied(_) | KronError::Parse(_) => 9,
            KronError::Io(_) | KronError::Json(_) | KronError::Yaml(_) => 6,
            KronError::NotFound(_) => 8,
            KronError::Internal(_) | KronError::NotYetImplemented(_) => 1,
        }
    }

    /// The user-facing message, as `Display` would print it.
    pub fn message(&self) -> (res: String)
        ensures
            res@ == message_of(*self),
    {
        match self {
            KronError::NotFound(p) => concat2("path not found: ", p.as_str()),
            KronError::NotAProject(p) => {
                let mut s = concat2("not a Kron project: ", p.as_str());
                s.append(
                    " (no `kron-internal/config.json` found in this directory or any parent)",
                );
                s
            },
            KronError::AncestorProject { attempted, ancestor } => {
                let mut s = concat2("cannot initialize Kron project at `", attempted.as_str());
                s.append("`: an ancestor project already exists at `");
                s.append(ancestor.as_str());
                s.append("`");
                s
            },
            KronError::InvalidFrontmatter { file, reason } => {
                let mut s = concat2("invalid frontmatter in ", file.as_str());
                s.append(": ");
                s.append(reason.as_str());
                s
            },
            KronError::InvalidVertexName(n) => {
                let q = debug_str(n.as_str());
                let mut s = concat2("invalid vertex name: ", q.as_str());
                s.append(" (expected slug: [a-z0-9-_])");
                s
            },
            KronError::InvalidTaskFilename(n) => {
                let q = debug_str(n.as_str());
                let mut s = concat2("invalid task filename: ", q.as_str());
                s.append(" (expected t-<yyyy>-<seq>-<slug>.md)");
                s
            },
            KronError::DuplicateTaskId(id) => concat2("duplicate task id: ", id.as_str()),
            KronError::PermissionDenied(p) => concat2("permission denied: ", p.as_str()),
            KronError::Io(m) => concat2("io error: ", m.as_str()),
            KronError::Json(m) => concat2("json error: ", m.as_str()),
            KronError::Yaml(m) => concat2("yaml error: ", m.as_str()),
            KronError::Internal(m) => concat2("internal error: ", m.as_str()),
            KronError::AlreadyInitialized(p) => {
                let mut s = concat2("already initialized at ", p.as_str());
                s.append(" (use --force to re-initialize)");
                s
            },
            KronError::NotGitRepo(p) => {
                let mut s = concat2("not a Git repository: ", p.as_str());
                s.append(" (use --no-git to bypass)");
                s
            },
            KronError::Cli(m) => concat2("cli: ", m.as_str()),
            KronError::CliCustom(m) => m.clone(),
            KronError::NotYetImplemented(m) => concat2("not yet implemented: ", m.as_str()),
            KronError::Parse(m) => concat2("parse error: ", m.as_str()),
        }
    }
}

} // verus!

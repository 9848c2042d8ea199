//! Current-vertex pointer (a Git-style `HEAD` for task commands).
//!
//! Stored in `kron-internal/state.json` as a version, an optional vertex
//! name and an update timestamp. The name is not checked against the
//! registry here; callers do that before `set`.

use vstd::prelude::*;
use crate::error::{KronError, Result};
use crate::paths::{join, join_spec};
use crate::text::{chars_of, clone_opt, concat3, fmt_u32, decimal_str, owned, trim, trim_bounds};

verus! {

/// Current schema version of `state.json`.
pub const STATE_VERSION: u32 = 1;

/// On-disk representation of the pointer. `updated_at` is RFC 3339.
#[derive(Debug, Clone, PartialEq)]
pub struct PointerState {
    pub version: u32,
    pub current_vertex: Option<String>,
    pub updated_at: String,
}

/// `<root>/kron-internal/state.json`.
pub open spec fn state_path_spec(root: Seq<char>) -> Seq<char> {
    join_spec(join_spec(root, "kron-internal"@), "state.json"@)
}

pub fn state_path(project_root: &str) -> (res: String)
    ensures
        res@ == state_path_spec(project_root@),
{
    let a = join(project_root, "kron-internal");
    join(a.as_str(), "state.json")
}

impl PointerState {
    /// The state of a workspace that has never set a pointer.
    pub fn fresh(now: &str) -> (res: PointerState)
        ensures
            res.version == STATE_VERSION,
            res.current_vertex is None,
            res.updated_at@ == now@,
    {
        PointerState { version: STATE_VERSION, current_vertex: None, updated_at: owned(now) }
    }
}

/// A `state.json` whose text is blank reads as the fresh state; only a
/// non-blank file is parsed.
pub fn needs_parse(raw: &str) -> (res: bool)
    ensures
        res == (trim(raw@).len() > 0),
{
    let cs = chars_of(raw);
    let (a, b) = trim_bounds(cs.as_slice());
    a < b
}

/// The error for a `state.json` that does not parse.
pub open spec fn parse_failure_message(path: Seq<char>, err: Seq<char>) -> Seq<char> {
    "failed to parse kron-internal/state.json ("@ + path + "): "@ + err
}

pub fn parse_failure(path: &str, err: &str) -> (res: KronError)
    ensures
        res matches KronError::Internal(m) && m@ == parse_failure_message(path@, err@),
{
    let mut m = concat3("failed to parse kron-internal/state.json (", path, "): ");
    m.append(err);
    KronError::Internal(m)
}

/// The error for a `state.json` written by another schema version.
pub open spec fn version_mismatch_message(v: u32) -> Seq<char> {
    "kron-internal/state.json has version "@ + decimal_str(v as nat) + ", expected 1; please run 'kron doctor' or reinitialize the workspace"@
}

/// Accept a parsed `state.json` only when it has the current version.
pub fn check_loaded(parsed: PointerState) -> (res: Result<PointerState>)
    ensures
        parsed.version == STATE_VERSION ==> res == Ok::<PointerState, KronError>(parsed),
        parsed.version != STATE_VERSION ==> (res matches Err(KronError::Internal(m)) && m@
            == version_mismatch_message(parsed.version)),
{
    if parsed.version != STATE_VERSION {
        let v = fmt_u32(parsed.version);
        return Err(KronError::Internal(concat3(
            "kron-internal/state.json has version ",
            v.as_str(),
            ", expected 1; please run 'kron doctor' or reinitialize the workspace",
        )));
    }
    Ok(parsed)
}

/// The current vertex name, if one is set.
pub fn current(state: &PointerState) -> (res: Option<String>)
    ensures
        res == state.current_vertex,
{
    clone_opt(&state.current_vertex)
}

/// The refusal of an empty vertex name.
pub open spec fn empty_name_message() -> Seq<char> {
    "vertex name must not be empty (use --unset to clear)"@
}

/// Point at vertex `name` (stored verbatim) at time `now`. An empty name
/// is refused and leaves the state unchanged.
pub fn set(state: &mut PointerState, name: &str, now: &str) -> (res: Result<()>)
    ensures
        name@.len() == 0 ==> (res matches Err(KronError::Cli(m)) && m@ == empty_name_message()
            && *final(state) == *old(state)),
        name@.len() > 0 ==> (res is Ok && final(state).version == old(state).version
            && final(state).updated_at@ == now@ && (final(state).current_vertex matches Some(c)
            && c@ == name@)),
{
    if name.is_empty() {
        return Err(KronError::Cli(owned("vertex name must not be empty (use --unset to clear)")));
    }
    state.current_vertex = Some(owned(name));
    state.updated_at = owned(now);
    Ok(())
}

/// Clear the pointer at time `now`.
pub fn clear(state: &mut PointerState, now: &str)
    ensures
        final(state).version == old(state).version,
        final(state).current_vertex is None,
        final(state).updated_at@ == now@,
{
    state.current_vertex = None;
    state.updated_at = owned(now);
}

} // verus!

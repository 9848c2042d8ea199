//! Domain models: project metadata and settings, task states, sync and
//! conflict states.

use vstd::prelude::*;
use crate::paths::{file_name, file_name_spec, join, join_spec};
use crate::text::{clone_opt, lower_seq, owned, str_eq, to_ascii_lowercase, concat3};

verus! {

// ---------------------------------------------------------------------------
// Project
// ---------------------------------------------------------------------------

/// Top-level project metadata persisted to `kron-internal/config.json`.
/// Paths are `/`-separated strings; `created_at` is an RFC 3339 timestamp.
#[derive(Debug, Clone, PartialEq)]
pub struct Project {
    pub name: String,
    pub project_path: String,
    pub kron_data_path: String,
    pub created_at: String,
    pub kron_version: String,
    pub settings: ProjectSettings,
}

/// User-tunable project settings.
#[derive(Debug, Clone, Copy, PartialEq, Eq, Structural)]
pub struct ProjectSettings {
    /// Minutes of overlap before a sync drift is reported as a conflict.
    pub conflict_threshold_minutes: u32,
    /// Conflict auto-resolve strategy.
    pub auto_resolve: AutoResolve,
    /// How often `.kron-context/` is regenerated (minutes).
    pub context_refresh_minutes: u32,
}

/// Conflict auto-resolve strategy.
#[derive(Debug, Clone, Copy, PartialEq, Eq, Structural)]
pub enum AutoResolve {
    Prompt,
    Latest,
    Manual,
}

impl AutoResolve {
    /// Lower-case name, as stored in `config.json` and shown by `kron config`.
    pub open spec fn name(self) -> Seq<char> {
        match self {
            AutoResolve::Prompt => "prompt"@,
            AutoResolve::Latest => "latest"@,
            AutoResolve::Manual => "manual"@,
        }
    }

    pub fn as_str(&self) -> (res: &'static str)
        ensures
            res@ == self.name(),
    {
        match self {
            AutoResolve::Prompt => "prompt",
            AutoResolve::Latest => "latest",
            AutoResolve::Manual => "manual",
        }
    }
}

pub fn default_conflict_threshold() -> (res: u32)
    ensures
        res == 5,
{
    5
}

pub fn default_context_refresh_minutes() -> (res: u32)
    ensures
        res == 5,
{
    5
}

pub fn default_auto_resolve() -> (res: AutoResolve)
    ensures
        res == AutoResolve::Prompt,
{
    AutoResolve::Prompt
}

/// The default settings: threshold 5, prompt, refresh every 5 minutes.
pub open spec fn default_settings() -> ProjectSettings {
    ProjectSettings {
        conflict_threshold_minutes: 5,
        auto_resolve: AutoResolve::Prompt,
        context_refresh_minutes: 5,
    }
}

impl Default for ProjectSettings {
    fn default() -> (res: Self)
        ensures
            res == default_settings(),
    {
        ProjectSettings {
            conflict_threshold_minutes: default_conflict_threshold(),
            auto_resolve: default_auto_resolve(),
            context_refresh_minutes: default_context_refresh_minutes(),
        }
    }
}

/// File-link strategy for `KRON/important/` and `kron-internal/important/`.
#[derive(Debug, Clone, Copy, PartialEq, Eq, Structural)]
pub enum LinkMode {
    Symlink,
    Copy,
}

impl LinkMode {
    /// On Windows the mode falls back to `Copy` (symlinks need Developer
    /// Mode or admin rights); elsewhere it is kept. The caller says whether
    /// the target platform is Windows.
    pub fn fallback_for_platform(self, on_windows: bool) -> (res: Self)
        ensures
            res == (if on_windows {
                LinkMode::Copy
            } else {
                self
            }),
    {
        if on_windows {
            match self {
                LinkMode::Symlink => LinkMode::Copy,
                LinkMode::Copy => LinkMode::Copy,
            }
        } else {
            self
        }
    }
}

/// One entry in `kron-internal/vertices.json` as written by `kron init`.
#[derive(Debug, Clone, PartialEq)]
pub struct VertexEntry {
    pub name: String,
    pub path: String,
}

/// The project name derived from its root: the directory name, or
/// `unnamed` when the path has none.
pub open spec fn project_name_for(root: Seq<char>) -> Seq<char> {
    match file_name_spec(root) {
        Some(n) => n,
        None => "unnamed"@,
    }
}

impl Project {
    /// A project for a freshly initialized workspace at `project_root`,
    /// created at `created_at` by Kron version `kron_version`, with the
    /// default settings.
    pub fn new(
        project_root: &str,
        link_mode: LinkMode,
        created_at: &str,
        kron_version: &str,
    ) -> (res: Self)
        ensures
            res.name@ == project_name_for(project_root@),
            res.project_path@ == project_root@,
            res.kron_data_path@ == join_spec(project_root@, "kron-internal"@),
            res.created_at@ == created_at@,
            res.kron_version@ == kron_version@,
            res.settings == default_settings(),
    {
        let _ = link_mode;
        let name = match file_name(project_root) {
            Some(n) => n,
            None => owned("unnamed"),
        };
        Project {
            name,
            project_path: owned(project_root),
            kron_data_path: join(project_root, "kron-internal"),
            created_at: owned(created_at),
            kron_version: owned(kron_version),
            settings: ProjectSettings::default(),
        }
    }
}

// ---------------------------------------------------------------------------
// Task states
// ---------------------------------------------------------------------------

/// The canonical task states, in chain order `todo -> doing -> done`.
#[derive(Debug, Clone, Copy, PartialEq, Eq, Structural)]
pub enum TaskState {
    Todo,
    Doing,
    Done,
}

impl TaskState {
    /// The state's name, which is also its vertex directory name.
    pub open spec fn name(self) -> Seq<char> {
        match self {
            TaskState::Todo => "todo"@,
            TaskState::Doing => "doing"@,
            TaskState::Done => "done"@,
        }
    }

    /// The state before this one on the chain.
    pub open spec fn prev(self) -> Option<TaskState> {
        match self {
            TaskState::Todo => None,
            TaskState::Doing => Some(TaskState::Todo),
            TaskState::Done => Some(TaskState::Doing),
        }
    }

    /// The state after this one on the chain.
    pub open spec fn next(self) -> Option<TaskState> {
        match self {
            TaskState::Todo => Some(TaskState::Doing),
            TaskState::Doing => Some(TaskState::Done),
            TaskState::Done => None,
        }
    }

    pub fn as_str(&self) -> (res: &'static str)
        ensures
            res@ == self.name(),
    {
        match self {
            TaskState::Todo => "todo",
            TaskState::Doing => "doing",
            TaskState::Done => "done",
        }
    }

    /// One step backwards: `done -> doing`, `doing -> todo`.
    pub fn prev_in_chain(self) -> (res: Option<TaskState>)
        ensures
            res == self.prev(),
    {
        match self {
            TaskState::Todo => None,
            TaskState::Doing => Some(TaskState::Todo),
            TaskState::Done => Some(TaskState::Doing),
        }
    }

    /// One step forwards: `todo -> doing`, `doing -> done`.
    pub fn next_in_chain(self) -> (res: Option<TaskState>)
        ensures
            res == self.next(),
    {
        match self {
            TaskState::Todo => Some(TaskState::Doing),
            TaskState::Doing => Some(TaskState::Done),
            TaskState::Done => None,
        }
    }

    /// New tasks always start in `todo`.
    pub fn default_for_new() -> (res: TaskState)
        ensures
            res == TaskState::Todo,
    {
        TaskState::Todo
    }
}

/// The error text of a rejected state string.
pub open spec fn bad_state_message(s: Seq<char>) -> Seq<char> {
    "unknown state '"@ + s + "' (expected one of: todo, doing, done)"@
}

/// What `parse_state` returns: the state whose name equals the ASCII
/// lower-case form of `s` (no trimming), else an error.
pub open spec fn parse_state_spec(s: Seq<char>) -> core::result::Result<TaskState, Seq<char>> {
    let l = lower_seq(s);
    if l == TaskState::Todo.name() {
        Ok(TaskState::Todo)
    } else if l == TaskState::Doing.name() {
        Ok(TaskState::Doing)
    } else if l == TaskState::Done.name() {
        Ok(TaskState::Done)
    } else {
        Err(bad_state_message(s))
    }
}

/// Parse a task state strictly: only `todo`, `doing`, `done` in any ASCII
/// case are accepted.
pub fn parse_state(s: &str) -> (res: core::result::Result<TaskState, String>)
    ensures
        match res {
            Ok(st) => parse_state_spec(s@) == Ok::<TaskState, Seq<char>>(st),
            Err(m) => parse_state_spec(s@) == Err::<TaskState, Seq<char>>(m@),
        },
{
    let l = to_ascii_lowercase(s);
    if str_eq(l.as_str(), "todo") {
        Ok(TaskState::Todo)
    } else if str_eq(l.as_str(), "doing") {
        Ok(TaskState::Doing)
    } else if str_eq(l.as_str(), "done") {
        Ok(TaskState::Done)
    } else {
        Err(concat3("unknown state '", s, "' (expected one of: todo, doing, done)"))
    }
}

impl core::str::FromStr for TaskState {
    type Err = String;

    fn from_str(s: &str) -> (res: core::result::Result<TaskState, String>)
        ensures
            match res {
                Ok(st) => parse_state_spec(s@) == Ok::<TaskState, Seq<char>>(st),
                Err(m) => parse_state_spec(s@) == Err::<TaskState, Seq<char>>(m@),
            },
    {
        parse_state(s)
    }
}

/// Printing a state and parsing it back gives the same state.
pub proof fn lemma_parse_state_round_trip(st: TaskState)
    ensures
        parse_state_spec(st.name()) == Ok::<TaskState, Seq<char>>(st),
{
    reveal_strlit("todo");
    reveal_strlit("doing");
    reveal_strlit("done");
    assert(lower_seq(st.name()) =~= st.name());
    assert("todo"@ != "done"@) by {
        assert("todo"@[2] != "done"@[2]);
    }
    assert("todo"@.len() != "doing"@.len());
    assert("done"@.len() != "doing"@.len());
}

/// Stepping forwards then backwards (or backwards then forwards) along
/// the state chain returns to the starting state.
pub proof fn lemma_chain_inverse(st: TaskState)
    ensures
        st.next() matches Some(n) ==> n.prev() == Some(st),
        st.prev() matches Some(p) ==> p.next() == Some(st),
{
}

/// The chain is `todo -> doing -> done`: new tasks start at its head and
/// `done` is its only end.
pub proof fn lemma_chain_shape()
    ensures
        TaskState::Todo.next() == Some(TaskState::Doing),
        TaskState::Doing.next() == Some(TaskState::Done),
        TaskState::Done.next() is None,
        TaskState::Todo.prev() is None,
        forall|st: TaskState| st.next() is None <==> st == TaskState::Done,
        forall|st: TaskState| st.prev() is None <==> st == TaskState::Todo,
{
}

// ---------------------------------------------------------------------------
// Sync and conflict states
// ---------------------------------------------------------------------------

/// Sync state of one important file.
#[derive(Debug, Clone, Copy, PartialEq, Eq, Structural)]
pub enum SyncState {
    Synced,
    ProjectOnly,
    InternalOnly,
    Conflict,
}

impl SyncState {
    pub open spec fn name(self) -> Seq<char> {
        match self {
            SyncState::Synced => "synced"@,
            SyncState::ProjectOnly => "project_only"@,
            SyncState::InternalOnly => "internal_only"@,
            SyncState::Conflict => "conflict"@,
        }
    }

    pub fn as_str(&self) -> (res: &'static str)
        ensures
            res@ == self.name(),
    {
        match self {
            SyncState::Synced => "synced",
            SyncState::ProjectOnly => "project_only",
            SyncState::InternalOnly => "internal_only",
            SyncState::Conflict => "conflict",
        }
    }
}

/// Lifecycle of a conflict record.
#[derive(Debug, Clone, Copy, PartialEq, Eq, Structural)]
pub enum ConflictStatus {
    Pending,
    Resolved,
    Ignored,
}

impl ConflictStatus {
    pub open spec fn name(self) -> Seq<char> {
        match self {
            ConflictStatus::Pending => "pending"@,
            ConflictStatus::Resolved => "resolved"@,
            ConflictStatus::Ignored => "ignored"@,
        }
    }

    pub fn as_str(&self) -> (res: &'static str)
        ensures
            res@ == self.name(),
    {
        match self {
            ConflictStatus::Pending => "pending",
            ConflictStatus::Resolved => "resolved",
            ConflictStatus::Ignored => "ignored",
        }
    }
}

/// How a conflict was (or is to be) resolved.
#[derive(Debug, Clone, Copy, PartialEq, Eq, Structural)]
pub enum ConflictResolution {
    UseProject,
    UseInternal,
    Ignore,
}

impl ConflictResolution {
    pub open spec fn name(self) -> Seq<char> {
        match self {
            ConflictResolution::UseProject => "use_project"@,
            ConflictResolution::UseInternal => "use_internal"@,
            ConflictResolution::Ignore => "ignore"@,
        }
    }

    pub fn as_str(&self) -> (res: &'static str)
        ensures
            res@ == self.name(),
    {
        match self {
            ConflictResolution::UseProject => "use_project",
            ConflictResolution::UseInternal => "use_internal",
            ConflictResolution::Ignore => "ignore",
        }
    }
}

/// The state of one registered important file after a scan.
#[derive(Debug, Clone, PartialEq)]
pub struct SyncPair {
    pub relative_path: String,
    pub sync_state: SyncState,
    pub project_exists: bool,
    pub internal_exists: bool,
    pub conflict_id: Option<String>,
}

impl SyncPair {
    /// A field-by-field copy.
    pub fn duplicate(&self) -> (res: SyncPair)
        ensures
            res == *self,
    {
        SyncPair {
            relative_path: self.relative_path.clone(),
            sync_state: self.sync_state,
            project_exists: self.project_exists,
            internal_exists: self.internal_exists,
            conflict_id: clone_opt(&self.conflict_id),
        }
    }
}

/// A detected conflict with both byte-level backups. Timestamps are RFC
/// 3339 strings; backups are paths.
#[derive(Debug, Clone, PartialEq)]
pub struct ConflictRecord {
    pub id: String,
    pub relative_path: String,
    pub detected_at: String,
    pub project_backup: String,
    pub internal_backup: String,
    pub project_hash: String,
    pub internal_hash: String,
    pub project_mtime: String,
    pub internal_mtime: String,
    pub status: ConflictStatus,
    pub resolution: Option<ConflictResolution>,
    pub resolved_at: Option<String>,
}

impl ConflictRecord {
    /// A field-by-field copy.
    pub fn duplicate(&self) -> (res: ConflictRecord)
        ensures
            res == *self,
    {
        ConflictRecord {
            id: self.id.clone(),
            relative_path: self.relative_path.clone(),
            detected_at: self.detected_at.clone(),
            project_backup: self.project_backup.clone(),
            internal_backup: self.internal_backup.clone(),
            project_hash: self.project_hash.clone(),
            internal_hash: self.internal_hash.clone(),
            project_mtime: self.project_mtime.clone(),
            internal_mtime: self.internal_mtime.clone(),
            status: self.status,
            resolution: self.resolution,
            resolved_at: clone_opt(&self.resolved_at),
        }
    }
}

} // verus!

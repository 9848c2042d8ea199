//! The daemon registration: a PID marker and a status snapshot.
//!
//! `start` refuses while a status snapshot is on record, runs one full
//! scan and records the PID with the scan's summary; `stop` removes both
//! files. Any recorded PID above zero counts as live: there is no
//! background process to signal yet.

use vstd::prelude::*;
use crate::clock::{parse_rfc3339, parse_rfc3339_spec};
use crate::domain::sync::conflict::ScanStats;
use crate::error::{KronError, Result};
use crate::paths::{join, join_spec};
use crate::text::{decimal_str, fmt_u32, owned};

verus! {

/// `<root>/kron-internal/<file>`.
pub open spec fn internal_file_spec(root: Seq<char>, file: Seq<char>) -> Seq<char> {
    join_spec(join_spec(root, "kron-internal"@), file)
}

/// Path to the daemon PID file.
pub fn pid_path(project_root: &str) -> (res: String)
    ensures
        res@ == internal_file_spec(project_root@, ".daemon.pid"@),
{
    let dir = join(project_root, "kron-internal");
    join(dir.as_str(), ".daemon.pid")
}

/// Path to the daemon status JSON file.
pub fn status_path(project_root: &str) -> (res: String)
    ensures
        res@ == internal_file_spec(project_root@, ".daemon.status.json"@),
{
    let dir = join(project_root, "kron-internal");
    join(dir.as_str(), ".daemon.status.json")
}

/// Compact scan summary stored in the daemon status file.
#[derive(Debug, Clone, Copy, PartialEq, Eq, Structural)]
pub struct ScanSummary {
    pub scanned: u32,
    pub synced: u32,
    pub conflicts_new: u32,
    pub conflicts_existing: u32,
    pub internal_only: u32,
    pub project_only: u32,
}

impl From<ScanStats> for ScanSummary {
    fn from(s: ScanStats) -> (res: Self) {
        ScanSummary {
            scanned: s.scanned,
            synced: s.synced,
            conflicts_new: s.conflicts_new,
            conflicts_existing: s.conflicts_existing,
            internal_only: s.internal_only,
            project_only: s.project_only,
        }
    }
}

impl vstd::std_specs::convert::FromSpecImpl<ScanStats> for ScanSummary {
    open spec fn obeys_from_spec() -> bool {
        true
    }

    open spec fn from_spec(s: ScanStats) -> Self {
        summary_of(s)
    }
}

/// The summary of some scan statistics: the same counters.
pub open spec fn summary_of(s: ScanStats) -> ScanSummary {
    ScanSummary {
        scanned: s.scanned,
        synced: s.synced,
        conflicts_new: s.conflicts_new,
        conflicts_existing: s.conflicts_existing,
        internal_only: s.internal_only,
        project_only: s.project_only,
    }
}

/// Persisted daemon status snapshot. Timestamps are RFC 3339 strings.
#[derive(Debug, Clone, PartialEq)]
pub struct DaemonStatus {
    pub pid: u32,
    pub started_at: String,
    pub last_scan_at: Option<String>,
    pub last_scan: Option<ScanSummary>,
}

/// Outcome of a start.
#[derive(Debug, Clone)]
pub struct StartOutcome {
    pub pid: u32,
    pub started_at: String,
    pub scan: ScanSummary,
    pub note: &'static str,
}

/// The note a start reports.
pub const START_NOTE: &'static str = "M2 demo: a real background process will arrive in v2. The PID marker is registered so `status`/`stop` work.";

/// A recorded PID counts as live when it is above zero.
pub open spec fn pid_alive(pid: u32) -> bool {
    pid > 0
}

/// True if a status snapshot is on record and it names a live PID.
pub fn is_running(status: &Option<DaemonStatus>) -> (res: bool)
    ensures
        res == (status matches Some(st) && pid_alive(st.pid)),
{
    match status {
        Some(st) => st.pid > 0,
        None => false,
    }
}

/// How a start time appears in messages: as a `DateTime<Utc>` displays,
/// or as recorded when it does not parse.
pub open spec fn started_display(started_at: Seq<char>) -> Seq<char> {
    match parse_rfc3339_spec(started_at) {
        Some(t) => t.1,
        None => started_at,
    }
}

pub open spec fn already_registered_message(pid: u32, started_at: Seq<char>) -> Seq<char> {
    "daemon already registered (pid "@ + decimal_str(pid as nat) + ", started "@ + started_display(
        started_at,
    ) + ") \u{2014} use `kron daemon stop` first"@
}

/// A start is refused while a status snapshot is on record.
pub fn check_can_start(existing: &Option<DaemonStatus>) -> (res: Result<()>)
    ensures
        existing is None ==> res is Ok,
        existing matches Some(st) ==> (res matches Err(KronError::Cli(m)) && m@
            == already_registered_message(st.pid, st.started_at@)),
{
    match existing {
        None => Ok(()),
        Some(st) => {
            let shown = match parse_rfc3339(st.started_at.as_str()) {
                Some(t) => t.display,
                None => st.started_at.clone(),
            };
            let mut m = owned("daemon already registered (pid ");
            let pid = fmt_u32(st.pid);
            m.append(pid.as_str());
            m.append(", started ");
            m.append(shown.as_str());
            m.append(") \u{2014} use `kron daemon stop` first");
            Err(KronError::Cli(m))
        },
    }
}

/// The status snapshot and outcome of a start by process `pid` at
/// `started_at`, whose scan finished at `scan_at` with `stats`.
pub fn started(pid: u32, started_at: &str, scan_at: &str, stats: ScanStats) -> (res: (DaemonStatus, StartOutcome))
    ensures
        res.0.pid == pid,
        res.0.started_at@ == started_at@,
        res.0.last_scan_at matches Some(t) && t@ == scan_at@,
        res.0.last_scan == Some(summary_of(stats)),
        res.1.pid == pid,
        res.1.started_at@ == started_at@,
        res.1.scan == summary_of(stats),
        res.1.note == START_NOTE,
{
    let summary = ScanSummary::from(stats);
    (
        DaemonStatus {
            pid,
            started_at: owned(started_at),
            last_scan_at: Some(owned(scan_at)),
            last_scan: Some(summary),
        },
        StartOutcome { pid, started_at: owned(started_at), scan: summary, note: START_NOTE },
    )
}

} // verus!

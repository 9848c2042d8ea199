//! `kron status`: what is counted as a task file and the porcelain line of
//! the report.

use vstd::prelude::*;
use crate::domain::task::{is_md_path, is_md_path_exec, DirEntry};
use crate::text::{decimal_str, fmt_u32};

verus! {

/// The entries that count as Markdown files: regular files whose
/// extension is `md`.
pub open spec fn md_count(entries: Seq<DirEntry>) -> nat
    decreases entries.len(),
{
    if entries.len() == 0 {
        0
    } else {
        md_count(entries.drop_last()) + if entries.last().is_file && is_md_path(entries.last().path@) {
            1nat
        } else {
            0nat
        }
    }
}

/// How many of a directory's entries are Markdown files.
pub fn count_md_entries(entries: &[DirEntry]) -> (res: usize)
    ensures
        res == md_count(entries@),
{
    let mut n: usize = 0;
    let mut i: usize = 0;
    while i < entries.len()
        invariant
            i <= entries@.len(),
            n == md_count(entries@.take(i as int)),
            n <= i,
        decreases entries@.len() - i,
    {
        proof {
            assert(entries@.take(i + 1).drop_last() =~= entries@.take(i as int));
            assert(entries@.take(i + 1).last() == entries@[i as int]);
        }
        if entries[i].is_file && is_md_path_exec(entries[i].path.as_str()) {
            n = n + 1;
        }
        i = i + 1;
    }
    assert(entries@.take(entries@.len() as int) =~= entries@);
    n
}

/// What `kron status` reports.
#[derive(Debug, Clone)]
pub struct StatusReport {
    pub project: String,
    pub initialized: bool,
    pub vertices: u32,
    pub tasks: u32,
    pub important_files: u32,
    pub pending_conflicts: u32,
    pub daemon_running: bool,
    pub daemon_pid: Option<u32>,
}

/// `true` or `false`.
pub open spec fn bool_text(b: bool) -> Seq<char> {
    if b {
        "true"@
    } else {
        "false"@
    }
}

fn bool_str(b: bool) -> (res: &'static str)
    ensures
        res@ == bool_text(b),
{
    if b {
        "true"
    } else {
        "false"
    }
}

/// The porcelain line of the report: project, initialised flag, the four
/// counters, `running=<flag>` and `pid=<pid>` (`-` without one), separated
/// by tabs.
pub open spec fn status_line(r: StatusReport) -> Seq<char> {
    r.project@ + "\t"@ + bool_text(r.initialized) + "\t"@ + decimal_str(r.vertices as nat) + "\t"@
        + decimal_str(r.tasks as nat) + "\t"@ + decimal_str(r.important_files as nat) + "\t"@ + decimal_str(
        r.pending_conflicts as nat,
    ) + "\trunning="@ + bool_text(r.daemon_running) + "\tpid="@ + match r.daemon_pid {
        Some(p) => decimal_str(p as nat),
        None => "-"@,
    }
}

/// The porcelain line of a status report.
pub fn status_porcelain(r: &StatusReport) -> (res: String)
    ensures
        res@ == status_line(*r),
{
    let mut out = r.project.clone();
    out.append("\t");
    out.append(bool_str(r.initialized));
    out.append("\t");
    let v = fmt_u32(r.vertices);
    out.append(v.as_str());
    out.append("\t");
    let t = fmt_u32(r.tasks);
    out.append(t.as_str());
    out.append("\t");
    let f = fmt_u32(r.important_files);
    out.append(f.as_str());
    out.append("\t");
    let c = fmt_u32(r.pending_conflicts);
    out.append(c.as_str());
    out.append("\trunning=");
    out.append(bool_str(r.daemon_running));
    out.append("\tpid=");
    match r.daemon_pid {
        Some(p) => {
            let ps = fmt_u32(p);
            out.append(ps.as_str());
        },
        None => {
            out.append("-");
        },
    }
    out
}

} // verus!

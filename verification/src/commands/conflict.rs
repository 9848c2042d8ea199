//! `kron conflict`: the previews, the line diff and the summaries shown
//! for conflicts.

use vstd::prelude::*;
use crate::model::{ConflictRecord, ConflictResolution, ConflictStatus};
use crate::text::{chars_of, decimal_str, fmt_usize, lines_of, owned, split_lines_inclusive, string_of_range, utf8_text, views};

verus! {

// ---------------------------------------------------------------------------
// Previews
// ---------------------------------------------------------------------------

/// At most `max` characters of `s`; a longer text is cut and followed by
/// a line saying how many characters were left out.
pub open spec fn truncate_spec(s: Seq<char>, max: nat) -> Seq<char> {
    if s.len() <= max {
        s
    } else {
        s.take(max as int) + "\n... ("@ + decimal_str((s.len() - max) as nat) + " more chars)"@
    }
}

pub fn truncate(s: &str, max: usize) -> (res: String)
    ensures
        res@ == truncate_spec(s@, max as nat),
{
    let cs = chars_of(s);
    if cs.len() <= max {
        return owned(s);
    }
    let mut out = string_of_range(cs.as_slice(), 0, max);
    out.append("\n... (");
    let n = fmt_usize(cs.len() - max);
    out.append(n.as_str());
    out.append(" more chars)");
    out
}

// ---------------------------------------------------------------------------
// Line diff
// ---------------------------------------------------------------------------

/// Line `i` of `lines`, if there is one.
pub open spec fn line_at(lines: Seq<Seq<char>>, i: int) -> Option<Seq<char>> {
    if 0 <= i < lines.len() {
        Some(lines[i])
    } else {
        None
    }
}

/// One position of the diff: an equal line is kept with a leading space,
/// differing lines are shown removed (`-`) then added (`+`).
pub open spec fn diff_line(p: Option<Seq<char>>, q: Option<Seq<char>>) -> Seq<char> {
    match (p, q) {
        (Some(a), Some(b)) => if a == b {
            " "@ + a
        } else {
            "-"@ + a + "+"@ + b
        },
        (Some(a), None) => "-"@ + a,
        (None, Some(b)) => "+"@ + b,
        (None, None) => Seq::empty(),
    }
}

/// The diff of the first `n` line positions.
pub open spec fn diff_body(p: Seq<Seq<char>>, q: Seq<Seq<char>>, n: nat) -> Seq<char>
    decreases n,
{
    if n == 0 {
        Seq::empty()
    } else {
        diff_body(p, q, (n - 1) as nat) + diff_line(line_at(p, n - 1), line_at(q, n - 1))
    }
}

pub open spec fn binary_diff_message(p_len: nat, q_len: nat) -> Seq<char> {
    "Binary file diff not supported.\n  project: "@ + decimal_str(p_len) + " bytes\n  internal: "@
        + decimal_str(q_len) + " bytes\n"@
}

/// A line-by-line diff of two versions (no alignment): position `i` of one
/// is compared with position `i` of the other. Either side not being UTF-8
/// gives a placeholder naming both sizes.
pub open spec fn unified_diff(p_name: Seq<char>, p_bytes: Seq<u8>, q_name: Seq<char>, q_bytes: Seq<u8>) -> Seq<char> {
    if !vstd::utf8::valid_utf8(p_bytes) || !vstd::utf8::valid_utf8(q_bytes) {
        binary_diff_message(p_bytes.len(), q_bytes.len())
    } else {
        let p = lines_of(vstd::utf8::decode_utf8(p_bytes));
        let q = lines_of(vstd::utf8::decode_utf8(q_bytes));
        let n = if p.len() >= q.len() {
            p.len()
        } else {
            q.len()
        };
        "--- a/"@ + p_name + "\n+++ b/"@ + q_name + "\n"@ + diff_body(p, q, n)
    }
}

fn binary_diff(p_len: usize, q_len: usize) -> (res: String)
    ensures
        res@ == binary_diff_message(p_len as nat, q_len as nat),
{
    let mut out = owned("Binary file diff not supported.\n  project: ");
    let a = fmt_usize(p_len);
    out.append(a.as_str());
    out.append(" bytes\n  internal: ");
    let b = fmt_usize(q_len);
    out.append(b.as_str());
    out.append(" bytes\n");
    out
}

/// A small unified-diff-style text between the project and internal
/// versions of a file.
pub fn build_unified_diff(proj_name: &str, proj_bytes: &[u8], int_name: &str, int_bytes: &[u8]) -> (res: String)
    ensures
        res@ == unified_diff(proj_name@, proj_bytes@, int_name@, int_bytes@),
{
    let proj_text = match utf8_text(proj_bytes) {
        Some(t) => t,
        None => return binary_diff(proj_bytes.len(), int_bytes.len()),
    };
    let int_text = match utf8_text(int_bytes) {
        Some(t) => t,
        None => return binary_diff(proj_bytes.len(), int_bytes.len()),
    };
    let p = split_lines_inclusive(proj_text.as_str());
    let q = split_lines_inclusive(int_text.as_str());
    let mut out = owned("--- a/");
    out.append(proj_name);
    out.append("\n+++ b/");
    out.append(int_name);
    out.append("\n");
    let ghost head = out@;
    let n = if p.len() >= q.len() {
        p.len()
    } else {
        q.len()
    };
    let mut i: usize = 0;
    while i < n
        invariant
            i <= n,
            n == (if p@.len() >= q@.len() {
                p@.len()
            } else {
                q@.len()
            }),
            out@ == head + diff_body(views(p@), views(q@), i as nat),
        decreases n - i,
    {
        if i < p.len() && i < q.len() {
            if crate::text::str_eq(p[i].as_str(), q[i].as_str()) {
                out.append(" ");
                out.append(p[i].as_str());
            } else {
                out.append("-");
                out.append(p[i].as_str());
                out.append("+");
                out.append(q[i].as_str());
            }
        } else if i < p.len() {
            out.append("-");
            out.append(p[i].as_str());
        } else if i < q.len() {
            out.append("+");
            out.append(q[i].as_str());
        }
        proof {
            assert(line_at(views(p@), i as int) == (if i < p@.len() { Some(p@[i as int]@) } else { None }));
            assert(line_at(views(q@), i as int) == (if i < q@.len() { Some(q@[i as int]@) } else { None }));
        }
        i = i + 1;
    }
    out
}

// ---------------------------------------------------------------------------
// Summaries
// ---------------------------------------------------------------------------

/// The two sides `conflict resolve --use` chooses between.
#[derive(Debug, Clone, Copy, PartialEq, Eq, Structural)]
pub enum ResolveStrategy {
    Project,
    Internal,
}

/// The resolution a `--use` strategy stands for.
pub fn resolution_of(s: ResolveStrategy) -> (res: ConflictResolution)
    ensures
        res == match s {
            ResolveStrategy::Project => ConflictResolution::UseProject,
            ResolveStrategy::Internal => ConflictResolution::UseInternal,
        },
{
    match s {
        ResolveStrategy::Project => ConflictResolution::UseProject,
        ResolveStrategy::Internal => ConflictResolution::UseInternal,
    }
}

/// The sync state a resolution summary reports: an ignored conflict is
/// still a conflict, anything else is synced.
pub fn state_after_label(status: ConflictStatus) -> (res: &'static str)
    ensures
        res@ == (if status == ConflictStatus::Ignored { "conflict"@ } else { "synced"@ }),
{
    if status == ConflictStatus::Ignored {
        "conflict"
    } else {
        "synced"
    }
}

/// `id path status detected_at`, space-separated.
pub fn fmt_record(r: &ConflictRecord) -> (res: String)
    ensures
        res@ == r.id@ + " "@ + r.relative_path@ + " "@ + r.status.name() + " "@ + r.detected_at@,
{
    let mut out = r.id.clone();
    out.append(" ");
    out.append(r.relative_path.as_str());
    out.append(" ");
    out.append(r.status.as_str());
    out.append(" ");
    out.append(r.detected_at.as_str());
    out
}

/// The porcelain line of a listed conflict: id, path, status, detection
/// time and both hashes, tab-separated.
pub fn list_line(r: &ConflictRecord) -> (res: String)
    ensures
        res@ == r.id@ + "\t"@ + r.relative_path@ + "\t"@ + r.status.name() + "\t"@ + r.detected_at@ + "\t"@
            + r.project_hash@ + "\t"@ + r.internal_hash@,
{
    let mut out = r.id.clone();
    out.append("\t");
    out.append(r.relative_path.as_str());
    out.append("\t");
    out.append(r.status.as_str());
    out.append("\t");
    out.append(r.detected_at.as_str());
    out.append("\t");
    out.append(r.project_hash.as_str());
    out.append("\t");
    out.append(r.internal_hash.as_str());
    out
}

} // verus!

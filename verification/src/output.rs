//! Output modes and the porcelain line format.
//!
//! Every command prints in one of three modes. Porcelain output is one
//! record per line, its fields joined by tabs; an empty listing prints a
//! `# (empty)` comment line so scripts can tell it apart from no output.

use vstd::prelude::*;
use crate::text::{join, join_seq, owned, views};

verus! {

/// Output mode derived from CLI flags.
#[derive(Debug, Clone, Copy, PartialEq, Eq, Structural)]
pub enum OutputMode {
    /// Human-friendly text (the default).
    Human,
    /// Machine-readable, one record per line, no decoration.
    Porcelain,
    /// Structured JSON.
    Json,
}

impl OutputMode {
    /// Resolve the mode from CLI flags. `porcelain` wins over `json`.
    pub fn from_flags(json: bool, porcelain: bool) -> (res: Self)
        ensures
            res == (if porcelain {
                OutputMode::Porcelain
            } else if json {
                OutputMode::Json
            } else {
                OutputMode::Human
            }),
    {
        if porcelain {
            OutputMode::Porcelain
        } else if json {
            OutputMode::Json
        } else {
            OutputMode::Human
        }
    }
}

/// A record that prints as one porcelain line.
pub trait PorcelainRecord {
    /// The porcelain fields, in the canonical order.
    fn porcelain_fields(&self) -> Vec<String>;
}

/// The porcelain line of some fields: joined with a tab.
pub open spec fn tab_line(fields: Seq<Seq<char>>) -> Seq<char> {
    join_seq(fields, "\t"@)
}

/// Join porcelain fields with a tab.
pub fn tab_join(fields: &[String]) -> (res: String)
    ensures
        res@ == tab_line(views(fields@)),
{
    join(fields, "\t")
}

/// The lines a listing prints outside JSON mode; `None` in JSON mode,
/// where the records are serialised instead.
pub open spec fn listing_lines(
    mode: OutputMode,
    rows: Seq<Seq<Seq<char>>>,
    human_body: Seq<char>,
    empty_human_hint: Seq<char>,
) -> Option<Seq<Seq<char>>> {
    match mode {
        OutputMode::Json => None,
        OutputMode::Porcelain => if rows.len() == 0 {
            Some(seq!["# (empty)"@])
        } else {
            Some(rows.map_values(|r: Seq<Seq<char>>| tab_line(r)))
        },
        OutputMode::Human => if rows.len() == 0 {
            Some(seq![empty_human_hint])
        } else {
            Some(seq![human_body])
        },
    }
}

pub open spec fn rows_view(rows: Seq<Vec<String>>) -> Seq<Seq<Seq<char>>> {
    rows.map_values(|r: Vec<String>| views(r@))
}

/// The lines a listing of records (given by their porcelain fields) prints
/// in `mode`: one tab-joined line per record in porcelain mode, the human
/// body (or the hint, when there are none) in human mode.
pub fn listing(mode: OutputMode, rows: &[Vec<String>], human_body: &str, empty_human_hint: &str) -> (res: Option<Vec<String>>)
    ensures
        (match res {
            Some(v) => Some(views(v@)),
            None => None,
        }) == listing_lines(mode, rows_view(rows@), human_body@, empty_human_hint@),
{
    match mode {
        OutputMode::Json => None,
        OutputMode::Porcelain => {
            let mut out: Vec<String> = Vec::new();
            if rows.len() == 0 {
                out.push(owned("# (empty)"));
                assert(views(out@) =~= seq!["# (empty)"@]);
                return Some(out);
            }
            let mut i: usize = 0;
            while i < rows.len()
                invariant
                    i <= rows@.len(),
                    views(out@) =~= rows_view(rows@).take(i as int).map_values(
                        |r: Seq<Seq<char>>| tab_line(r),
                    ),
                decreases rows@.len() - i,
            {
                let line = tab_join(rows[i].as_slice());
                let ghost before = out@;
                out.push(line);
                proof {
                    assert(views(out@) =~= views(before).push(line@));
                    assert(rows_view(rows@)[i as int] == views(rows@[i as int]@));
                    assert(rows_view(rows@).take(i + 1) =~= rows_view(rows@).take(i as int).push(
                        rows_view(rows@)[i as int],
                    ));
                    assert(views(out@) =~= rows_view(rows@).take(i + 1).map_values(
                        |r: Seq<Seq<char>>| tab_line(r),
                    ));
                }
                i = i + 1;
            }
            proof {
                assert(rows_view(rows@).take(rows@.len() as int) =~= rows_view(rows@));
            }
            Some(out)
        },
        OutputMode::Human => {
            let mut out: Vec<String> = Vec::new();
            if rows.len() == 0 {
                out.push(owned(empty_human_hint));
            } else {
                out.push(owned(human_body));
            }
            assert(views(out@) =~= listing_lines(mode, rows_view(rows@), human_body@, empty_human_hint@)->0);
            Some(out)
        },
    }
}

/// Whether a success or informational line prints: in human mode only.
pub fn shows_human_notes(mode: OutputMode) -> (res: bool)
    ensures
        res == (mode == OutputMode::Human),
{
    mode == OutputMode::Human
}

} // verus!

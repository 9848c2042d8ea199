//! Locating the Kron project root from a starting directory.
//!
//! Like Git's repository discovery: the root is the nearest directory,
//! the start included, whose `kron-internal/config.json` exists and holds
//! valid JSON. `kron init` refuses to nest a project inside another, so it
//! looks at the strict ancestors only.

use vstd::prelude::*;
use crate::paths::{join, join_spec};
use crate::text::owned;

verus! {

/// Marker file that identifies a directory as a Kron project root.
pub const PROJECT_MARKER: &'static str = "kron-internal/config.json";

/// `<dir>/kron-internal/config.json`.
pub fn marker_path(dir: &str) -> (res: String)
    ensures
        res@ == join_spec(dir@, "kron-internal/config.json"@),
{
    join(dir, "kron-internal/config.json")
}

/// Whether `serde_json::from_str::<serde_json::Value>` accepts a text.
pub uninterp spec fn json_parses(s: Seq<char>) -> bool;

/// Wraps `serde_json::from_str::<serde_json::Value>(s).is_ok()`: whether
/// the text is one well-formed JSON value. Only its dependence on `s` is
/// stated.
#[verifier::external_body]
fn is_json(s: &str) -> (res: bool)
    ensures
        res == json_parses(s@),
{
    serde_json::from_str::<serde_json::Value>(s).is_ok()
}

/// A directory is a project root when its marker is a regular file
/// (`marker_is_file`) whose contents (`contents`, `None` when unreadable)
/// are valid JSON.
pub fn is_project_root(marker_is_file: bool, contents: Option<&str>) -> (res: bool)
    ensures
        res == (marker_is_file && (contents matches Some(c) && json_parses(c@))),
{
    if !marker_is_file {
        return false;
    }
    match contents {
        Some(c) => is_json(c),
        None => false,
    }
}

/// `Path::parent` of a path.
pub uninterp spec fn path_parent(p: Seq<char>) -> Option<Seq<char>>;

/// Wraps `Path::parent`: the path without its final component, if it has
/// one. Stated: the parent is shorter than the path (it drops a non-empty
/// final component).
#[verifier::external_body]
fn parent_of(p: &str) -> (res: Option<String>)
    ensures
        res matches Some(q) ==> q@.len() < p@.len(),
        match res {
            Some(q) => path_parent(p@) == Some(q@),
            None => path_parent(p@) is None,
        },
{
    std::path::Path::new(p).parent().map(|q| q.to_string_lossy().into_owned())
}

/// The directories searched from `start` upwards: `start`, its parent, its
/// parent's parent, ... up to the path without a parent.
pub open spec fn ancestors_spec(start: Seq<char>) -> Seq<Seq<char>>
    decreases start.len(),
{
    match path_parent(start) {
        Some(q) => if q.len() < start.len() {
            seq![start] + ancestors_spec(q)
        } else {
            seq![start]
        },
        None => seq![start],
    }
}

/// The search path from `start` upwards (`Path::ancestors`).
pub fn ancestors(start: &str) -> (res: Vec<String>)
    ensures
        crate::text::views(res@) == ancestors_spec(start@),
    decreases start@.len(),
{
    let mut out: Vec<String> = Vec::new();
    out.push(owned(start));
    match parent_of(start) {
        Some(q) => {
            let rest = ancestors(q.as_str());
            let mut i: usize = 0;
            while i < rest.len()
                invariant
                    i <= rest@.len(),
                    crate::text::views(out@) == seq![start@] + crate::text::views(rest@.take(i as int)),
                decreases rest@.len() - i,
            {
                let ghost before = out@;
                let x = rest[i].clone();
                out.push(x);
                assert(out@ == before.push(rest@[i as int]));
                assert(rest@.take(i + 1) =~= rest@.take(i as int).push(rest@[i as int]));
                assert(crate::text::views(out@) =~= crate::text::views(before).push(rest@[i as int]@));
                assert(crate::text::views(rest@.take(i + 1)) =~= crate::text::views(rest@.take(i as int)).push(rest@[i as int]@));
                assert(crate::text::views(out@) =~= seq![start@] + crate::text::views(rest@.take(i + 1)));
                i = i + 1;
            }
            assert(rest@.take(rest@.len() as int) =~= rest@);
        },
        None => {
            assert(crate::text::views(out@) =~= seq![start@]);
        },
    }
    out
}

/// One searched directory and whether it is a project root.
#[derive(Debug, Clone, PartialEq)]
pub struct RootCandidate {
    pub dir: String,
    pub is_root: bool,
}

/// `k` is the first root among the candidates from position `from` on.
pub open spec fn first_root_from(c: Seq<RootCandidate>, from: int, k: int) -> bool {
    from <= k < c.len() && c[k].is_root && forall|j: int| from <= j < k ==> !c[j].is_root
}

/// The directory of the first root among the candidates from position
/// `from` on, if any.
pub open spec fn nearest_root(c: Seq<RootCandidate>, from: int) -> Option<String>
    decreases c.len() - from,
{
    if from < 0 || from >= c.len() {
        None
    } else if c[from].is_root {
        Some(c[from].dir)
    } else {
        nearest_root(c, from + 1)
    }
}

fn first_root(candidates: &[RootCandidate], from: usize) -> (res: Option<String>)
    ensures
        res == nearest_root(candidates@, from as int),
        res matches Some(d) ==> exists|k: int|
            first_root_from(candidates@, from as int, k) && d == candidates@[k].dir,
        res is None ==> forall|k: int| from <= k < candidates@.len() ==> !candidates@[k].is_root,
{
    let mut i: usize = from;
    while i < candidates.len()
        invariant
            from <= i || from >= candidates@.len(),
            i >= from,
            forall|k: int| from <= k < i ==> !candidates@[k].is_root,
            nearest_root(candidates@, from as int) == nearest_root(candidates@, i as int),
        decreases candidates@.len() - i,
    {
        if candidates[i].is_root {
            assert(first_root_from(candidates@, from as int, i as int));
            return Some(candidates[i].dir.clone());
        }
        i = i + 1;
    }
    None
}

/// The nearest project root along the search path (`candidates` are the
/// directories of `ancestors(start)` in order, marked by
/// `is_project_root`), the start itself included.
pub fn find_project_root(candidates: &[RootCandidate]) -> (res: Option<String>)
    ensures
        res == nearest_root(candidates@, 0),
        res matches Some(d) ==> exists|k: int| first_root_from(candidates@, 0, k) && d
            == candidates@[k].dir,
        res is None ==> forall|k: int| 0 <= k < candidates@.len() ==> !candidates@[k].is_root,
{
    first_root(candidates, 0)
}

/// The nearest project root strictly above the start (the first candidate
/// is the start and is skipped). Used by `kron init` to refuse nesting.
pub fn find_ancestor_project(candidates: &[RootCandidate]) -> (res: Option<String>)
    ensures
        res == nearest_root(candidates@, 1),
        res matches Some(d) ==> exists|k: int| first_root_from(candidates@, 1, k) && d
            == candidates@[k].dir,
        res is None ==> forall|k: int| 1 <= k < candidates@.len() ==> !candidates@[k].is_root,
{
    first_root(candidates, 1)
}

/// Every directory on the search path above the start is strictly shorter
/// than the start, so the ancestor search never reports the start itself.
pub proof fn lemma_ancestors_shrink(start: Seq<char>, k: int)
    requires
        0 < k < ancestors_spec(start).len(),
    ensures
        ancestors_spec(start)[k].len() < start.len(),
        ancestors_spec(start)[0] == start,
    decreases start.len(),
{
    match path_parent(start) {
        Some(q) => {
            if q.len() < start.len() {
                if k > 1 {
                    lemma_ancestors_shrink(q, k - 1);
                } else {
                    lemma_ancestors_head(q);
                }
            }
        },
        None => {},
    }
}

proof fn lemma_ancestors_head(start: Seq<char>)
    ensures
        ancestors_spec(start).len() >= 1,
        ancestors_spec(start)[0] == start,
{
    match path_parent(start) {
        Some(q) => {},
        None => {},
    }
}

proof fn lemma_nearest_root_shift(c: Seq<RootCandidate>, from: int)
    requires
        c.len() >= 1,
        0 <= from,
    ensures
        nearest_root(c, from + 1) == nearest_root(c.skip(1), from),
    decreases c.len() - from,
{
    if from + 1 < c.len() {
        assert(c.skip(1)[from] == c[from + 1]);
        lemma_nearest_root_shift(c, from + 1);
    }
}

/// The ancestor search is the root search started one directory up: over
/// the candidates of `start` it gives what the root search gives over the
/// candidates without the first (those of the parent of `start`, see
/// `lemma_ancestors_of_parent`).
pub proof fn lemma_ancestor_search_skips_start(c: Seq<RootCandidate>)
    requires
        c.len() >= 1,
    ensures
        nearest_root(c, 1) == nearest_root(c.skip(1), 0),
{
    lemma_nearest_root_shift(c, 0);
}

/// The search path above `start` is the search path of its parent.
pub proof fn lemma_ancestors_of_parent(start: Seq<char>)
    ensures
        ancestors_spec(start).skip(1) == match path_parent(start) {
            Some(q) => if q.len() < start.len() {
                ancestors_spec(q)
            } else {
                Seq::empty()
            },
            None => Seq::empty(),
        },
{
    match path_parent(start) {
        Some(q) => {
            if q.len() < start.len() {
                assert((seq![start] + ancestors_spec(q)).skip(1) =~= ancestors_spec(q));
            } else {
                assert(seq![start].skip(1) =~= Seq::<Seq<char>>::empty());
            }
        },
        None => {
            assert(seq![start].skip(1) =~= Seq::<Seq<char>>::empty());
        },
    }
}

} // verus!

//! `kron context`: which documents a generation pass rebuilds.

use vstd::prelude::*;
use crate::domain::context::{first_of_type, has_type, DocMeta, DocType};
use crate::text::chars_of;

verus! {

/// Whether `pattern` from position `i` on matches the whole of `path`
/// from position `j` on: a `*` matches any run of characters other than
/// `/` (possibly none), every other character matches itself.
pub open spec fn glob_from_spec(pattern: Seq<char>, path: Seq<char>, i: int, j: int) -> bool
    decreases pattern.len() - i, path.len() - j,
{
    if i < 0 || j < 0 || i >= pattern.len() {
        j == path.len()
    } else if pattern[i] == '*' {
        glob_from_spec(pattern, path, i + 1, j) || (j < path.len() && path[j] != '/'
            && glob_from_spec(pattern, path, i, j + 1))
    } else {
        j < path.len() && path[j] == pattern[i] && glob_from_spec(pattern, path, i + 1, j + 1)
    }
}

/// The `--only` glob: the pattern `*` alone selects everything; otherwise
/// the pattern must match the whole path, a `*` standing for any run of
/// characters up to the next `/`.
pub open spec fn glob_spec(pattern: Seq<char>, path: Seq<char>) -> bool {
    pattern == "*"@ || glob_from_spec(pattern, path, 0, 0)
}

fn glob_from(pattern: &[char], path: &[char], i: usize, j: usize) -> (res: bool)
    requires
        i <= pattern@.len(),
        j <= path@.len(),
    ensures
        res == glob_from_spec(pattern@, path@, i as int, j as int),
    decreases pattern@.len() - i, path@.len() - j,
{
    if i == pattern.len() {
        return j == path.len();
    }
    if pattern[i] == '*' {
        if glob_from(pattern, path, i + 1, j) {
            return true;
        }
        return j < path.len() && path[j] != '/' && glob_from(pattern, path, i, j + 1);
    }
    j < path.len() && path[j] == pattern[i] && glob_from(pattern, path, i + 1, j + 1)
}

/// Glob matching of a document path against `--only`.
pub fn glob_match(pattern: &str, path: &str) -> (res: bool)
    ensures
        res == glob_spec(pattern@, path@),
{
    if crate::text::str_eq(pattern, "*") {
        return true;
    }
    let p = chars_of(pattern);
    let s = chars_of(path);
    glob_from(p.as_slice(), s.as_slice(), 0, 0)
}

pub open spec fn opt_view(o: Option<&str>) -> Option<Seq<char>> {
    match o {
        Some(s) => Some(s@),
        None => None,
    }
}

/// A kind passes `--only` (every kind does without a pattern).
pub open spec fn selected_by(only: Option<Seq<char>>, t: DocType) -> bool {
    match only {
        None => true,
        Some(pat) => glob_spec(pat, t.path_spec()),
    }
}

/// A kind is due for an incremental pass: forced, stale (or unknown to
/// the registry), or with its file missing.
pub open spec fn due(docs: Seq<DocMeta>, t: DocType, present: bool, force: bool) -> bool {
    force || !present || !has_type(docs, t) || docs[choose|k: int| first_of_type(docs, t, k)].stale_reason is Some
}

/// Among the first `n` kinds (in `DocType::all` order), those passing
/// `--only` and, when `incremental`, due; `present[i]` tells whether the
/// file of kind `i` exists.
pub open spec fn picked(
    docs: Seq<DocMeta>,
    only: Option<Seq<char>>,
    present: Seq<bool>,
    force: bool,
    incremental: bool,
    n: nat,
) -> Seq<DocType>
    decreases n,
{
    if n == 0 {
        Seq::empty()
    } else {
        let rest = picked(docs, only, present, force, incremental, (n - 1) as nat);
        let t = DocType::all_spec()[n - 1];
        if selected_by(only, t) && (!incremental || due(docs, t, present[n - 1], force)) {
            rest.push(t)
        } else {
            rest
        }
    }
}

/// The kinds a generation pass rebuilds: with `incremental`, those passing
/// `--only` that are due; otherwise all those passing `--only`.
pub fn kinds_to_generate(
    docs: &Vec<DocMeta>,
    only: Option<&str>,
    present: &[bool],
    force: bool,
    incremental: bool,
) -> (res: Vec<DocType>)
    requires
        present@.len() == 4,
    ensures
        res@ == picked(docs@, opt_view(only), present@, force, incremental, 4),
{
    let kinds = DocType::all();
    let mut out: Vec<DocType> = Vec::new();
    let mut i: usize = 0;
    while i < 4
        invariant
            i <= 4,
            present@.len() == 4,
            kinds@ == DocType::all_spec(),
            out@ == picked(docs@, opt_view(only), present@, force, incremental, i as nat),
        decreases 4 - i,
    {
        let t = kinds[i];
        let sel = match only {
            None => true,
            Some(pat) => glob_match(pat, t.path()),
        };
        let stale_or_unknown = match position_stale(docs, t) {
            None => true,
            Some(stale) => stale,
        };
        let keep = sel && (!incremental || force || !present[i] || stale_or_unknown);
        proof {
            assert(t == DocType::all_spec()[i as int]);
            assert(sel == selected_by(opt_view(only), t));
            assert(keep == (selected_by(opt_view(only), t) && (!incremental || due(docs@, t, present@[i as int], force))));
        }
        if keep {
            out.push(t);
        }
        i = i + 1;
    }
    out
}

/// Whether the first document of kind `t` is stale (`None` when the
/// registry has none).
fn position_stale(docs: &Vec<DocMeta>, t: DocType) -> (res: Option<bool>)
    ensures
        match res {
            None => !has_type(docs@, t),
            Some(b) => has_type(docs@, t) && b == (docs@[choose|k: int| first_of_type(docs@, t, k)].stale_reason is Some),
        },
{
    let mut i: usize = 0;
    while i < docs.len()
        invariant
            i <= docs@.len(),
            forall|j: int| 0 <= j < i ==> docs@[j].doc_type != t,
        decreases docs@.len() - i,
    {
        if docs[i].doc_type == t {
            proof {
                assert(first_of_type(docs@, t, i as int));
                let k = choose|k: int| first_of_type(docs@, t, k);
                if k < i {
                    assert(docs@[k].doc_type != t);
                } else if k > i {
                    assert(docs@[i as int].doc_type != t);
                }
            }
            return Some(docs[i].stale_reason.is_some());
        }
        i = i + 1;
    }
    None
}

} // verus!

//! Path strings with the semantics of `std::path` on Unix.
//!
//! Paths are carried as `String`s; `join` is `Path::join` and `file_name`
//! is `Path::file_name` for `/`-separated paths.

use vstd::prelude::*;
use crate::text::{chars_of, owned, push_char, string_of_range};

verus! {

/// `Path::join` (that is, `PathBuf::push`): an absolute `part` replaces
/// `base`; otherwise a `/` is inserted unless `base` is empty or already
/// ends with one.
pub open spec fn join_spec(base: Seq<char>, part: Seq<char>) -> Seq<char> {
    if part.len() > 0 && part[0] == '/' {
        part
    } else if base.len() > 0 && base.last() != '/' {
        base + seq!['/'] + part
    } else {
        base + part
    }
}

pub fn join(base: &str, part: &str) -> (res: String)
    ensures
        res@ == join_spec(base@, part@),
{
    let b = chars_of(base);
    let p = chars_of(part);
    if p.len() > 0 && p[0] == '/' {
        return owned(part);
    }
    let mut out = owned(base);
    if b.len() > 0 && b[b.len() - 1] != '/' {
        push_char(&mut out, '/');
    }
    out.append(part);
    out
}

/// Join three pieces: `join(join(a, b), c)`.
pub fn join3(a: &str, b: &str, c: &str) -> (res: String)
    ensures
        res@ == join_spec(join_spec(a@, b@), c@),
{
    let ab = join(a, b);
    join(ab.as_str(), c)
}

/// Join four pieces.
pub fn join4(a: &str, b: &str, c: &str, d: &str) -> (res: String)
    ensures
        res@ == join_spec(join_spec(join_spec(a@, b@), c@), d@),
{
    let abc = join3(a, b, c);
    join(abc.as_str(), d)
}

/// Index of the last `/` in `s`, or -1.
pub open spec fn last_slash(s: Seq<char>) -> int
    decreases s.len(),
{
    if s.len() == 0 {
        -1
    } else if s.last() == '/' {
        s.len() - 1
    } else {
        last_slash(s.drop_last())
    }
}

/// The characters after the last `/`.
pub open spec fn tail_segment(s: Seq<char>) -> Seq<char> {
    s.subrange(last_slash(s) + 1, s.len() as int)
}

/// The last component of a path, skipping trailing `/` and `.` segments.
pub open spec fn last_component(s: Seq<char>) -> Seq<char>
    decreases s.len(),
{
    if s.len() == 0 {
        s
    } else if s.last() == '/' {
        last_component(s.drop_last())
    } else if tail_segment(s) == seq!['.'] && s.len() > 1 {
        last_component(s.drop_last())
    } else {
        tail_segment(s)
    }
}

/// `Path::file_name`: the last normal component, if there is one.
pub open spec fn file_name_spec(s: Seq<char>) -> Option<Seq<char>> {
    let c = last_component(s);
    if c.len() == 0 || c == seq!['.'] || c == seq!['.', '.'] {
        None
    } else {
        Some(c)
    }
}

proof fn lemma_last_slash(s: Seq<char>)
    ensures
        -1 <= last_slash(s) < s.len(),
        last_slash(s) >= 0 ==> s[last_slash(s)] == '/',
        forall|k: int| last_slash(s) < k < s.len() ==> s[k] != '/',
    decreases s.len(),
{
    if s.len() > 0 && s.last() != '/' {
        let t = s.drop_last();
        lemma_last_slash(t);
        assert forall|k: int| last_slash(s) < k < s.len() implies s[k] != '/' by {
            if k < s.len() - 1 {
                assert(s[k] == t[k]);
            }
        }
    }
}

proof fn lemma_last_slash_is(s: Seq<char>, k: int)
    requires
        -1 <= k < s.len(),
        k >= 0 ==> s[k] == '/',
        forall|j: int| k < j < s.len() ==> s[j] != '/',
    ensures
        last_slash(s) == k,
    decreases s.len(),
{
    if s.len() > 0 && s.last() != '/' {
        lemma_last_slash_is(s.drop_last(), k);
    }
}

/// Position just past the last `/` within `cs[0..end]`.
fn segment_start(cs: &[char], end: usize) -> (res: usize)
    requires
        end <= cs@.len(),
    ensures
        res == last_slash(cs@.take(end as int)) + 1,
{
    let mut k: usize = end;
    while k > 0 && cs[k - 1] != '/'
        invariant
            k <= end <= cs@.len(),
            forall|j: int| k <= j < end ==> cs@[j] != '/',
        decreases k,
    {
        k = k - 1;
    }
    proof {
        let t = cs@.take(end as int);
        lemma_last_slash_is(t, k - 1);
    }
    k
}

/// The last component of `cs[0..end]`, as bounds.
fn last_component_bounds(cs: &[char], end: usize) -> (res: (usize, usize))
    requires
        end <= cs@.len(),
    ensures
        res.0 <= res.1 <= end,
        cs@.subrange(res.0 as int, res.1 as int) == last_component(cs@.take(end as int)),
    decreases end,
{
    if end == 0 {
        assert(cs@.subrange(0, 0) =~= cs@.take(0));
        return (0, 0);
    }
    let ghost t = cs@.take(end as int);
    if cs[end - 1] == '/' {
        assert(t.drop_last() =~= cs@.take(end - 1));
        return last_component_bounds(cs, end - 1);
    }
    let start = segment_start(cs, end);
    proof {
        lemma_last_slash(t);
        assert(tail_segment(t) =~= cs@.subrange(start as int, end as int));
    }
    if end - start == 1 && cs[start] == '.' && end > 1 {
        assert(tail_segment(t) =~= seq!['.']);
        assert(t.drop_last() =~= cs@.take(end - 1));
        return last_component_bounds(cs, end - 1);
    }
    proof {
        if tail_segment(t) == seq!['.'] {
            assert(tail_segment(t).len() == 1);
            assert(tail_segment(t)[0] == cs@[start as int]);
        }
    }
    (start, end)
}

/// `Path::file_name`, as an owned string.
pub fn file_name(path: &str) -> (res: Option<String>)
    ensures
        res matches Some(s) ==> file_name_spec(path@) == Some(s@),
        res is None ==> file_name_spec(path@) is None,
{
    let cs = chars_of(path);
    let (a, b) = last_component_bounds(cs.as_slice(), cs.len());
    assert(cs@.take(cs@.len() as int) =~= path@);
    let comp = string_of_range(cs.as_slice(), a, b);
    let n = b - a;
    if n == 0 {
        return None;
    }
    if n == 1 && cs[a] == '.' {
        assert(comp@ =~= seq!['.']);
        return None;
    }
    if n == 2 && cs[a] == '.' && cs[a + 1] == '.' {
        assert(comp@ =~= seq!['.', '.']);
        return None;
    }
    proof {
        assert(comp@.len() == n);
        if comp@ == seq!['.'] {
            assert(comp@[0] == cs@[a as int]);
        }
        if comp@ == seq!['.', '.'] {
            assert(comp@[0] == cs@[a as int]);
            assert(comp@[1] == cs@[a + 1]);
        }
    }
    Some(comp)
}

/// Index of the last `.` in `s`, or -1.
pub open spec fn last_dot(s: Seq<char>) -> int
    decreases s.len(),
{
    if s.len() == 0 {
        -1
    } else if s.last() == '.' {
        s.len() - 1
    } else {
        last_dot(s.drop_last())
    }
}

/// The stem of a file name (`Path::file_stem` once the name is known): the
/// part before the last `.`, unless there is no `.` or it is the first
/// character.
pub open spec fn stem_of_name(n: Seq<char>) -> Seq<char> {
    if last_dot(n) <= 0 {
        n
    } else {
        n.take(last_dot(n))
    }
}

/// `Path::file_stem`.
pub open spec fn file_stem_spec(p: Seq<char>) -> Option<Seq<char>> {
    match file_name_spec(p) {
        Some(n) => Some(stem_of_name(n)),
        None => None,
    }
}

proof fn lemma_last_dot_is(s: Seq<char>, k: int)
    requires
        -1 <= k < s.len(),
        k >= 0 ==> s[k] == '.',
        forall|j: int| k < j < s.len() ==> s[j] != '.',
    ensures
        last_dot(s) == k,
    decreases s.len(),
{
    if s.len() > 0 && s.last() != '.' {
        lemma_last_dot_is(s.drop_last(), k);
    }
}

/// `Path::file_stem`, as an owned string.
pub fn file_stem(path: &str) -> (res: Option<String>)
    ensures
        res matches Some(s) ==> file_stem_spec(path@) == Some(s@),
        res is None ==> file_stem_spec(path@) is None,
{
    match file_name(path) {
        None => None,
        Some(name) => {
            let cs = chars_of(name.as_str());
            let mut k: usize = cs.len();
            while k > 0 && cs[k - 1] != '.'
                invariant
                    k <= cs@.len(),
                    forall|j: int| k <= j < cs@.len() ==> cs@[j] != '.',
                decreases k,
            {
                k = k - 1;
            }
            proof {
                lemma_last_dot_is(cs@, k - 1);
            }
            if k <= 1 {
                Some(name)
            } else {
                Some(string_of_range(cs.as_slice(), 0, k - 1))
            }
        },
    }
}

} // verus!

//! The walk that collects the entries of `code/structure.md`: which
//! directories are entered, in which order a directory's children are
//! listed, which are left out and where the listing stops.

use vstd::prelude::*;
use crate::domain::context::code_structure::{should_skip, skipped_name};
use crate::text::{lex_le, lex_le_exec, owned, str_eq};

verus! {

/// The most entries the structure document lists.
pub const MAX_ENTRIES: usize = 10000;

/// One child of a directory, as read from the file system.
#[derive(Debug, Clone)]
pub struct DirChild {
    pub name: String,
    pub is_dir: bool,
}

/// What `str::to_lowercase` gives for a text.
pub uninterp spec fn lowercase_spec(s: Seq<char>) -> Seq<char>;

/// Wraps `str::to_lowercase` (full Unicode lower-casing). Only the
/// dependence on `s` is stated.
#[verifier::external_body]
fn lowercase(s: &str) -> (res: String)
    ensures
        res@ == lowercase_spec(s@),
{
    s.to_lowercase()
}

/// `a` is listed before `b`: directories before files, then by the
/// lower-cased name (compared character by character).
pub open spec fn child_before(a: DirChild, b: DirChild) -> bool {
    ||| (a.is_dir && !b.is_dir)
    ||| (a.is_dir == b.is_dir && lex_le(lowercase_spec(a.name@), lowercase_spec(b.name@))
        && lowercase_spec(a.name@) != lowercase_spec(b.name@))
}

/// `x` inserted into `s` before the first child it is listed before.
pub open spec fn insert_child(x: DirChild, s: Seq<DirChild>) -> Seq<DirChild>
    decreases s.len(),
{
    if s.len() == 0 {
        seq![x]
    } else if child_before(x, s[0]) {
        seq![x] + s
    } else {
        seq![s[0]] + insert_child(x, s.drop_first())
    }
}

/// The children in listing order: a stable sort by `child_before`
/// (children that compare equal keep their order).
pub open spec fn sort_children(s: Seq<DirChild>) -> Seq<DirChild>
    decreases s.len(),
{
    if s.len() == 0 {
        s
    } else {
        insert_child(s.last(), sort_children(s.drop_last()))
    }
}

proof fn lemma_insert_child_at(x: DirChild, s: Seq<DirChild>, i: int)
    requires
        0 <= i <= s.len(),
        forall|k: int| 0 <= k < i ==> !child_before(x, #[trigger] s[k]),
        i == s.len() || child_before(x, s[i]),
    ensures
        insert_child(x, s) == s.take(i) + seq![x] + s.skip(i),
    decreases i,
{
    if i == 0 {
        assert(s.skip(0) =~= s);
        assert(s.take(0) + seq![x] + s.skip(0) =~= seq![x] + s);
    } else {
        let t = s.drop_first();
        assert forall|k: int| 0 <= k < i - 1 implies !child_before(x, #[trigger] t[k]) by {
            assert(t[k] == s[k + 1]);
        }
        if i < s.len() {
            assert(t[i - 1] == s[i]);
        }
        lemma_insert_child_at(x, t, i - 1);
        assert(s.take(i) + seq![x] + s.skip(i) =~= seq![s[0]] + (t.take(i - 1) + seq![x] + t.skip(i - 1)));
    }
}

fn child_before_exec(a: &DirChild, b: &DirChild) -> (res: bool)
    ensures
        res == child_before(*a, *b),
{
    if a.is_dir != b.is_dir {
        return a.is_dir;
    }
    let la = lowercase(a.name.as_str());
    let lb = lowercase(b.name.as_str());
    lex_le_exec(la.as_str(), lb.as_str()) && !str_eq(la.as_str(), lb.as_str())
}

/// A directory's children in listing order.
pub fn order_children(children: Vec<DirChild>) -> (res: Vec<DirChild>)
    ensures
        res@ == sort_children(children@),
{
    let ghost all = children@;
    let total = children.len();
    assert(all.len() == total);
    let mut rest = children;
    let mut out: Vec<DirChild> = Vec::new();
    let mut n: usize = 0;
    assert(all.take(0) =~= Seq::<DirChild>::empty());
    assert(all.skip(0) =~= all);
    while rest.len() > 0
        invariant
            n <= all.len(),
            rest@ == all.skip(n as int),
            rest@.len() == all.len() - n,
            all.len() <= usize::MAX,
            out@ == sort_children(all.take(n as int)),
        decreases rest@.len(),
    {
        let x = rest.remove(0);
        assert(x == all[n as int]);
        let mut i: usize = 0;
        while i < out.len() && !child_before_exec(&x, &out[i])
            invariant
                i <= out@.len(),
                forall|k: int| 0 <= k < i ==> !child_before(x, #[trigger] out@[k]),
            decreases out@.len() - i,
        {
            i = i + 1;
        }
        proof {
            lemma_insert_child_at(x, out@, i as int);
            assert(all.take(n + 1).drop_last() =~= all.take(n as int));
            assert(all.skip(n + 1) =~= all.skip(n as int).drop_first());
        }
        out.insert(i, x);
        assert(out@ =~= sort_children(all.take(n as int)).take(i as int) + seq![x] + sort_children(all.take(n as int)).skip(i as int));
        n = n + 1;
    }
    assert(n == all.len());
    assert(all.take(all.len() as int) =~= all);
    out
}

/// Whether the walk enters a directory at `depth` after `count` entries:
/// not once the listing is full, and not below the depth limit.
pub fn walk_enters(count: usize, depth: u32, max_depth: u32) -> (res: bool)
    ensures
        res == (count < MAX_ENTRIES && depth <= max_depth),
{
    count < MAX_ENTRIES && depth <= max_depth
}

/// What the walk does with one child.
#[derive(Debug, Clone, Copy, PartialEq, Eq, Structural)]
pub enum ChildStep {
    /// Left out (a skipped name); the count stays.
    Skip,
    /// The listing is full: stop listing this directory.
    Stop,
    /// Listed; the count becomes `count + 1`.
    Take,
}

/// The step for a child named `name` after `count` listed entries.
pub fn child_step(name: &str, count: usize) -> (res: ChildStep)
    ensures
        skipped_name(name@) ==> res == ChildStep::Skip,
        !skipped_name(name@) && count >= MAX_ENTRIES ==> res == ChildStep::Stop,
        !skipped_name(name@) && count < MAX_ENTRIES ==> res == ChildStep::Take,
{
    if should_skip(name) {
        ChildStep::Skip
    } else if count >= MAX_ENTRIES {
        ChildStep::Stop
    } else {
        ChildStep::Take
    }
}

/// The path of a child relative to the project root: its name under the
/// parent's relative path (the name alone at the top).
pub fn child_rel_path(prefix: &str, name: &str) -> (res: String)
    ensures
        res@ == if prefix@.len() == 0 {
            name@
        } else {
            prefix@ + "/"@ + name@
        },
{
    if prefix.unicode_len() == 0 {
        return owned(name);
    }
    let mut out = owned(prefix);
    out.append("/");
    out.append(name);
    out
}

} // verus!

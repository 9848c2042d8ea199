//! `git/branch-summary.md`: the current branch against the main branch.

use vstd::prelude::*;
use crate::domain::context::{strip_eol, strip_eol_exec};
use crate::text::{
    chars_of, decimal_str, fmt_usize, join, join_seq, lines_of, owned, split_lines_inclusive, string_of_range,
    trim, trim_bounds, views,
};

verus! {

/// The candidates tried, in order, as the main branch on `origin`.
pub open spec fn main_candidates() -> Seq<Seq<char>> {
    seq!["main"@, "master"@, "develop"@, "trunk"@]
}

pub fn main_candidate_names() -> (res: Vec<&'static str>)
    ensures
        res@.map_values(|s: &'static str| s@) == main_candidates(),
{
    let v = vec!["main", "master", "develop", "trunk"];
    assert(v@.map_values(|s: &'static str| s@) =~= main_candidates());
    v
}

/// The non-blank lines of a `git log --format='%h %s'` output, trimmed.
pub open spec fn summary_lines(lines: Seq<Seq<char>>) -> Seq<Seq<char>>
    decreases lines.len(),
{
    if lines.len() == 0 {
        Seq::empty()
    } else {
        let rest = summary_lines(lines.drop_last());
        let l = trim(lines.last());
        if l.len() == 0 {
            rest
        } else {
            rest.push(l)
        }
    }
}

fn trimmed_string(text: &str) -> (res: String)
    ensures
        res@ == trim(text@),
{
    let cs = chars_of(text);
    let (a, b) = trim_bounds(cs.as_slice());
    string_of_range(cs.as_slice(), a, b)
}

/// The commits of a log, one trimmed line each.
pub fn summarize(stdout: &str) -> (res: Vec<String>)
    ensures
        views(res@) == summary_lines(lines_of(stdout@)),
{
    let lines = split_lines_inclusive(stdout);
    let mut out: Vec<String> = Vec::new();
    let mut i: usize = 0;
    while i < lines.len()
        invariant
            i <= lines@.len(),
            views(out@) == summary_lines(views(lines@).take(i as int)),
        decreases lines@.len() - i,
    {
        proof {
            assert(views(lines@).take(i + 1).drop_last() =~= views(lines@).take(i as int));
            assert(views(lines@).take(i + 1).last() == lines@[i as int]@);
        }
        let l = trimmed_string(lines[i].as_str());
        if chars_of(l.as_str()).len() > 0 {
            let ghost before = views(out@);
            out.push(l);
            assert(views(out@) =~= before.push(l@));
        }
        i = i + 1;
    }
    assert(views(lines@).take(lines@.len() as int) =~= views(lines@));
    out
}

/// The current branch as shown: the trimmed output of
/// `git branch --show-current`, or, on a detached HEAD (blank output),
/// `(detached HEAD at <sha>)` with the trimmed `git rev-parse --short HEAD`.
pub open spec fn branch_label_spec(branch_out: Seq<char>, sha_out: Seq<char>) -> Seq<char> {
    if trim(branch_out).len() == 0 {
        "(detached HEAD at "@ + trim(sha_out) + ")"@
    } else {
        trim(branch_out)
    }
}

pub fn branch_label(branch_out: &str, sha_out: &str) -> (res: String)
    ensures
        res@ == branch_label_spec(branch_out@, sha_out@),
{
    let b = trimmed_string(branch_out);
    if chars_of(b.as_str()).len() == 0 {
        let mut out = owned("(detached HEAD at ");
        let s = trimmed_string(sha_out);
        out.append(s.as_str());
        out.append(")");
        out
    } else {
        b
    }
}

/// The main branch when no `origin` candidate exists: the first local
/// branch listed, trimmed, or `main`.
pub open spec fn first_branch_spec(stdout: Seq<char>) -> Seq<char> {
    let lines = lines_of(stdout);
    if lines.len() == 0 || trim(strip_eol(lines[0])).len() == 0 {
        "main"@
    } else {
        trim(strip_eol(lines[0]))
    }
}

pub fn first_branch(stdout: &str) -> (res: String)
    ensures
        res@ == first_branch_spec(stdout@),
{
    let lines = split_lines_inclusive(stdout);
    if lines.len() == 0 {
        return owned("main");
    }
    assert(lines_of(stdout@)[0] == lines@[0]@);
    let cs = chars_of(lines[0].as_str());
    let (_, e) = strip_eol_exec(cs.as_slice());
    let (a, b) = trim_bounds(&cs.as_slice()[0..e]);
    assert(cs@.subrange(0, e as int) =~= cs@.take(e as int));
    let t = string_of_range(cs.as_slice(), a, b);
    assert(cs@.subrange(a as int, b as int) =~= cs@.take(e as int).subrange(a as int, b as int));
    if chars_of(t.as_str()).len() == 0 {
        owned("main")
    } else {
        t
    }
}

/// One section of the summary: its heading and the commits, or `(none)`.
pub open spec fn section(title: Seq<char>, items: Seq<Seq<char>>) -> Seq<Seq<char>> {
    if items.len() == 0 {
        seq![title + " (0)"@, "(none)"@]
    } else {
        seq![title + " ("@ + decimal_str(items.len()) + ")"@] + items.map_values(|it: Seq<char>| "- "@ + it)
    }
}

/// The whole `git/branch-summary.md` document.
pub open spec fn branch_doc(
    header: Seq<char>,
    current: Seq<char>,
    main: Seq<char>,
    ahead: Seq<Seq<char>>,
    behind: Seq<Seq<char>>,
) -> Seq<char> {
    join_seq(
        seq![
            header,
            "# Branch Summary"@,
            Seq::empty(),
            "**Current branch**: `"@ + current + "`"@,
            "**Main branch**: `"@ + main + "`"@,
            "**Ahead**: "@ + decimal_str(ahead.len()) + " commit(s)"@,
            "**Behind**: "@ + decimal_str(behind.len()) + " commit(s)"@,
            Seq::empty(),
        ] + section("## Ahead"@, ahead) + seq![Seq::<char>::empty()] + section("## Behind"@, behind)
            + seq![Seq::<char>::empty()],
        "\n"@,
    )
}

fn push_section(lines: &mut Vec<String>, title: &str, items: &[String])
    ensures
        views(final(lines)@) == views(old(lines)@) + section(title@, views(items@)),
{
    let ghost start = views(lines@);
    if items.len() == 0 {
        let mut h = owned(title);
        h.append(" (0)");
        lines.push(h);
        lines.push(owned("(none)"));
        assert(views(lines@) =~= start + section(title@, views(items@)));
        return;
    }
    let mut h = owned(title);
    h.append(" (");
    let n = fmt_usize(items.len());
    h.append(n.as_str());
    h.append(")");
    lines.push(h);
    let ghost head = views(lines@);
    let mut i: usize = 0;
    while i < items.len()
        invariant
            i <= items@.len(),
            views(lines@) == head + views(items@).take(i as int).map_values(|it: Seq<char>| "- "@ + it),
        decreases items@.len() - i,
    {
        let mut l = owned("- ");
        l.append(items[i].as_str());
        let ghost before = views(lines@);
        lines.push(l);
        proof {
            assert(views(lines@) =~= before.push(l@));
            assert(views(items@).take(i + 1).map_values(|it: Seq<char>| "- "@ + it) =~= views(items@).take(
                i as int,
            ).map_values(|it: Seq<char>| "- "@ + it).push("- "@ + items@[i as int]@));
        }
        i = i + 1;
    }
    assert(views(items@).take(items@.len() as int) =~= views(items@));
    assert(views(lines@) =~= start + section(title@, views(items@)));
}

/// Render `git/branch-summary.md`.
pub fn render_branch(header: &str, current: &str, main: &str, ahead: &[String], behind: &[String]) -> (res: String)
    ensures
        res@ == branch_doc(header@, current@, main@, views(ahead@), views(behind@)),
{
    let mut cur = owned("**Current branch**: `");
    cur.append(current);
    cur.append("`");
    let mut mn = owned("**Main branch**: `");
    mn.append(main);
    mn.append("`");
    let mut ah = owned("**Ahead**: ");
    let a = fmt_usize(ahead.len());
    ah.append(a.as_str());
    ah.append(" commit(s)");
    let mut bh = owned("**Behind**: ");
    let b = fmt_usize(behind.len());
    bh.append(b.as_str());
    bh.append(" commit(s)");
    let mut lines: Vec<String> = vec![
        owned(header),
        owned("# Branch Summary"),
        String::new(),
        cur,
        mn,
        ah,
        bh,
        String::new(),
    ];
    let ghost head = seq![
        header@,
        "# Branch Summary"@,
        Seq::<char>::empty(),
        "**Current branch**: `"@ + current@ + "`"@,
        "**Main branch**: `"@ + main@ + "`"@,
        "**Ahead**: "@ + decimal_str(ahead@.len() as nat) + " commit(s)"@,
        "**Behind**: "@ + decimal_str(behind@.len() as nat) + " commit(s)"@,
        Seq::<char>::empty(),
    ];
    assert(views(lines@) =~= head);
    push_section(&mut lines, "## Ahead", ahead);
    let ghost s1 = views(lines@);
    lines.push(String::new());
    assert(views(lines@) =~= s1.push(Seq::<char>::empty()));
    let ghost s2 = views(lines@);
    push_section(&mut lines, "## Behind", behind);
    let ghost s3 = views(lines@);
    lines.push(String::new());
    assert(views(lines@) =~= s3.push(Seq::<char>::empty()));
    proof {
        assert(views(lines@) =~= head + section("## Ahead"@, views(ahead@)) + seq![Seq::<char>::empty()]
            + section("## Behind"@, views(behind@)) + seq![Seq::<char>::empty()]);
    }
    join(lines.as_slice(), "\n")
}

} // verus!

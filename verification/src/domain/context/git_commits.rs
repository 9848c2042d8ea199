//! `git/recent-commits.md`: the output of
//! `git log --format=%H|%aI|%an|%s` as a Markdown table.

use vstd::prelude::*;
use crate::text::{
    byte_prefix_ok_exec, cut, cut_exec, vec_range, byte_prefix, byte_prefix_len, byte_prefix_ok, chars_of, decimal_str, find_char, first_char_index,
    fmt_usize, join, join_seq, lines_of, owned, split_lines_inclusive, string_of, string_of_range, trim,
    trim_bounds, views,
};

verus! {

/// The part of `s` before its first `c` (all of `s` without one).
pub open spec fn before_char(s: Seq<char>, c: char) -> Seq<char> {
    match cut(s, c) {
        Some(p) => p.0,
        None => s,
    }
}

/// The SHA field of a log line, when it has the four fields.
pub open spec fn sha_field(line: Seq<char>) -> Option<Seq<char>> {
    match cut(trim(line), '|') {
        Some(p) => match cut(p.1, '|') {
            Some(q) => match cut(q.1, '|') {
                Some(_) => Some(p.0),
                None => None,
            },
            None => None,
        },
        None => None,
    }
}

/// The table row of one log line `sha|date|author|subject`: the SHA cut
/// to 8 bytes, the date to its day; the subject keeps any further `|`.
/// Blank lines and lines with fewer fields give no row.
pub open spec fn commit_row(line: Seq<char>) -> Option<Seq<char>> {
    let l = trim(line);
    if l.len() == 0 {
        None
    } else {
        match cut(l, '|') {
            Some(p) => match cut(p.1, '|') {
                Some(q) => match cut(q.1, '|') {
                    Some(r) => Some(
                        "| `"@ + byte_prefix(p.0, 8) + "` | "@ + before_char(q.0, 'T') + " | "@ + r.0 + " | "@
                            + r.1 + " |"@,
                    ),
                    None => None,
                },
                None => None,
            },
            None => None,
        }
    }
}

/// The rows of a log, in order.
pub open spec fn commit_rows(lines: Seq<Seq<char>>) -> Seq<Seq<char>>
    decreases lines.len(),
{
    if lines.len() == 0 {
        Seq::empty()
    } else {
        let rest = commit_rows(lines.drop_last());
        match commit_row(lines.last()) {
            Some(r) => rest.push(r),
            None => rest,
        }
    }
}

/// Every SHA field of the log can be cut to 8 bytes on a character
/// boundary (true of the hex SHAs git prints).
pub open spec fn log_cuttable(stdout: Seq<char>) -> bool {
    forall|i: int|
        0 <= i < lines_of(stdout).len() ==> match #[trigger] sha_field(lines_of(stdout)[i]) {
            Some(f) => byte_prefix_ok(f, 8),
            None => true,
        }
}

/// The document for the last `count` commits given the log output.
pub open spec fn commits_doc(header: Seq<char>, count: nat, stdout: Seq<char>) -> Seq<char> {
    join_seq(
        seq![
            header,
            "# Recent Commits"@,
            Seq::empty(),
            "最近 "@ + decimal_str(count) + " 次 commit，按时间倒序。"@,
            Seq::empty(),
            "| SHA | Date | Author | Subject |"@,
            "|-----|------|--------|---------|"@,
        ] + commit_rows(lines_of(stdout)) + seq![Seq::<char>::empty()],
        "\n"@,
    )
}

/// The document written when `git log` fails (not a git repository).
pub open spec fn placeholder_spec(header: Seq<char>, title: Seq<char>, body: Seq<char>) -> Seq<char> {
    header + "# "@ + title + "\n\n"@ + body + "\n"@
}

pub fn placeholder_content(header: &str, title: &str, body: &str) -> (res: String)
    ensures
        res@ == placeholder_spec(header@, title@, body@),
{
    let mut out = owned(header);
    out.append("# ");
    out.append(title);
    out.append("\n\n");
    out.append(body);
    out.append("\n");
    out
}

/// The placeholder for a directory that is not a git repository.
pub fn not_a_repository(header: &str) -> (res: String)
    ensures
        res@ == placeholder_spec(header@, "# Recent Commits"@, "*(非 Git 仓库，无 commit 信息)*"@),
{
    placeholder_content(header, "# Recent Commits", "*(非 Git 仓库，无 commit 信息)*")
}

fn trimmed_chars(text: &str) -> (res: Vec<char>)
    ensures
        res@ == trim(text@),
{
    let cs = chars_of(text);
    let (a, b) = trim_bounds(cs.as_slice());
    vec_range(cs.as_slice(), a, b)
}

/// The SHA field of a log line, when it has the four fields.
fn sha_field_exec(line: &str) -> (res: Option<Vec<char>>)
    ensures
        match res {
            Some(f) => sha_field(line@) == Some(f@),
            None => sha_field(line@) is None,
        },
{
    let l = trimmed_chars(line);
    match cut_exec(l.as_slice(), '|') {
        None => None,
        Some((sha, r1)) => match cut_exec(r1.as_slice(), '|') {
            None => None,
            Some((_, r2)) => match cut_exec(r2.as_slice(), '|') {
                None => None,
                Some(_) => Some(sha),
            },
        },
    }
}

/// Whether every SHA field of a log can be cut to 8 bytes (the table
/// rendering panics otherwise).
pub fn log_is_cuttable(stdout: &str) -> (res: bool)
    ensures
        res == log_cuttable(stdout@),
{
    let lines = split_lines_inclusive(stdout);
    let mut i: usize = 0;
    while i < lines.len()
        invariant
            i <= lines@.len(),
            views(lines@) == lines_of(stdout@),
            forall|j: int|
                0 <= j < i ==> match #[trigger] sha_field(lines_of(stdout@)[j]) {
                    Some(f) => byte_prefix_ok(f, 8),
                    None => true,
                },
        decreases lines@.len() - i,
    {
        assert(lines_of(stdout@)[i as int] == lines@[i as int]@);
        match sha_field_exec(lines[i].as_str()) {
            None => {},
            Some(f) => {
                if !byte_prefix_ok_exec(f.as_slice(), 8) {
                    return false;
                }
            },
        }
        i = i + 1;
    }
    true
}

fn commit_row_exec(line: &str) -> (res: Option<String>)
    requires
        match sha_field(line@) {
            Some(f) => byte_prefix_ok(f, 8),
            None => true,
        },
    ensures
        match res {
            Some(r) => commit_row(line@) == Some(r@),
            None => commit_row(line@) is None,
        },
{
    let l = trimmed_chars(line);
    if l.len() == 0 {
        return None;
    }
    match cut_exec(l.as_slice(), '|') {
        None => None,
        Some((sha, r1)) => match cut_exec(r1.as_slice(), '|') {
            None => None,
            Some((date, r2)) => match cut_exec(r2.as_slice(), '|') {
                None => None,
                Some((author, subject)) => {
                    let k = byte_prefix_len(sha.as_slice(), 8);
                    let mut out = owned("| `");
                    let short = string_of_range(sha.as_slice(), 0, k);
                    assert(short@ =~= sha@.take(k as int));
                    out.append(short.as_str());
                    out.append("` | ");
                    let day = match cut_exec(date.as_slice(), 'T') {
                        Some((d, _)) => d,
                        None => date,
                    };
                    let day_s = string_of(day.as_slice());
                    out.append(day_s.as_str());
                    out.append(" | ");
                    let author_s = string_of(author.as_slice());
                    out.append(author_s.as_str());
                    out.append(" | ");
                    let subject_s = string_of(subject.as_slice());
                    out.append(subject_s.as_str());
                    out.append(" |");
                    Some(out)
                },
            },
        },
    }
}

/// Render `git/recent-commits.md` from the output of `git log` over the
/// last `count` commits.
pub fn render_commits(header: &str, count: usize, stdout: &str) -> (res: String)
    requires
        log_cuttable(stdout@),
    ensures
        res@ == commits_doc(header@, count as nat, stdout@),
{
    let mut count_line = owned("最近 ");
    let n = fmt_usize(count);
    count_line.append(n.as_str());
    count_line.append(" 次 commit，按时间倒序。");
    let mut lines: Vec<String> = vec![
        owned(header),
        owned("# Recent Commits"),
        String::new(),
        count_line,
        String::new(),
        owned("| SHA | Date | Author | Subject |"),
        owned("|-----|------|--------|---------|"),
    ];
    let ghost head = seq![
        header@,
        "# Recent Commits"@,
        Seq::<char>::empty(),
        "最近 "@ + decimal_str(count as nat) + " 次 commit，按时间倒序。"@,
        Seq::<char>::empty(),
        "| SHA | Date | Author | Subject |"@,
        "|-----|------|--------|---------|"@,
    ];
    assert(views(lines@) =~= head);
    let log = split_lines_inclusive(stdout);
    let mut i: usize = 0;
    while i < log.len()
        invariant
            i <= log@.len(),
            views(log@) == lines_of(stdout@),
            log_cuttable(stdout@),
            views(lines@) == head + commit_rows(views(log@).take(i as int)),
        decreases log@.len() - i,
    {
        proof {
            assert(views(log@).take(i + 1).drop_last() =~= views(log@).take(i as int));
            assert(views(log@).take(i + 1).last() == log@[i as int]@);
            assert(lines_of(stdout@)[i as int] == log@[i as int]@);
            assert(match sha_field(lines_of(stdout@)[i as int]) {
                Some(f) => byte_prefix_ok(f, 8),
                None => true,
            });
        }
        match commit_row_exec(log[i].as_str()) {
            Some(r) => {
                let ghost before = views(lines@);
                lines.push(r);
                assert(views(lines@) =~= before.push(r@));
            },
            None => {},
        }
        i = i + 1;
    }
    let ghost before = views(lines@);
    lines.push(String::new());
    proof {
        assert(views(log@).take(log@.len() as int) =~= views(log@));
        assert(views(lines@) =~= before + seq![Seq::<char>::empty()]);
    }
    join(lines.as_slice(), "\n")
}

} // verus!

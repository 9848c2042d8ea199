//! Task storage: one Markdown file per task under `KRON/VERTEX/<vertex>/`,
//! with a per-vertex index of task ids under `kron-internal/states/`.
//!
//! A task file is a YAML front matter block followed by two sentinel
//! blocks:
//!
//! ```text
//! ---
//! <yaml front matter>---
//!
//! <!-- description -->
//! <description>
//! <!-- /description -->
//!
//! <!-- body -->
//! <body>
//! <!-- /body -->
//! ```
//!
//! This module frames and unframes that text; the YAML itself is produced
//! and read by the serialisation layer.

use vstd::prelude::*;
use crate::error::{KronError, Result};
use crate::paths::{file_name, file_name_spec, file_stem, file_stem_spec, join, join_spec};
use crate::text::{
    chars_of, concat2, concat3, decimal_str, fmt_usize, is_ascii_lower, is_digit, str_eq, ends_with, ends_with_exec, find, find_spec, fmt_u32,
    owned, parse_u32, parse_u32_spec, sort_seqs, sort_strings, starts_with, starts_with_exec,
    string_of_range, trim, trim_str, views, contains_seq, occurs_at, first_occurrence, lemma_find_spec_some,
    lemma_first_after_newline, lemma_no_occurrence_across_newline, lemma_no_occurrence_short,
    lemma_trim_newline_wrapped,
};

verus! {

broadcast use vstd::string::group_string_axioms;

// ---- Public types ----

/// A task. Timestamps are RFC 3339 strings.
#[derive(Debug, Clone, PartialEq)]
pub struct Task {
    pub id: String,
    pub title: String,
    pub description: String,
    pub body: String,
    pub state: String,
    pub tags: Vec<String>,
    pub created_at: String,
    pub updated_at: String,
    /// Source file (set when read from disk).
    pub source_file: Option<String>,
}

/// The fields a task file keeps in its YAML front matter.
#[derive(Debug, Clone, PartialEq)]
pub struct TaskFront {
    pub id: String,
    pub title: String,
    pub state: String,
    pub tags: Vec<String>,
    pub created_at: String,
    pub updated_at: String,
}

/// Per-vertex state index (`kron-internal/states/<vertex>.json`).
#[derive(Debug, Clone, PartialEq)]
pub struct VertexState {
    /// Task ids, in insertion order.
    pub tasks: Vec<String>,
}

/// One entry of a directory listing.
#[derive(Debug, Clone, PartialEq)]
pub struct DirEntry {
    pub path: String,
    pub is_file: bool,
}

// ---- Paths ----

/// `<root>/KRON/VERTEX/<vertex>`.
pub open spec fn vertex_dir_spec(root: Seq<char>, vertex: Seq<char>) -> Seq<char> {
    join_spec(join_spec(join_spec(root, "KRON"@), "VERTEX"@), vertex)
}

/// `<root>/kron-internal/states/<vertex>.json`.
pub open spec fn vertex_state_file_spec(root: Seq<char>, vertex: Seq<char>) -> Seq<char> {
    join_spec(join_spec(join_spec(root, "kron-internal"@), "states"@), vertex + ".json"@)
}

/// Locate a vertex directory under `KRON/VERTEX/<name>/`.
pub fn vertex_public_dir(project_root: &str, vertex: &str) -> (res: String)
    ensures
        res@ == vertex_dir_spec(project_root@, vertex@),
{
    let a = join(project_root, "KRON");
    let b = join(a.as_str(), "VERTEX");
    join(b.as_str(), vertex)
}

/// Locate the kron-internal state file for a vertex.
pub fn vertex_state_file(project_root: &str, vertex: &str) -> (res: String)
    ensures
        res@ == vertex_state_file_spec(project_root@, vertex@),
{
    let a = join(project_root, "kron-internal");
    let b = join(a.as_str(), "states");
    let f = concat2(vertex, ".json");
    join(b.as_str(), f.as_str())
}

// ---- Listing task files ----

/// A file name whose extension is `md` (`Path::extension() == Some("md")`).
pub open spec fn is_md_name(n: Seq<char>) -> bool {
    n.len() >= 4 && ends_with(n, ".md"@)
}

/// A path whose file name has the extension `md`.
pub open spec fn is_md_path(p: Seq<char>) -> bool {
    match file_name_spec(p) {
        Some(n) => is_md_name(n),
        None => false,
    }
}

pub fn is_md_path_exec(p: &str) -> (res: bool)
    ensures
        res == is_md_path(p@),
{
    match file_name(p) {
        None => false,
        Some(n) => {
            let cs = chars_of(n.as_str());
            let ext = chars_of(".md");
            cs.len() >= 4 && ends_with_exec(cs.as_slice(), ext.as_slice())
        },
    }
}

/// The entries that are regular `.md` files, in listing order.
pub open spec fn md_files(entries: Seq<DirEntry>) -> Seq<Seq<char>>
    decreases entries.len(),
{
    if entries.len() == 0 {
        Seq::empty()
    } else {
        let rest = md_files(entries.drop_last());
        let e = entries.last();
        if e.is_file && is_md_path(e.path@) {
            rest.push(e.path@)
        } else {
            rest
        }
    }
}

/// List the `.md` task files of a vertex directory, sorted. `dir_exists`
/// says whether the directory exists and `entries` is its listing.
pub fn list_task_files(vertex_dir: &str, dir_exists: bool, entries: &[DirEntry]) -> (res: Result<
    Vec<String>,
>)
    ensures
        !dir_exists ==> (res matches Err(KronError::NotFound(p)) && p@ == vertex_dir@),
        dir_exists ==> (res matches Ok(v) && views(v@) == sort_seqs(md_files(entries@))),
{
    if !dir_exists {
        return Err(KronError::NotFound(owned(vertex_dir)));
    }
    let mut out: Vec<String> = Vec::new();
    let mut i: usize = 0;
    while i < entries.len()
        invariant
            i <= entries@.len(),
            views(out@) == md_files(entries@.take(i as int)),
        decreases entries@.len() - i,
    {
        let e = &entries[i];
        let ghost before = views(out@);
        proof {
            assert(entries@.take(i + 1).drop_last() =~= entries@.take(i as int));
            assert(entries@.take(i + 1).last() == entries@[i as int]);
        }
        if e.is_file && is_md_path_exec(e.path.as_str()) {
            out.push(e.path.clone());
            assert(views(out@) =~= before.push(e.path@));
        }
        i = i + 1;
    }
    assert(entries@.take(entries@.len() as int) =~= entries@);
    Ok(sort_strings(out))
}

// ---- Task ids ----

/// The number of a task id stem `T<n>` (`n` as `u32::from_str` reads it).
pub open spec fn task_number(stem: Seq<char>) -> Option<u32> {
    if stem.len() > 0 && stem[0] == 'T' {
        parse_u32_spec(stem.drop_first())
    } else {
        None
    }
}

/// The task number of a task file path, from its file stem.
pub open spec fn path_task_number(p: Seq<char>) -> Option<u32> {
    match file_stem_spec(p) {
        Some(s) => task_number(s),
        None => None,
    }
}

/// The largest task number among the paths, or 0.
pub open spec fn max_task_number(paths: Seq<Seq<char>>) -> nat
    decreases paths.len(),
{
    if paths.len() == 0 {
        0
    } else {
        let m = max_task_number(paths.drop_last());
        match path_task_number(paths.last()) {
            Some(n) => if n > m {
                n as nat
            } else {
                m
            },
            None => m,
        }
    }
}

/// `T` followed by the decimal number.
pub open spec fn task_id_for(n: nat) -> Seq<char> {
    "T"@ + decimal_str(n)
}

proof fn lemma_max_task_number_bound(paths: Seq<Seq<char>>)
    ensures
        max_task_number(paths) <= u32::MAX,
        forall|i: int| 0 <= i < paths.len() ==> (path_task_number(#[trigger] paths[i]) matches Some(n)
            ==> n <= max_task_number(paths)),
    decreases paths.len(),
{
    if paths.len() > 0 {
        let t = paths.drop_last();
        lemma_max_task_number_bound(t);
        assert forall|i: int| 0 <= i < paths.len() implies (path_task_number(
            #[trigger] paths[i],
        ) matches Some(n) ==> n <= max_task_number(paths)) by {
            if i < paths.len() - 1 {
                assert(paths[i] == t[i]);
            }
        }
    }
}

/// The number of a task stem, as `next_task_id` reads it.
fn task_number_exec(stem: &str) -> (res: Option<u32>)
    ensures
        res == task_number(stem@),
{
    let cs = chars_of(stem);
    if cs.len() > 0 && cs[0] == 'T' {
        let rest = string_of_range(cs.as_slice(), 1, cs.len());
        let rc = chars_of(rest.as_str());
        assert(rc@ =~= stem@.drop_first());
        parse_u32(rc.as_slice())
    } else {
        None
    }
}

/// The largest task number among the task files, or 0.
fn max_task_number_exec(task_files: &[String]) -> (res: u32)
    ensures
        res == max_task_number(views(task_files@)),
{
    proof {
        lemma_max_task_number_bound(views(task_files@));
    }
    let mut max: u32 = 0;
    let mut i: usize = 0;
    while i < task_files.len()
        invariant
            i <= task_files@.len(),
            max == max_task_number(views(task_files@.take(i as int))),
        decreases task_files@.len() - i,
    {
        proof {
            assert(views(task_files@.take(i + 1)).drop_last() =~= views(task_files@.take(i as int)));
            assert(views(task_files@.take(i + 1)).last() == task_files@[i as int]@);
        }
        match file_stem(task_files[i].as_str()) {
            Some(stem) => {
                match task_number_exec(stem.as_str()) {
                    Some(n) => {
                        if n > max {
                            max = n;
                        }
                    },
                    None => {},
                }
            },
            None => {},
        }
        i = i + 1;
    }
    assert(task_files@.take(task_files@.len() as int) =~= task_files@);
    max
}

/// Whether the task numbers of a vertex are used up: some task file is
/// already numbered `u32::MAX`, so no next id can be counted.
pub fn task_numbers_exhausted(task_files: &[String]) -> (res: bool)
    ensures
        res == (max_task_number(views(task_files@)) >= u32::MAX),
{
    max_task_number_exec(task_files) == u32::MAX
}

/// The next sequential task id under a vertex, given its task files: `T`
/// followed by one more than the largest `T<n>` file stem (`T1` when there
/// is none). When the vertex directory does not exist the list is empty.
pub fn next_task_id(task_files: &[String]) -> (res: String)
    requires
        max_task_number(views(task_files@)) < u32::MAX,
    ensures
        res@ == task_id_for(max_task_number(views(task_files@)) + 1),
{
    let max = max_task_number_exec(task_files);
    let num = fmt_u32(max + 1);
    concat2("T", num.as_str())
}

/// The next id never names an existing task file: its number is larger
/// than the number of every `T<n>` file of the vertex.
pub proof fn lemma_next_task_id_fresh(paths: Seq<Seq<char>>, i: int)
    requires
        0 <= i < paths.len(),
        path_task_number(paths[i]) is Some,
    ensures
        path_task_number(paths[i])->0 < max_task_number(paths) + 1,
{
    lemma_max_task_number_bound(paths);
}

// ---- Markdown framing ----

/// `<!-- <name> -->`
pub open spec fn open_tag(name: Seq<char>) -> Seq<char> {
    "<!-- "@ + name + " -->"@
}

/// `<!-- /<name> -->`
pub open spec fn close_tag(name: Seq<char>) -> Seq<char> {
    "<!-- /"@ + name + " -->"@
}

/// The text after the front matter's closing `---` line.
pub open spec fn task_tail(description: Seq<char>, body: Seq<char>) -> Seq<char> {
    "\n\n"@ + open_tag("description"@) + "\n"@ + description + "\n"@ + close_tag("description"@)
        + "\n\n"@ + open_tag("body"@) + "\n"@ + body + "\n"@ + close_tag("body"@) + "\n"@
}

/// The whole task file for the given YAML front matter.
pub open spec fn task_md(yaml: Seq<char>, description: Seq<char>, body: Seq<char>) -> Seq<char> {
    "---\n"@ + yaml + "---"@ + task_tail(description, body)
}

/// Render a task file around its YAML front matter (`front_yaml`, which
/// ends with a newline as the YAML serialiser writes it).
pub fn render_task_md(front_yaml: &str, task: &Task) -> (res: String)
    ensures
        res@ == task_md(front_yaml@, task.description@, task.body@),
{
    let mut s = concat2("---\n", front_yaml);
    s.append("---");
    s.append("\n\n<!-- description -->\n");
    s.append(task.description.as_str());
    s.append("\n<!-- /description -->\n\n<!-- body -->\n");
    s.append(task.body.as_str());
    s.append("\n<!-- /body -->\n");
    proof {
        reveal_strlit("\n\n<!-- description -->\n");
        reveal_strlit("\n\n");
        reveal_strlit("<!-- ");
        reveal_strlit(" -->");
        reveal_strlit("<!-- /");
        reveal_strlit("description");
        reveal_strlit("body");
        reveal_strlit("\n");
        reveal_strlit("\n<!-- /description -->\n\n<!-- body -->\n");
        reveal_strlit("\n<!-- /body -->\n");
        assert("\n\n<!-- description -->\n"@ =~= "\n\n"@ + open_tag("description"@) + "\n"@);
        assert("\n<!-- /description -->\n\n<!-- body -->\n"@ =~= "\n"@ + close_tag(
            "description"@,
        ) + "\n\n"@ + open_tag("body"@) + "\n"@);
        assert("\n<!-- /body -->\n"@ =~= "\n"@ + close_tag("body"@) + "\n"@);
        assert(s@ =~= task_md(front_yaml@, task.description@, task.body@));
    }
    s
}

/// What `split_front_matter` returns: the YAML text between the opening
/// `---` (and the one character after it, normally its newline) and the
/// first later `\n---`, and the text after that. A text that ends right
/// after the opening `---` has no closing one.
pub open spec fn split_front_matter_spec(raw: Seq<char>) -> core::result::Result<
    (Seq<char>, Seq<char>),
    Seq<char>,
> {
    if !starts_with(raw, "---"@) {
        Err("missing opening '---'"@)
    } else if raw.len() < 4 {
        Err("missing closing '---'"@)
    } else {
        let after = raw.skip(4);
        match find_spec(after, "\n---"@) {
            Some(c) => Ok((after.take(c), after.skip(c + 4))),
            None => Err("missing closing '---'"@),
        }
    }
}

/// Split a task file into its YAML front matter and the rest.
pub fn split_front_matter(raw: &str) -> (res: Result<(String, String)>)
    ensures
        match res {
            Ok((y, r)) => split_front_matter_spec(raw@) == Ok::<
                (Seq<char>, Seq<char>),
                Seq<char>,
            >((y@, r@)),
            Err(KronError::InvalidFrontmatter { file, reason }) => file@ == "<inline>"@
                && split_front_matter_spec(raw@) == Err::<(Seq<char>, Seq<char>), Seq<char>>(
                reason@,
            ),
            Err(_) => false,
        },
{
    let cs = chars_of(raw);
    let open = chars_of("---");
    if !starts_with_exec(cs.as_slice(), open.as_slice()) {
        return Err(
            KronError::InvalidFrontmatter {
                file: owned("<inline>"),
                reason: owned("missing opening '---'"),
            },
        );
    }
    proof {
        reveal_strlit("---");
    }
    if cs.len() < 4 {
        return Err(
            KronError::InvalidFrontmatter {
                file: owned("<inline>"),
                reason: owned("missing closing '---'"),
            },
        );
    }
    let after = string_of_range(cs.as_slice(), 4, cs.len());
    let ac = chars_of(after.as_str());
    let close = chars_of("\n---");
    assert(ac@ =~= raw@.skip(4));
    match find(ac.as_slice(), close.as_slice()) {
        Some(c) => {
            proof {
                reveal_strlit("\n---");
            }
            let y = string_of_range(ac.as_slice(), 0, c);
            let r = string_of_range(ac.as_slice(), c + 4, ac.len());
            assert(y@ =~= ac@.take(c as int));
            assert(r@ =~= ac@.skip(c + 4));
            Ok((y, r))
        },
        None => Err(
            KronError::InvalidFrontmatter {
                file: owned("<inline>"),
                reason: owned("missing closing '---'"),
            },
        ),
    }
}

/// What `extract_block` returns: the trimmed text between the first
/// `<!-- name -->` and the first `<!-- /name -->` after it.
pub open spec fn extract_block_spec(rest: Seq<char>, name: Seq<char>) -> Option<Seq<char>> {
    match find_spec(rest, open_tag(name)) {
        None => None,
        Some(i) => {
            let start = i + open_tag(name).len();
            let after = rest.skip(start);
            match find_spec(after, close_tag(name)) {
                None => None,
                Some(e) => Some(trim(after.take(e))),
            }
        },
    }
}

/// Extract the text of a sentinel block.
pub fn extract_block(rest: &str, name: &str) -> (res: Option<String>)
    ensures
        res matches Some(s) ==> extract_block_spec(rest@, name@) == Some(s@),
        res is None ==> extract_block_spec(rest@, name@) is None,
{
    let open_tag_s = concat3("<!-- ", name, " -->");
    let close_tag_s = concat3("<!-- /", name, " -->");
    let rc = chars_of(rest);
    let oc = chars_of(open_tag_s.as_str());
    let cc = chars_of(close_tag_s.as_str());
    match find(rc.as_slice(), oc.as_slice()) {
        None => None,
        Some(i) => {
            if oc.len() > rc.len() - i {
                return None;
            }
            let start = i + oc.len();
            let after = string_of_range(rc.as_slice(), start, rc.len());
            let ac = chars_of(after.as_str());
            assert(ac@ =~= rest@.skip(start as int));
            match find(ac.as_slice(), cc.as_slice()) {
                None => None,
                Some(e) => {
                    let inner = string_of_range(ac.as_slice(), 0, e);
                    assert(inner@ =~= ac@.take(e as int));
                    Some(trim_str(inner.as_str()))
                },
            }
        },
    }
}

// ---- Reading back what was written ----

/// The four block tags: their lengths, no newline in any of them, and the
/// body's opening tag occurs in neither description tag.
proof fn lemma_block_tags()
    ensures
        open_tag("description"@).len() == 20,
        close_tag("description"@).len() == 21,
        open_tag("body"@).len() == 13,
        close_tag("body"@).len() == 14,
        !open_tag("description"@).contains('\n'),
        !close_tag("description"@).contains('\n'),
        !open_tag("body"@).contains('\n'),
        !close_tag("body"@).contains('\n'),
        !contains_seq(open_tag("description"@), open_tag("body"@)),
        !contains_seq(close_tag("description"@), open_tag("body"@)),
{
    reveal_strlit("<!-- ");
    reveal_strlit("<!-- /");
    reveal_strlit(" -->");
    reveal_strlit("description");
    reveal_strlit("body");
    let od = open_tag("description"@);
    let cd = close_tag("description"@);
    let ob = open_tag("body"@);
    let cb = close_tag("body"@);
    assert(od =~= seq!['<', '!', '-', '-', ' ', 'd', 'e', 's', 'c', 'r', 'i', 'p', 't', 'i', 'o', 'n', ' ', '-', '-', '>']);
    assert(cd =~= seq!['<', '!', '-', '-', ' ', '/', 'd', 'e', 's', 'c', 'r', 'i', 'p', 't', 'i', 'o', 'n', ' ', '-', '-', '>']);
    assert(ob =~= seq!['<', '!', '-', '-', ' ', 'b', 'o', 'd', 'y', ' ', '-', '-', '>']);
    assert(cb =~= seq!['<', '!', '-', '-', ' ', '/', 'b', 'o', 'd', 'y', ' ', '-', '-', '>']);
    assert forall|i: int| !occurs_at(od, ob, i) by {
        if occurs_at(od, ob, i) {
            assert(od.subrange(i, i + 13)[0] == ob[0]);
            assert(od.subrange(i, i + 13)[5] == ob[5]);
        }
    }
    assert forall|i: int| !occurs_at(cd, ob, i) by {
        if occurs_at(cd, ob, i) {
            assert(cd.subrange(i, i + 13)[0] == ob[0]);
            assert(cd.subrange(i, i + 13)[5] == ob[5]);
        }
    }
}

/// The block `name` of `tail` holds `text` when its opening tag first
/// occurs at `p`, right before `\n`, `text`, `\n` and its closing tag.
proof fn lemma_block_found(tail: Seq<char>, name: Seq<char>, p: int, text: Seq<char>)
    requires
        first_occurrence(tail, open_tag(name), p),
        p + open_tag(name).len() + text.len() + 2 + close_tag(name).len() <= tail.len(),
        tail.subrange(p + open_tag(name).len(), p + open_tag(name).len() + text.len() + 2 + close_tag(name).len())
            == seq!['\n'] + text + seq!['\n'] + close_tag(name),
        close_tag(name).len() > 0,
        !close_tag(name).contains('\n'),
        !contains_seq(text, close_tag(name)),
    ensures
        extract_block_spec(tail, name) == Some(trim(text)),
{
    lemma_find_spec_some(tail, open_tag(name), p);
    let start = p + open_tag(name).len();
    let after = tail.skip(start);
    let e = text.len() + 2int;
    let n = close_tag(name).len() as int;
    let window = seq!['\n'] + text + seq!['\n'] + close_tag(name);
    assert forall|k: int| 0 <= k < e + n implies after[k] == window[k] by {
        assert(after[k] == tail[start + k]);
        assert(tail.subrange(start, start + e + n)[k] == tail[start + k]);
    }
    assert(after.subrange(e, e + n) =~= close_tag(name));
    assert(after.take(e) =~= seq!['\n'] + text + seq!['\n']);
    lemma_no_occurrence_short(Seq::<char>::empty(), close_tag(name));
    lemma_no_occurrence_across_newline(Seq::<char>::empty(), text, close_tag(name));
    assert(Seq::<char>::empty() + seq!['\n'] + text =~= seq!['\n'] + text);
    lemma_no_occurrence_across_newline(seq!['\n'] + text, Seq::<char>::empty(), close_tag(name));
    assert(seq!['\n'] + text + seq!['\n'] + Seq::<char>::empty() =~= after.take(e));
    lemma_first_after_newline(after, close_tag(name), e);
    lemma_find_spec_some(after, close_tag(name), e);
    lemma_trim_newline_wrapped(text);
}

/// The text after the front matter, piece by piece.
proof fn lemma_tail_shape(d: Seq<char>, b: Seq<char>)
    ensures
        task_tail(d, b) == seq!['\n', '\n'] + open_tag("description"@) + seq!['\n'] + d + seq!['\n'] + close_tag(
            "description"@,
        ) + seq!['\n', '\n'] + open_tag("body"@) + seq!['\n'] + b + seq!['\n'] + close_tag("body"@) + seq!['\n'],
{
    reveal_strlit("\n\n");
    reveal_strlit("\n");
    assert(task_tail(d, b) =~= seq!['\n', '\n'] + open_tag("description"@) + seq!['\n'] + d + seq!['\n']
        + close_tag("description"@) + seq!['\n', '\n'] + open_tag("body"@) + seq!['\n'] + b + seq!['\n']
        + close_tag("body"@) + seq!['\n']);
}

/// The three framing literals, character by character.
proof fn lemma_frame_literals()
    ensures
        "---"@ == seq!['-', '-', '-'],
        "---\n"@ == seq!['-', '-', '-', '\n'],
        "\n---"@ == seq!['\n', '-', '-', '-'],
{
    reveal_strlit("---");
    reveal_strlit("---\n");
    reveal_strlit("\n---");
    assert("---"@ =~= seq!['-', '-', '-']);
    assert("---\n"@ =~= seq!['-', '-', '-', '\n']);
    assert("\n---"@ =~= seq!['\n', '-', '-', '-']);
}

/// In `yaml` followed by `---`, the first `\n---` is the one closing the
/// front matter, when `yaml` ends with a newline and holds no `\n---`.
proof fn lemma_closing_line_first(yaml: Seq<char>, rest: Seq<char>)
    requires
        yaml.len() > 0,
        yaml.last() == '\n',
        !contains_seq(yaml, seq!['\n', '-', '-', '-']),
    ensures
        first_occurrence(yaml + seq!['-', '-', '-'] + rest, seq!['\n', '-', '-', '-'], yaml.len() - 1),
{
    let needle = seq!['\n', '-', '-', '-'];
    let after = yaml + seq!['-', '-', '-'] + rest;
    let c = yaml.len() - 1;
    assert(after.subrange(c, c + 4) =~= needle);
    assert forall|j: int| 0 <= j < c implies !occurs_at(after, needle, j) by {
        if occurs_at(after, needle, j) {
            if j + 4 <= yaml.len() {
                assert forall|k: int| 0 <= k < 4 implies yaml.subrange(j, j + 4)[k] == needle[k] by {
                    assert(after.subrange(j, j + 4)[k] == after[j + k]);
                    assert(after[j + k] == yaml[j + k]);
                }
                assert(yaml.subrange(j, j + 4) =~= needle);
                assert(occurs_at(yaml, needle, j));
            } else {
                let k = c - j;
                assert(after.subrange(j, j + 4)[k] == after[c]);
                assert(after[c] == yaml[c]);
            }
        }
    }
}

/// The front matter of a written task file splits off as written.
proof fn lemma_front_matter_round_trip(yaml: Seq<char>, tail: Seq<char>)
    requires
        yaml.len() > 0,
        yaml.last() == '\n',
        !contains_seq(yaml, "\n---"@),
    ensures
        starts_with("---\n"@ + yaml + "---"@ + tail, "---"@),
        ("---\n"@ + yaml + "---"@ + tail).len() > 3,
        ("---\n"@ + yaml + "---"@ + tail)[3] == '\n',
        split_front_matter_spec("---\n"@ + yaml + "---"@ + tail) == Ok::<(Seq<char>, Seq<char>), Seq<char>>(
            (yaml.drop_last(), tail),
        ),
{
    lemma_frame_literals();
    let raw = "---\n"@ + yaml + "---"@ + tail;
    let after = yaml + seq!['-', '-', '-'] + tail;
    assert(raw =~= seq!['-', '-', '-', '\n'] + after);
    assert(raw.subrange(0, 3) =~= "---"@);
    assert(raw.skip(4) =~= after);
    lemma_closing_line_first(yaml, tail);
    let c = yaml.len() - 1;
    lemma_find_spec_some(after, "\n---"@, c);
    assert(after.take(c) =~= yaml.drop_last());
    assert(after.skip(c + 4) =~= tail);
}

/// The description block of a written task file reads back trimmed.
proof fn lemma_description_round_trip(d: Seq<char>, b: Seq<char>)
    requires
        !contains_seq(d, close_tag("description"@)),
    ensures
        extract_block_spec(task_tail(d, b), "description"@) == Some(trim(d)),
{
    lemma_block_tags();
    lemma_tail_shape(d, b);
    let tail = task_tail(d, b);
    let od = open_tag("description"@);
    let cd = close_tag("description"@);
    assert(tail.subrange(2, 22) =~= od);
    assert(tail.take(2) =~= seq!['\n', '\n']);
    lemma_no_occurrence_short(tail.take(2), od);
    lemma_first_after_newline(tail, od, 2);
    assert(tail.subrange(22, 22 + d.len() + 2int + 21) =~= seq!['\n'] + d + seq!['\n'] + cd);
    lemma_block_found(tail, "description"@, 2, d);
}

/// The body block of a written task file reads back trimmed.
#[verifier::spinoff_prover]
#[verifier::rlimit(40)]
proof fn lemma_body_round_trip(d: Seq<char>, b: Seq<char>)
    requires
        !contains_seq(d, open_tag("body"@)),
        !contains_seq(b, close_tag("body"@)),
    ensures
        extract_block_spec(task_tail(d, b), "body"@) == Some(trim(b)),
{
    lemma_block_tags();
    lemma_tail_shape(d, b);
    let tail = task_tail(d, b);
    let od = open_tag("description"@);
    let cd = close_tag("description"@);
    let ob = open_tag("body"@);
    let cb = close_tag("body"@);
    let p = d.len() + 47int;
    assert(tail.subrange(p, p + 13) =~= ob);
    let x = seq!['\n'] + seq!['\n'] + od + seq!['\n'] + d + seq!['\n'] + cd;
    let head = x + seq!['\n'] + seq!['\n'];
    assert(head =~= tail.take(p));
    lemma_no_occurrence_short(Seq::<char>::empty(), ob);
    lemma_no_occurrence_short(seq!['\n'], ob);
    lemma_no_occurrence_across_newline(seq!['\n'], od, ob);
    lemma_no_occurrence_across_newline(seq!['\n'] + seq!['\n'] + od, d, ob);
    lemma_no_occurrence_across_newline(seq!['\n'] + seq!['\n'] + od + seq!['\n'] + d, cd, ob);
    lemma_no_occurrence_across_newline(x, Seq::<char>::empty(), ob);
    assert(x + seq!['\n'] + Seq::<char>::empty() =~= x + seq!['\n']);
    lemma_no_occurrence_across_newline(x + seq!['\n'], Seq::<char>::empty(), ob);
    assert(x + seq!['\n'] + seq!['\n'] + Seq::<char>::empty() =~= head);
    lemma_first_after_newline(tail, ob, p);
    assert(tail.subrange(p + 13, p + 13 + b.len() + 2 + 14) =~= seq!['\n'] + b + seq!['\n'] + cb);
    lemma_block_found(tail, "body"@, p, b);
}

/// Reading back a written task file gives back what was written: the
/// front matter without its final newline, and the description and body
/// as trimmed. This holds when the front matter ends with a newline and
/// holds no `\n---` line, the description holds neither its closing tag
/// nor the body's opening tag, and the body holds no closing tag of its
/// own.
pub proof fn lemma_task_file_round_trip(yaml: Seq<char>, description: Seq<char>, body: Seq<char>)
    requires
        yaml.len() > 0,
        yaml.last() == '\n',
        !contains_seq(yaml, "\n---"@),
        !contains_seq(description, close_tag("description"@)),
        !contains_seq(description, open_tag("body"@)),
        !contains_seq(body, close_tag("body"@)),
    ensures
        split_front_matter_spec(task_md(yaml, description, body)) == Ok::<(Seq<char>, Seq<char>), Seq<char>>(
            (yaml.drop_last(), task_tail(description, body)),
        ),
        extract_block_spec(task_tail(description, body), "description"@) == Some(trim(description)),
        extract_block_spec(task_tail(description, body), "body"@) == Some(trim(body)),
{
    let tail = task_tail(description, body);
    let raw = task_md(yaml, description, body);
    assert(raw == "---\n"@ + yaml + "---"@ + tail);
    lemma_front_matter_round_trip(yaml, tail);
    lemma_description_round_trip(description, body);
    lemma_body_round_trip(description, body);
}

/// Rebuild a task from its parsed front matter and the text after it: the
/// description and body are the sentinel blocks (empty when missing).
pub fn task_from_parts(front: TaskFront, rest: &str) -> (res: Task)
    ensures
        res.id == front.id,
        res.title == front.title,
        res.state == front.state,
        res.tags == front.tags,
        res.created_at == front.created_at,
        res.updated_at == front.updated_at,
        res.description@ == (match extract_block_spec(rest@, "description"@) {
            Some(d) => d,
            None => Seq::empty(),
        }),
        res.body@ == (match extract_block_spec(rest@, "body"@) {
            Some(b) => b,
            None => Seq::empty(),
        }),
        res.source_file is None,
{
    let description = match extract_block(rest, "description") {
        Some(d) => d,
        None => String::new(),
    };
    let body = match extract_block(rest, "body") {
        Some(b) => b,
        None => String::new(),
    };
    Task {
        id: front.id,
        title: front.title,
        description,
        body,
        state: front.state,
        tags: front.tags,
        created_at: front.created_at,
        updated_at: front.updated_at,
        source_file: None,
    }
}

// ---- Validation ----

/// A character allowed after the first one of a vertex slug.
pub open spec fn slug_tail_char(c: char) -> bool {
    is_ascii_lower(c) || is_digit(c) || c == '_' || c == '-'
}

/// A vertex slug: `^[a-z0-9][a-z0-9_-]*$`.
pub open spec fn is_slug(n: Seq<char>) -> bool {
    &&& n.len() > 0
    &&& (is_ascii_lower(n[0]) || is_digit(n[0]))
    &&& forall|i: int| 1 <= i < n.len() ==> slug_tail_char(#[trigger] n[i])
}

/// Validate that a vertex name is a slug; the error carries the name.
pub fn validate_vertex_name(name: &str) -> (res: Result<()>)
    ensures
        is_slug(name@) ==> res is Ok,
        !is_slug(name@) ==> (res matches Err(KronError::InvalidVertexName(n)) && n@ == name@),
{
    let cs = chars_of(name);
    if cs.len() == 0 {
        return Err(KronError::InvalidVertexName(owned(name)));
    }
    let first = cs[0];
    if !(('a' <= first && first <= 'z') || ('0' <= first && first <= '9')) {
        return Err(KronError::InvalidVertexName(owned(name)));
    }
    let mut i: usize = 1;
    while i < cs.len()
        invariant
            cs@ == name@,
            1 <= i <= cs@.len(),
            forall|k: int| 1 <= k < i ==> slug_tail_char(#[trigger] cs@[k]),
        decreases cs@.len() - i,
    {
        let c = cs[i];
        if !(('a' <= c && c <= 'z') || ('0' <= c && c <= '9') || c == '_' || c == '-') {
            assert(!slug_tail_char(cs@[i as int]));
            return Err(KronError::InvalidVertexName(owned(name)));
        }
        i = i + 1;
    }
    Ok(())
}

/// Maximum length of a one-line description, in characters.
pub const MAX_DESCRIPTION_CHARS: usize = 200;

/// At most the first 200 characters.
pub open spec fn first_200(s: Seq<char>) -> Seq<char> {
    if s.len() <= 200 {
        s
    } else {
        s.take(200)
    }
}

/// Truncate a description to its first 200 characters; the flag says
/// whether anything was cut off.
pub fn normalize_description(s: &str) -> (res: (String, bool))
    ensures
        res.0@ == first_200(s@),
        res.1 == (s@.len() > 200),
{
    let cs = chars_of(s);
    let n = if cs.len() <= MAX_DESCRIPTION_CHARS {
        cs.len()
    } else {
        MAX_DESCRIPTION_CHARS
    };
    let kept = string_of_range(cs.as_slice(), 0, n);
    assert(kept@ =~= first_200(s@));
    (kept, cs.len() > MAX_DESCRIPTION_CHARS)
}

/// The error text for an over-long description.
pub open spec fn long_description_message(count: nat) -> Seq<char> {
    "description must be at most 200 characters (got "@ + decimal_str(count) + ")"@
}

/// Strict description check: more than 200 characters is an error; the
/// description is returned unchanged otherwise.
pub fn validate_description(s: &str) -> (res: Result<String>)
    ensures
        s@.len() <= 200 ==> (res matches Ok(d) && d@ == s@),
        s@.len() > 200 ==> (res matches Err(KronError::Cli(m)) && m@ == long_description_message(
            s@.len(),
        )),
{
    let n = s.unicode_len();
    if n > MAX_DESCRIPTION_CHARS {
        let num = fmt_usize(n);
        return Err(
            KronError::Cli(
                concat3(
                    "description must be at most 200 characters (got ",
                    num.as_str(),
                    ")",
                ),
            ),
        );
    }
    Ok(owned(s))
}

/// The hint given when a vertex has no directory.
pub open spec fn missing_vertex_dir_message(vertex: Seq<char>) -> Seq<char> {
    "vertex '"@ + vertex + "' has no directory under KRON/VERTEX; run `kron vertex create "@
        + vertex + "` to create it"@
}

/// Task commands never create vertex directories: the vertex directory
/// must already be a directory (`dir_is_dir`).
pub fn require_vertex_dir(vertex: &str, dir_is_dir: bool) -> (res: Result<()>)
    ensures
        dir_is_dir ==> res is Ok,
        !dir_is_dir ==> (res matches Err(KronError::Cli(m)) && m@ == missing_vertex_dir_message(
            vertex@,
        )),
{
    if dir_is_dir {
        Ok(())
    } else {
        let mut m = concat3(
            "vertex '",
            vertex,
            "' has no directory under KRON/VERTEX; run `kron vertex create ",
        );
        m.append(vertex);
        m.append("` to create it");
        Err(KronError::Cli(m))
    }
}

// ---- State index ----

/// Whether the index lists `id`.
pub open spec fn lists(tasks: Seq<String>, id: Seq<char>) -> bool {
    views(tasks).contains(id)
}

/// `tasks` without every entry equal to `id`, order kept.
pub open spec fn without(tasks: Seq<Seq<char>>, id: Seq<char>) -> Seq<Seq<char>>
    decreases tasks.len(),
{
    if tasks.len() == 0 {
        tasks
    } else if tasks.last() == id {
        without(tasks.drop_last(), id)
    } else {
        without(tasks.drop_last(), id).push(tasks.last())
    }
}

pub fn contains_str(v: &[String], x: &str) -> (res: bool)
    ensures
        res == views(v@).contains(x@),
{
    let mut i: usize = 0;
    while i < v.len()
        invariant
            i <= v@.len(),
            forall|k: int| 0 <= k < i ==> v@[k]@ != x@,
        decreases v@.len() - i,
    {
        if str_eq(v[i].as_str(), x) {
            assert(views(v@)[i as int] == x@);
            return true;
        }
        i = i + 1;
    }
    proof {
        if views(v@).contains(x@) {
            let k = choose|k: int| 0 <= k < views(v@).len() && views(v@)[k] == x@;
            assert(v@[k]@ == x@);
        }
    }
    false
}

impl VertexState {
    /// An empty index (what a missing index file reads as).
    pub fn new() -> (res: Self)
        ensures
            res.tasks@.len() == 0,
    {
        VertexState { tasks: Vec::new() }
    }

    /// Append a task id unless it is already listed.
    pub fn add_task_id(&mut self, id: &str)
        ensures
            lists(old(self).tasks@, id@) ==> views(final(self).tasks@) == views(old(self).tasks@),
            !lists(old(self).tasks@, id@) ==> views(final(self).tasks@) == views(
                old(self).tasks@,
            ).push(id@),
    {
        if !contains_str(self.tasks.as_slice(), id) {
            self.tasks.push(owned(id));
            proof {
                assert(views(self.tasks@) =~= views(old(self).tasks@).push(id@));
            }
        }
    }

    /// Drop every occurrence of a task id; the other ids keep their order.
    pub fn remove_task_id(&mut self, id: &str)
        ensures
            views(final(self).tasks@) == without(views(old(self).tasks@), id@),
    {
        self.tasks = remove_all(&self.tasks, id);
    }
}

/// `v` without every entry equal to `x`, order kept.
pub fn remove_all(v: &Vec<String>, x: &str) -> (res: Vec<String>)
    ensures
        views(res@) == without(views(v@), x@),
{
    let mut kept: Vec<String> = Vec::new();
    let mut i: usize = 0;
    while i < v.len()
        invariant
            i <= v@.len(),
            views(kept@) == without(views(v@.take(i as int)), x@),
        decreases v@.len() - i,
    {
        proof {
            assert(views(v@.take(i + 1)).drop_last() =~= views(v@.take(i as int)));
            assert(views(v@.take(i + 1)).last() == v@[i as int]@);
        }
        if !str_eq(v[i].as_str(), x) {
            let ghost before = views(kept@);
            kept.push(v[i].clone());
            assert(views(kept@) =~= before.push(v@[i as int]@));
        }
        i = i + 1;
    }
    assert(v@.take(v@.len() as int) =~= v@);
    kept
}

/// `without` drops exactly the entries equal to `id`.
pub proof fn lemma_without(tasks: Seq<Seq<char>>, id: Seq<char>)
    ensures
        !without(tasks, id).contains(id),
        forall|x: Seq<char>| x != id ==> (#[trigger] without(tasks, id).contains(x) <==> tasks.contains(x)),
    decreases tasks.len(),
{
    broadcast use vstd::seq_lib::group_seq_properties;
    if tasks.len() > 0 {
        let t = tasks.drop_last();
        lemma_without(t, id);
        assert(t.push(tasks.last()) =~= tasks);
    }
}

/// Adding an id twice is the same as adding it once.
pub proof fn lemma_add_task_id_idempotent(tasks: Seq<Seq<char>>, id: Seq<char>)
    ensures
        (if tasks.contains(id) { tasks } else { tasks.push(id) }).contains(id),
{
    if !tasks.contains(id) {
        assert(tasks.push(id).last() == id);
    }
}

// ---- Locating and moving tasks ----

/// A vertex directory and whether it holds the task file being looked for.
#[derive(Debug, Clone, PartialEq)]
pub struct TaskProbe {
    pub vertex: String,
    pub has_task: bool,
}

/// The first probed vertex that holds the task, in probe order.
pub open spec fn first_holder(probes: Seq<TaskProbe>, k: int) -> bool {
    0 <= k < probes.len() && probes[k].has_task && forall|j: int| 0 <= j < k ==> !probes[j].has_task
}

/// `<vertex dir>/<id>.md`.
pub open spec fn task_path_spec(root: Seq<char>, vertex: Seq<char>, id: Seq<char>) -> Seq<char> {
    join_spec(vertex_dir_spec(root, vertex), id + ".md"@)
}

pub fn task_path(project_root: &str, vertex: &str, id: &str) -> (res: String)
    ensures
        res@ == task_path_spec(project_root@, vertex@, id@),
{
    let d = vertex_public_dir(project_root, vertex);
    let f = concat2(id, ".md");
    join(d.as_str(), f.as_str())
}

/// Find the vertex that holds task `id` among the vertex directories
/// (`probes`, in directory order, each saying whether `<id>.md` exists
/// there). Returns the task file path and the vertex; `NotFound` names
/// `KRON/VERTEX/<id>.md` when no vertex holds it.
pub fn find_task(project_root: &str, id: &str, probes: &[TaskProbe]) -> (res: Result<
    (String, String),
>)
    ensures
        match res {
            Ok((p, v)) => exists|k: int|
                first_holder(probes@, k) && v@ == probes@[k].vertex@ && p@ == task_path_spec(
                    project_root@,
                    v@,
                    id@,
                ),
            Err(KronError::NotFound(p)) => (forall|k: int|
                0 <= k < probes@.len() ==> !probes@[k].has_task) && p@ == join_spec(
                join_spec(join_spec(project_root@, "KRON"@), "VERTEX"@),
                id@ + ".md"@,
            ),
            Err(_) => false,
        },
{
    let mut i: usize = 0;
    while i < probes.len()
        invariant
            i <= probes@.len(),
            forall|j: int| 0 <= j < i ==> !probes@[j].has_task,
        decreases probes@.len() - i,
    {
        if probes[i].has_task {
            let v = probes[i].vertex.clone();
            let p = task_path(project_root, v.as_str(), id);
            assert(first_holder(probes@, i as int));
            return Ok((p, v));
        }
        i = i + 1;
    }
    let a = join(project_root, "KRON");
    let b = join(a.as_str(), "VERTEX");
    let f = concat2(id, ".md");
    Err(KronError::NotFound(join(b.as_str(), f.as_str())))
}

/// A new task `id` created at time `now`: in the first state of the chain
/// (`todo`), with the given title, description, body and tags, not yet
/// written to a file.
pub fn new_task(id: &str, title: &str, description: &str, body: &str, tags: &[String], now: &str) -> (res: Task)
    ensures
        res.id@ == id@,
        res.title@ == title@,
        res.description@ == description@,
        res.body@ == body@,
        res.state@ == "todo"@,
        views(res.tags@) == views(tags@),
        res.created_at@ == now@,
        res.updated_at@ == now@,
        res.source_file is None,
{
    let state = crate::model::TaskState::default_for_new();
    Task {
        id: owned(id),
        title: owned(title),
        description: owned(description),
        body: owned(body),
        state: owned(state.as_str()),
        tags: crate::text::clone_strings(tags),
        created_at: owned(now),
        updated_at: owned(now),
        source_file: None,
    }
}

/// The task as it reads after moving it to vertex `target` at time `now`:
/// its state becomes the target vertex name, nothing else but the update
/// time changes.
pub fn retarget(task: Task, target: &str, now: &str) -> (res: Task)
    ensures
        res.state@ == target@,
        res.updated_at@ == now@,
        res.id == task.id,
        res.title == task.title,
        res.description == task.description,
        res.body == task.body,
        res.tags == task.tags,
        res.created_at == task.created_at,
        res.source_file is None,
{
    Task { state: owned(target), updated_at: owned(now), source_file: None, ..task }
}

/// Check a move target before any file is touched: it must be a vertex slug.
pub fn check_move_target(target: &str) -> (res: Result<()>)
    ensures
        is_slug(target@) ==> res is Ok,
        !is_slug(target@) ==> (res matches Err(KronError::InvalidVertexName(n)) && n@ == target@),
{
    validate_vertex_name(target)
}

} // verus!

//! `code/structure.md`: the project directory tree.
//!
//! The tree lists entries depth first, directories before files; each
//! line is drawn with `├── ` or `└── ` (the last entry of its depth) after
//! one `│   ` or `    ` column per enclosing level.

use vstd::prelude::*;
use crate::paths::tail_segment;
use crate::text::{chars_of, decimal_str, ends_with, fmt_u32, fmt_usize, join, join_seq, owned, str_eq, string_of_range, views};

verus! {

/// One node of the directory tree.
#[derive(Debug, Clone)]
pub struct Entry {
    /// Path relative to the project root, `/`-separated.
    pub rel_path: String,
    pub is_dir: bool,
    /// Nesting depth, 0 for the root's children.
    pub depth: u32,
}

/// Names that are never listed, and the `*.pyc` pattern.
pub open spec fn skipped_name(name: Seq<char>) -> bool {
    ||| name == "node_modules"@
    ||| name == "target"@
    ||| name == ".git"@
    ||| name == ".svn"@
    ||| name == ".hg"@
    ||| ends_with(name, ".pyc"@)
    ||| name == "__pycache__"@
    ||| name == ".DS_Store"@
    ||| name == "Thumbs.db"@
}

/// Whether a directory entry is left out of the tree.
pub fn should_skip(name: &str) -> (res: bool)
    ensures
        res == skipped_name(name@),
{
    let cs = chars_of(name);
    let pyc = chars_of(".pyc");
    str_eq(name, "node_modules") || str_eq(name, "target") || str_eq(name, ".git") || str_eq(name, ".svn")
        || str_eq(name, ".hg") || crate::text::ends_with_exec(cs.as_slice(), pyc.as_slice()) || str_eq(
        name,
        "__pycache__",
    ) || str_eq(name, ".DS_Store") || str_eq(name, "Thumbs.db")
}

impl Entry {
    /// The last path component.
    pub fn name_only(&self) -> (res: String)
        ensures
            res@ == tail_segment(self.rel_path@),
    {
        let cs = chars_of(self.rel_path.as_str());
        let mut i: usize = cs.len();
        while i > 0 && cs[i - 1] != '/'
            invariant
                i <= cs@.len(),
                forall|k: int| i <= k < cs@.len() ==> cs@[k] != '/',
            decreases i,
        {
            i = i - 1;
        }
        proof {
            lemma_last_slash_at(cs@, i as int);
        }
        string_of_range(cs.as_slice(), i, cs.len())
    }
}

proof fn lemma_last_slash_at(s: Seq<char>, i: int)
    requires
        0 <= i <= s.len(),
        i == 0 || s[i - 1] == '/',
        forall|k: int| i <= k < s.len() ==> s[k] != '/',
    ensures
        crate::paths::last_slash(s) + 1 == i,
    decreases s.len(),
{
    if s.len() > 0 && s.len() > i {
        assert(s.drop_last().len() < s.len());
        assert forall|k: int| i <= k < s.drop_last().len() implies s.drop_last()[k] != '/' by {
            assert(s.drop_last()[k] == s[k]);
        }
        if i > 0 {
            assert(s.drop_last()[i - 1] == s[i - 1]);
        }
        lemma_last_slash_at(s.drop_last(), i);
    }
}

/// A later entry sits at depth `d`.
pub open spec fn later_at_depth(entries: Seq<Entry>, i: int, d: u32) -> bool {
    exists|j: int| i < j < entries.len() && #[trigger] entries[j].depth == d
}

/// A later entry sits at depth `d` or deeper.
pub open spec fn later_at_least(entries: Seq<Entry>, i: int, d: int) -> bool {
    exists|j: int| i < j < entries.len() && #[trigger] entries[j].depth >= d
}

/// The columns drawn for the enclosing levels `1 .. m` of entry `i`.
pub open spec fn columns(entries: Seq<Entry>, i: int, m: int) -> Seq<char>
    decreases m,
{
    if m <= 1 {
        Seq::empty()
    } else {
        columns(entries, i, m - 1) + if later_at_least(entries, i, m - 1) {
            "│   "@
        } else {
            "    "@
        }
    }
}

/// What precedes the name of entry `i`.
pub open spec fn prefix_spec(entries: Seq<Entry>, i: int) -> Seq<char> {
    let d = entries[i].depth;
    if d == 0 {
        Seq::empty()
    } else {
        columns(entries, i, d as int) + if later_at_depth(entries, i, d) {
            "├── "@
        } else {
            "└── "@
        }
    }
}

/// The tree line of entry `i`; directories end in `/`.
pub open spec fn entry_line(entries: Seq<Entry>, i: int) -> Seq<char> {
    prefix_spec(entries, i) + tail_segment(entries[i].rel_path@) + if entries[i].is_dir {
        "/"@
    } else {
        Seq::empty()
    }
}

/// Whether entry `i` is the last at its depth.
pub fn is_last_at_depth(entries: &[Entry], i: usize, depth: u32) -> (res: bool)
    requires
        i < entries@.len(),
    ensures
        res == !later_at_depth(entries@, i as int, depth),
{
    assert(i < entries.len());
    let mut j: usize = i + 1;
    while j < entries.len()
        invariant
            i < j <= entries@.len(),
            forall|k: int| i < k < j ==> entries@[k].depth != depth,
        decreases entries@.len() - j,
    {
        if entries[j].depth == depth {
            assert(entries@[j as int].depth == depth);
            return false;
        }
        j = j + 1;
    }
    true
}

fn has_later_at_least(entries: &[Entry], i: usize, d: u32) -> (res: bool)
    requires
        i < entries@.len(),
    ensures
        res == later_at_least(entries@, i as int, d as int),
{
    assert(i < entries.len());
    let mut j: usize = i + 1;
    while j < entries.len()
        invariant
            i < j <= entries@.len(),
            forall|k: int| i < k < j ==> entries@[k].depth < d,
        decreases entries@.len() - j,
    {
        if entries[j].depth >= d {
            assert(entries@[j as int].depth >= d);
            return true;
        }
        j = j + 1;
    }
    false
}

/// The drawing before the name of entry `i`.
pub fn tree_prefix(entries: &[Entry], i: usize) -> (res: String)
    requires
        i < entries@.len(),
    ensures
        res@ == prefix_spec(entries@, i as int),
{
    let depth = entries[i].depth;
    if depth == 0 {
        return String::new();
    }
    let is_last = is_last_at_depth(entries, i, depth);
    let mut result = String::new();
    let mut d: u32 = 1;
    while d < depth
        invariant
            1 <= d <= depth,
            i < entries@.len(),
            depth == entries@[i as int].depth,
            result@ == columns(entries@, i as int, d as int),
        decreases depth - d,
    {
        if has_later_at_least(entries, i, d) {
            result.append("│   ");
        } else {
            result.append("    ");
        }
        d = d + 1;
    }
    if is_last {
        result.append("└── ");
    } else {
        result.append("├── ");
    }
    result
}

/// The tree: the root line (`<root>/`) and one line per entry, joined by
/// newlines; an empty tree says so.
pub open spec fn tree_spec(entries: Seq<Entry>, root: Seq<char>) -> Seq<char> {
    if entries.len() == 0 {
        root + "/\n  (empty)"@
    } else {
        join_seq(seq![root + "/"@] + Seq::new(entries.len(), |i: int| entry_line(entries, i)), "\n"@)
    }
}

/// Render entries as a tree.
pub fn render_tree(entries: &[Entry], root_name: &str) -> (res: String)
    ensures
        res@ == tree_spec(entries@, root_name@),
{
    if entries.len() == 0 {
        let mut out = owned(root_name);
        out.append("/\n  (empty)");
        return out;
    }
    let mut lines: Vec<String> = Vec::new();
    let mut first = owned(root_name);
    first.append("/");
    lines.push(first);
    let mut i: usize = 0;
    while i < entries.len()
        invariant
            i <= entries@.len(),
            views(lines@) == seq![root_name@ + "/"@] + Seq::new(i as nat, |k: int| entry_line(entries@, k)),
        decreases entries@.len() - i,
    {
        let mut line = tree_prefix(entries, i);
        let name = entries[i].name_only();
        line.append(name.as_str());
        if entries[i].is_dir {
            line.append("/");
        }
        let ghost before = views(lines@);
        lines.push(line);
        proof {
            assert(views(lines@) =~= before.push(entry_line(entries@, i as int)));
            assert(seq![root_name@ + "/"@] + Seq::new((i + 1) as nat, |k: int| entry_line(entries@, k))
                =~= before.push(entry_line(entries@, i as int)));
        }
        i = i + 1;
    }
    join(lines.as_slice(), "\n")
}

/// The whole `code/structure.md` document for a tree of `depth` levels
/// under a project named `project_name`, stamped by `header`.
pub open spec fn structure_doc(header: Seq<char>, project_name: Seq<char>, depth: u32, entries: Seq<Entry>) -> Seq<char> {
    join_seq(
        seq![
            header,
            "# Project Structure"@,
            Seq::empty(),
            "深度："@ + decimal_str(depth as nat) + "（可配置）"@,
            Seq::empty(),
            "```"@,
            tree_spec(entries, project_name),
            "```"@,
            Seq::empty(),
            "(跳过: node_modules/, target/, .git/, 等)"@,
            "(共 "@ + decimal_str(entries.len()) + " 个条目)"@,
            Seq::empty(),
        ],
        "\n"@,
    )
}

/// The project name shown at the root of the tree: the last component of
/// the project root, or `project`.
pub fn project_name(project_root: &str) -> (res: String)
    ensures
        res@ == match crate::paths::file_name_spec(project_root@) {
            Some(n) => n,
            None => "project"@,
        },
{
    match crate::paths::file_name(project_root) {
        Some(n) => n,
        None => owned("project"),
    }
}

/// Render `code/structure.md`.
pub fn generate(header: &str, project_name: &str, depth: u32, entries: &[Entry]) -> (res: String)
    ensures
        res@ == structure_doc(header@, project_name@, depth, entries@),
{
    let tree = render_tree(entries, project_name);
    let mut depth_line = owned("深度：");
    let d = fmt_u32(depth);
    depth_line.append(d.as_str());
    depth_line.append("（可配置）");
    let mut total_line = owned("(共 ");
    let n = fmt_usize(entries.len());
    total_line.append(n.as_str());
    total_line.append(" 个条目)");
    let lines = vec![
        owned(header),
        owned("# Project Structure"),
        String::new(),
        depth_line,
        String::new(),
        owned("```"),
        tree,
        owned("```"),
        String::new(),
        owned("(跳过: node_modules/, target/, .git/, 等)"),
        total_line,
        String::new(),
    ];
    proof {
        assert(views(lines@) =~= seq![
            header@,
            "# Project Structure"@,
            Seq::empty(),
            "深度："@ + decimal_str(depth as nat) + "（可配置）"@,
            Seq::empty(),
            "```"@,
            tree_spec(entries@, project_name@),
            "```"@,
            Seq::empty(),
            "(跳过: node_modules/, target/, .git/, 等)"@,
            "(共 "@ + decimal_str(entries@.len()) + " 个条目)"@,
            Seq::empty(),
        ]);
    }
    join(lines.as_slice(), "\n")
}

} // verus!

//! `KRON/.kron-context/`: fact-only snapshots for AI tools.
//!
//! Four documents are generated (recent commits, the branch summary, the
//! directory tree and an index README), each starting with a
//! `kron-generated:` header. A registry records when each was generated
//! and whether it is stale.

use vstd::prelude::*;
use crate::clock::{parse_rfc3339, parse_rfc3339_spec};
use crate::text::{
    contains_seq, chars_of, ends_with, find_char, first_char_index, lines_of, owned, split_lines_inclusive, starts_with,
    string_of_range, trim, trim_bounds, views,
};

pub mod code_structure;
pub mod git_commits;
pub mod git_branch;
pub mod readme;
pub mod walk;

verus! {

/// `.kron-context/` base directory, relative to `KRON/`.
pub const KRON_CONTEXT_DIR: &'static str = ".kron-context";

/// Max file size for any context file (1 MB).
pub const MAX_FILE_SIZE: usize = 1048576;

/// Default directory tree depth.
pub const DEFAULT_TREE_DEPTH: u32 = 3;

/// Default number of recent commits.
pub const DEFAULT_COMMIT_COUNT: usize = 100;

/// What kind of fact a document holds.
#[derive(Debug, Clone, Copy, PartialEq, Eq, Structural)]
pub enum DocType {
    GitCommits,
    GitBranch,
    CodeStructure,
    Readme,
}

impl DocType {
    /// Path of the document under `.kron-context/`.
    pub open spec fn path_spec(self) -> Seq<char> {
        match self {
            DocType::GitCommits => "git/recent-commits.md"@,
            DocType::GitBranch => "git/branch-summary.md"@,
            DocType::CodeStructure => "code/structure.md"@,
            DocType::Readme => "README.md"@,
        }
    }

    pub fn path(&self) -> (res: &'static str)
        ensures
            res@ == self.path_spec(),
    {
        match self {
            DocType::GitCommits => "git/recent-commits.md",
            DocType::GitBranch => "git/branch-summary.md",
            DocType::CodeStructure => "code/structure.md",
            DocType::Readme => "README.md",
        }
    }

    /// Every document kind, in generation order.
    pub open spec fn all_spec() -> Seq<DocType> {
        seq![DocType::GitCommits, DocType::GitBranch, DocType::CodeStructure, DocType::Readme]
    }

    pub fn all() -> (res: Vec<DocType>)
        ensures
            res@ == DocType::all_spec(),
    {
        let v = vec![DocType::GitCommits, DocType::GitBranch, DocType::CodeStructure, DocType::Readme];
        assert(v@ =~= DocType::all_spec());
        v
    }
}

/// Registry metadata of one document. Times are RFC 3339 strings.
#[derive(Debug, Clone)]
pub struct DocMeta {
    pub path: String,
    pub doc_type: DocType,
    pub generated_at: String,
    /// Why the document is stale (`None` when fresh).
    pub stale_reason: Option<String>,
}

impl DocMeta {
    pub fn is_stale(&self) -> (res: bool)
        ensures
            res == self.stale_reason is Some,
    {
        self.stale_reason.is_some()
    }

    /// A field-by-field copy.
    pub fn duplicate(&self) -> (res: DocMeta)
        ensures
            res == *self,
    {
        DocMeta {
            path: self.path.clone(),
            doc_type: self.doc_type,
            generated_at: self.generated_at.clone(),
            stale_reason: crate::text::clone_opt(&self.stale_reason),
        }
    }
}

/// `k` is the first document of kind `t`.
pub open spec fn first_of_type(docs: Seq<DocMeta>, t: DocType, k: int) -> bool {
    0 <= k < docs.len() && docs[k].doc_type == t && forall|j: int| 0 <= j < k ==> docs[j].doc_type != t
}

pub open spec fn has_type(docs: Seq<DocMeta>, t: DocType) -> bool {
    exists|k: int| 0 <= k < docs.len() && #[trigger] docs[k].doc_type == t
}

/// The document registry (`KRON/.kron-context/.registry.json`).
#[derive(Debug, Clone)]
pub struct Registry {
    pub docs: Vec<DocMeta>,
    pub last_regenerate: Option<String>,
}

fn position_of_type(docs: &Vec<DocMeta>, t: DocType) -> (res: Option<usize>)
    ensures
        match res {
            Some(k) => first_of_type(docs@, t, k as int),
            None => !has_type(docs@, t),
        },
{
    let mut i: usize = 0;
    while i < docs.len()
        invariant
            i <= docs@.len(),
            forall|j: int| 0 <= j < i ==> docs@[j].doc_type != t,
        decreases docs@.len() - i,
    {
        if docs[i].doc_type == t {
            return Some(i);
        }
        i = i + 1;
    }
    None
}

impl Registry {
    /// An empty registry (what a missing registry file reads as).
    pub fn new() -> (res: Self)
        ensures
            res.docs@.len() == 0,
            res.last_regenerate is None,
    {
        Registry { docs: Vec::new(), last_regenerate: None }
    }

    /// Metadata of the first document of kind `t`.
    pub fn get(&self, t: DocType) -> (res: Option<DocMeta>)
        ensures
            match res {
                Some(m) => exists|k: int| first_of_type(self.docs@, t, k) && self.docs@[k] == m,
                None => !has_type(self.docs@, t),
            },
    {
        match position_of_type(&self.docs, t) {
            Some(k) => Some(self.docs[k].duplicate()),
            None => None,
        }
    }

    /// Replace the metadata of the first document of the same kind, or
    /// append it.
    pub fn upsert(&mut self, meta: DocMeta)
        ensures
            final(self).last_regenerate == old(self).last_regenerate,
            has_type(old(self).docs@, meta.doc_type) ==> exists|k: int|
                first_of_type(old(self).docs@, meta.doc_type, k) && final(self).docs@ == old(self).docs@.update(k, meta),
            !has_type(old(self).docs@, meta.doc_type) ==> final(self).docs@ == old(self).docs@.push(meta),
    {
        match position_of_type(&self.docs, meta.doc_type) {
            Some(k) => {
                self.docs.set(k, meta);
            },
            None => {
                self.docs.push(meta);
            },
        }
    }
}

/// What was found on disk for one document kind when the registry is
/// empty: whether its file exists and the time its header records.
pub struct DocProbe {
    pub exists: bool,
    pub generated_at: Option<String>,
}

/// A registry entry re-checked against the disk: a fresh entry whose file
/// is missing becomes stale.
pub open spec fn rechecked(m: DocMeta, r: DocMeta, present: bool) -> bool {
    &&& r.path == m.path
    &&& r.doc_type == m.doc_type
    &&& r.generated_at == m.generated_at
    &&& if m.stale_reason is None && !present {
        r.stale_reason matches Some(s) && s@ == "file missing"@
    } else {
        r.stale_reason == m.stale_reason
    }
}

/// Metadata synthesised for document kind `t` from what is on disk, with
/// `now` standing in for an unknown generation time.
pub open spec fn synthesised(t: DocType, p: DocProbe, r: DocMeta, now: Seq<char>) -> bool {
    &&& r.path@ == t.path_spec()
    &&& r.doc_type == t
    &&& r.generated_at@ == match p.generated_at {
        Some(g) => g@,
        None => now,
    }
    &&& if p.exists {
        r.stale_reason is None
    } else {
        r.stale_reason matches Some(s) && s@ == "file missing"@
    }
}

/// All documents with their metadata. Registry entries are re-checked
/// (`present[i]` tells whether the file of entry `i` exists); with an
/// empty registry, metadata is synthesised for every kind from `probes`
/// (one per kind, in `DocType::all` order).
pub fn list_docs(registry: &Registry, present: &[bool], probes: &[DocProbe], now: &str) -> (res: Vec<DocMeta>)
    requires
        present@.len() == registry.docs@.len(),
        probes@.len() == 4,
    ensures
        registry.docs@.len() > 0 ==> res@.len() == registry.docs@.len() && forall|i: int|
            0 <= i < res@.len() ==> rechecked(registry.docs@[i], #[trigger] res@[i], present@[i]),
        registry.docs@.len() == 0 ==> res@.len() == 4 && forall|i: int|
            0 <= i < 4 ==> synthesised(DocType::all_spec()[i], probes@[i], #[trigger] res@[i], now@),
{
    let mut out: Vec<DocMeta> = Vec::new();
    if registry.docs.len() > 0 {
        let mut i: usize = 0;
        while i < registry.docs.len()
            invariant
                i <= registry.docs@.len(),
                present@.len() == registry.docs@.len(),
                out@.len() == i,
                forall|j: int| 0 <= j < i ==> rechecked(registry.docs@[j], #[trigger] out@[j], present@[j]),
            decreases registry.docs@.len() - i,
        {
            let mut m = registry.docs[i].duplicate();
            if m.stale_reason.is_none() && !present[i] {
                m.stale_reason = Some(owned("file missing"));
            }
            out.push(m);
            i = i + 1;
        }
        return out;
    }
    let kinds = DocType::all();
    let mut i: usize = 0;
    while i < 4
        invariant
            i <= 4,
            kinds@ == DocType::all_spec(),
            probes@.len() == 4,
            out@.len() == i,
            forall|j: int| 0 <= j < i ==> synthesised(DocType::all_spec()[j], probes@[j], #[trigger] out@[j], now@),
        decreases 4 - i,
    {
        let t = kinds[i];
        let generated_at = match &probes[i].generated_at {
            Some(g) => g.clone(),
            None => owned(now),
        };
        let stale_reason = if probes[i].exists {
            None
        } else {
            Some(owned("file missing"))
        };
        out.push(DocMeta { path: owned(t.path()), doc_type: t, generated_at, stale_reason });
        i = i + 1;
    }
    out
}

// ---------------------------------------------------------------------------
// The generated header
// ---------------------------------------------------------------------------

/// The header every generated document starts with.
pub open spec fn header_spec(ts: Seq<char>) -> Seq<char> {
    "<!-- kron-generated: "@ + ts + " -->\n<!-- DO NOT EDIT. Run 'kron context --regenerate' to refresh. -->\n"@
}

/// The header stamped with the time `ts`.
pub fn file_header(ts: &str) -> (res: String)
    ensures
        res@ == header_spec(ts@),
{
    let mut out = owned("<!-- kron-generated: ");
    out.append(ts);
    out.append(" -->\n<!-- DO NOT EDIT. Run 'kron context --regenerate' to refresh. -->\n");
    out
}

/// A line as `str::lines` yields it: without its `\n` or `\r\n`.
pub open spec fn strip_eol(l: Seq<char>) -> Seq<char> {
    if ends_with(l, "\r\n"@) {
        l.take(l.len() - 2)
    } else if ends_with(l, "\n"@) {
        l.take(l.len() - 1)
    } else {
        l
    }
}

/// The part of `s` before its first `>`.
pub open spec fn before_gt(s: Seq<char>) -> Seq<char> {
    if s.contains('>') {
        s.take(choose|i: int| first_char_index(s, '>', i))
    } else {
        s
    }
}

/// `str::trim_end_matches(suffix)`: every trailing repetition removed.
pub open spec fn trim_end_all(s: Seq<char>, suffix: Seq<char>) -> Seq<char>
    decreases s.len(),
{
    if suffix.len() > 0 && ends_with(s, suffix) {
        trim_end_all(s.take(s.len() - suffix.len()), suffix)
    } else {
        s
    }
}

pub open spec fn stamp_prefix() -> Seq<char> {
    "<!-- kron-generated:"@
}

/// The timestamp text a header line carries, if it is a header line.
pub open spec fn stamp_text(line: Seq<char>) -> Option<Seq<char>> {
    if starts_with(line, stamp_prefix()) {
        let rest = line.skip(stamp_prefix().len() as int);
        Some(trim(trim_end_all(trim(before_gt(trim(rest))), " -->"@)))
    } else {
        None
    }
}

/// The generation time recorded in the first `n` of `lines`: that of the
/// first header line whose timestamp parses, in RFC 3339 (UTC).
pub open spec fn stamp_in(lines: Seq<Seq<char>>, n: nat) -> Option<Seq<char>>
    decreases lines.len(),
{
    if lines.len() == 0 || n == 0 {
        None
    } else {
        match stamp_text(strip_eol(lines[0])) {
            Some(t) => match parse_rfc3339_spec(t) {
                Some(p) => Some(p.0),
                None => stamp_in(lines.drop_first(), (n - 1) as nat),
            },
            None => stamp_in(lines.drop_first(), (n - 1) as nat),
        }
    }
}

pub(crate) fn strip_eol_exec(cs: &[char]) -> (res: (usize, usize))
    ensures
        res.0 == 0,
        res.1 <= cs@.len(),
        cs@.take(res.1 as int) == strip_eol(cs@),
{
    let n = cs.len();
    proof {
        reveal_strlit("\r\n");
        reveal_strlit("\n");
    }
    if n >= 2 && cs[n - 2] == '\r' && cs[n - 1] == '\n' {
        assert(cs@.subrange(n - 2, n as int) =~= "\r\n"@);
        return (0, n - 2);
    }
    if n >= 1 && cs[n - 1] == '\n' {
        assert(cs@.subrange(n - 1, n as int) =~= "\n"@);
        proof {
            if ends_with(cs@, "\r\n"@) {
                assert(cs@.subrange(n - 2, n as int)[0] == '\r');
            }
        }
        return (0, n - 1);
    }
    proof {
        if ends_with(cs@, "\r\n"@) {
            assert(cs@.subrange(n - 2, n as int)[1] == '\n');
        }
        if ends_with(cs@, "\n"@) {
            assert(cs@.subrange(n - 1, n as int)[0] == '\n');
        }
        assert(cs@.take(n as int) =~= cs@);
    }
    (0, n)
}

fn trim_end_all_exec(s: Vec<char>, suffix: &[char]) -> (res: Vec<char>)
    ensures
        res@ == trim_end_all(s@, suffix@),
{
    let mut cur = s;
    while suffix.len() > 0 && crate::text::ends_with_exec(cur.as_slice(), suffix)
        invariant
            trim_end_all(cur@, suffix@) == trim_end_all(s@, suffix@),
        decreases cur@.len(),
    {
        let keep = cur.len() - suffix.len();
        let next = slice_vec(cur.as_slice(), 0, keep);
        assert(next@ =~= cur@.take(cur@.len() - suffix@.len()));
        cur = next;
    }
    cur
}

fn slice_vec(cs: &[char], a: usize, b: usize) -> (res: Vec<char>)
    requires
        a <= b <= cs@.len(),
    ensures
        res@ == cs@.subrange(a as int, b as int),
{
    let mut out: Vec<char> = Vec::new();
    let mut i: usize = a;
    while i < b
        invariant
            a <= i <= b,
            b <= cs@.len(),
            out@ == cs@.subrange(a as int, i as int),
        decreases b - i,
    {
        out.push(cs[i]);
        assert(cs@.subrange(a as int, i + 1) =~= cs@.subrange(a as int, i as int).push(cs@[i as int]));
        i = i + 1;
    }
    out
}

fn trimmed(cs: &[char]) -> (res: Vec<char>)
    ensures
        res@ == trim(cs@),
{
    let (a, b) = trim_bounds(cs);
    slice_vec(cs, a, b)
}

/// The timestamp text of a header line, if it is one.
fn stamp_text_exec(line: &[char]) -> (res: Option<Vec<char>>)
    ensures
        match res {
            Some(t) => stamp_text(line@) == Some(t@),
            None => stamp_text(line@) is None,
        },
{
    let prefix = chars_of("<!-- kron-generated:");
    if !crate::text::starts_with_exec(line, prefix.as_slice()) {
        return None;
    }
    let rest = slice_vec(line, prefix.len(), line.len());
    assert(rest@ =~= line@.skip(stamp_prefix().len() as int));
    let a = trimmed(rest.as_slice());
    let b = match find_char(a.as_slice(), '>') {
        Some(i) => {
            proof {
                let j = choose|j: int| first_char_index(a@, '>', j);
                assert(first_char_index(a@, '>', i as int));
                if j < i {
                    assert(a@[j] != '>');
                } else if j > i {
                    assert(a@[i as int] != '>');
                }
            }
            slice_vec(a.as_slice(), 0, i)
        },
        None => a,
    };
    let c = trimmed(b.as_slice());
    let suffix = chars_of(" -->");
    let d = trim_end_all_exec(c, suffix.as_slice());
    let e = trimmed(d.as_slice());
    Some(e)
}

/// The generation time recorded in a document's header (its first three
/// lines), in RFC 3339; `None` when no header line carries a parsable
/// time.
pub fn generated_timestamp(content: &str) -> (res: Option<String>)
    ensures
        match res {
            Some(t) => stamp_in(lines_of(content@), 3) == Some(t@),
            None => stamp_in(lines_of(content@), 3) is None,
        },
{
    let lines = split_lines_inclusive(content);
    let ghost all = views(lines@);
    let mut k: usize = 0;
    assert(all.skip(0) =~= all);
    while k < lines.len() && k < 3
        invariant
            k <= lines@.len(),
            k <= 3,
            all == views(lines@),
            all == lines_of(content@),
            stamp_in(all, 3) == stamp_in(all.skip(k as int), (3 - k) as nat),
        decreases lines@.len() - k,
    {
        let cs = chars_of(lines[k].as_str());
        let (_, e) = strip_eol_exec(cs.as_slice());
        let line = slice_vec(cs.as_slice(), 0, e);
        proof {
            assert(line@ =~= cs@.take(e as int));
            assert(all.skip(k as int)[0] == lines@[k as int]@);
            assert(all.skip(k as int).drop_first() =~= all.skip(k + 1));
        }
        match stamp_text_exec(line.as_slice()) {
            Some(t) => {
                let text = crate::text::string_of(t.as_slice());
                match parse_rfc3339(text.as_str()) {
                    Some(p) => {
                        return Some(p.rfc3339);
                    },
                    None => {},
                }
            },
            None => {},
        }
        k = k + 1;
    }
    proof {
        if k == lines@.len() {
            assert(all.skip(k as int).len() == 0);
        }
    }
    None
}

// ---------------------------------------------------------------------------
// Writing and showing documents
// ---------------------------------------------------------------------------

/// What `kron context show` prints: the document as stored, with the
/// header (stamped `ts`) and a blank line put in front when it carries no
/// `kron-generated:` marker.
pub open spec fn shown_spec(content: Seq<char>, ts: Seq<char>) -> Seq<char> {
    if contains_seq(content, "kron-generated:"@) {
        content
    } else {
        header_spec(ts) + "\n"@ + content
    }
}

pub fn shown_content(content: &str, ts: &str) -> (res: String)
    ensures
        res@ == shown_spec(content@, ts@),
{
    let cs = chars_of(content);
    let marker = chars_of("kron-generated:");
    if crate::text::contains_exec(cs.as_slice(), marker.as_slice()) {
        return owned(content);
    }
    let mut out = file_header(ts);
    out.append("\n");
    out.append(content);
    out
}

/// What is written for a document: the text itself, or, past
/// `MAX_FILE_SIZE` bytes, its first `MAX_FILE_SIZE` bytes and a note.
pub open spec fn to_write_spec(content: Seq<char>) -> Seq<char> {
    if crate::text::bytes_of(content) > MAX_FILE_SIZE {
        crate::text::byte_prefix(content, MAX_FILE_SIZE as nat) + "...\n[TRUNCATED: exceeded 1 MB limit]"@
    } else {
        content
    }
}

/// Whether a document can be cut at `MAX_FILE_SIZE` bytes without
/// splitting a character (the byte slicing panics otherwise).
pub fn cuttable_at_limit(content: &str) -> (res: bool)
    ensures
        res == crate::text::byte_prefix_ok(content@, MAX_FILE_SIZE as nat),
{
    let cs = chars_of(content);
    crate::text::byte_prefix_ok_exec(cs.as_slice(), MAX_FILE_SIZE)
}

/// The text written for a document.
pub fn to_write(content: &str) -> (res: String)
    requires
        crate::text::byte_prefix_ok(content@, MAX_FILE_SIZE as nat),
    ensures
        res@ == to_write_spec(content@),
{
    let cs = chars_of(content);
    let k = crate::text::byte_prefix_len(cs.as_slice(), MAX_FILE_SIZE);
    proof {
        if crate::text::bytes_of(content@) <= MAX_FILE_SIZE {
            if k < cs@.len() {
                assert(cs@.take(k as int).len() == k);
            }
        } else {
            if k == cs@.len() {
                assert(cs@.take(k as int) =~= cs@);
                let j = choose|j: int| 0 <= j <= cs@.len() && crate::text::bytes_of(cs@.take(j)) == MAX_FILE_SIZE;
                crate::text::lemma_bytes_of_prefix(cs@, j, cs@.len() as int);
                assert(cs@.take(cs@.len() as int) =~= cs@);
            }
        }
    }
    if k < cs.len() {
        let mut out = string_of_range(cs.as_slice(), 0, k);
        assert(cs@.subrange(0, k as int) =~= cs@.take(k as int));
        out.append("...\n[TRUNCATED: exceeded 1 MB limit]");
        out
    } else {
        owned(content)
    }
}

} // verus!

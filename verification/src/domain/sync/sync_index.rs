//! The important-file index and the conflict index.
//!
//! Important files are mirrored between their project-side path and
//! `kron-internal/important/files/<path>`; the index
//! (`kron-internal/important/_index.json`) maps each relative path to its
//! last known sync state and the MD5 of its internal copy. Entries are
//! kept ordered by path, as a sorted map.

use vstd::prelude::*;
use crate::error::{KronError, Result};
use crate::model::SyncState;
use crate::paths::{join, join_spec};
use crate::text::{lex_le, lex_le_exec, lemma_lex_total, lemma_lex_trans, owned, str_eq, views};

verus! {

// ---- Paths ----

/// `<root>/kron-internal/important/_index.json`.
pub open spec fn index_path_spec(root: Seq<char>) -> Seq<char> {
    join_spec(join_spec(join_spec(root, "kron-internal"@), "important"@), "_index.json"@)
}

/// Where on disk the index file lives.
pub fn index_path(project_root: &str) -> (res: String)
    ensures
        res@ == index_path_spec(project_root@),
{
    let a = join(project_root, "kron-internal");
    let b = join(a.as_str(), "important");
    join(b.as_str(), "_index.json")
}

/// `<root>/kron-internal/important/files/<rel>`.
pub open spec fn internal_path_spec(root: Seq<char>, rel: Seq<char>) -> Seq<char> {
    join_spec(
        join_spec(join_spec(join_spec(root, "kron-internal"@), "important"@), "files"@),
        rel,
    )
}

/// Map a relative project path to its mirror inside
/// `kron-internal/important/files/`.
pub fn internal_path_for(project_root: &str, rel_path: &str) -> (res: String)
    ensures
        res@ == internal_path_spec(project_root@, rel_path@),
{
    let a = join(project_root, "kron-internal");
    let b = join(a.as_str(), "important");
    let c = join(b.as_str(), "files");
    join(c.as_str(), rel_path)
}

/// Project-side absolute path for a registered file.
pub fn project_path_for(project_root: &str, rel_path: &str) -> (res: String)
    ensures
        res@ == join_spec(project_root@, rel_path@),
{
    join(project_root, rel_path)
}

/// `<root>/kron-internal/conflicts`.
pub open spec fn conflicts_dir_spec(root: Seq<char>) -> Seq<char> {
    join_spec(join_spec(root, "kron-internal"@), "conflicts"@)
}

/// Directory holding conflict records.
pub fn conflicts_dir(project_root: &str) -> (res: String)
    ensures
        res@ == conflicts_dir_spec(project_root@),
{
    let a = join(project_root, "kron-internal");
    join(a.as_str(), "conflicts")
}

/// Path of the index of all known conflicts.
pub fn conflicts_index_path(project_root: &str) -> (res: String)
    ensures
        res@ == join_spec(conflicts_dir_spec(project_root@), "_index.json"@),
{
    let a = conflicts_dir(project_root);
    join(a.as_str(), "_index.json")
}

// ---- MD5 ----

/// The 16-byte MD5 digest of some bytes.
pub uninterp spec fn md5_digest(data: Seq<u8>) -> Seq<u8>;

/// Wraps `md5::compute`: the MD5 digest of `data`, which is 16 bytes long
/// (`md5::Digest` holds a `[u8; 16]`). The digest itself is not stated.
#[verifier::external_body]
fn md5_compute(data: &[u8]) -> (res: Vec<u8>)
    ensures
        res@ == md5_digest(data@),
        res@.len() == 16,
{
    md5::compute(data).0.to_vec()
}

/// Lower-case hexadecimal digit for a value below 16.
pub open spec fn hex_digit(v: nat) -> char {
    if v < 10 {
        (v + 48) as char
    } else {
        (v + 87) as char
    }
}

/// Two lower-case hex digits per byte, most significant first (the
/// `{:x}` formatting of `md5::Digest`).
pub open spec fn hex_lower(bytes: Seq<u8>) -> Seq<char>
    decreases bytes.len(),
{
    if bytes.len() == 0 {
        Seq::empty()
    } else {
        hex_lower(bytes.drop_last()) + seq![
            hex_digit((bytes.last() / 16) as nat),
            hex_digit((bytes.last() % 16) as nat),
        ]
    }
}

fn hex_char(v: u8) -> (res: char)
    requires
        v < 16,
    ensures
        res == hex_digit(v as nat),
{
    if v < 10 {
        (v + 48) as char
    } else {
        (v + 87) as char
    }
}

/// Lower-case hex encoding of some bytes.
pub fn to_hex_lower(bytes: &[u8]) -> (res: String)
    ensures
        res@ == hex_lower(bytes@),
{
    let mut out = String::new();
    let mut i: usize = 0;
    while i < bytes.len()
        invariant
            i <= bytes@.len(),
            out@ == hex_lower(bytes@.take(i as int)),
        decreases bytes@.len() - i,
    {
        let b = bytes[i];
        crate::text::push_char(&mut out, hex_char(b / 16));
        crate::text::push_char(&mut out, hex_char(b % 16));
        proof {
            assert(bytes@.take(i + 1).drop_last() =~= bytes@.take(i as int));
            assert(bytes@.take(i + 1).last() == b);
            assert(out@ =~= hex_lower(bytes@.take(i + 1)));
        }
        i = i + 1;
    }
    assert(bytes@.take(bytes@.len() as int) =~= bytes@);
    out
}

/// Hex encoding doubles the length and yields ASCII digits only.
pub proof fn lemma_hex_lower_shape(bytes: Seq<u8>)
    ensures
        hex_lower(bytes).len() == 2 * bytes.len(),
        forall|i: int| 0 <= i < hex_lower(bytes).len() ==> (#[trigger] hex_lower(bytes)[i] as u32) < 128,
    decreases bytes.len(),
{
    if bytes.len() > 0 {
        lemma_hex_lower_shape(bytes.drop_last());
        let hi = (bytes.last() / 16) as nat;
        let lo = (bytes.last() % 16) as nat;
        assert((hex_digit(hi) as u32) < 128);
        assert((hex_digit(lo) as u32) < 128);
    }
}

/// The MD5 of some bytes as 32 lower-case hex digits.
pub fn md5_hex(data: &[u8]) -> (res: String)
    ensures
        res@ == hex_lower(md5_digest(data@)),
        res@.len() == 32,
        forall|i: int| 0 <= i < res@.len() ==> (#[trigger] res@[i] as u32) < 128,
{
    let d = md5_compute(data);
    proof {
        lemma_hex_lower_shape(d@);
    }
    to_hex_lower(d.as_slice())
}

// ---- Important index ----

/// One tracked important file. Timestamps are RFC 3339 strings.
#[derive(Debug, Clone, PartialEq)]
pub struct ImportantEntry {
    /// Relative path from the project root, e.g. `src/main.rs`.
    pub path: String,
    /// Last known sync state.
    pub sync_state: SyncState,
    /// MD5 of the internal copy at last sync (hex).
    pub internal_hash: String,
    /// When the entry was first added.
    pub added_at: String,
    /// When the entry was last updated.
    pub updated_at: String,
}

impl ImportantEntry {
    /// A field-by-field copy.
    pub fn duplicate(&self) -> (res: ImportantEntry)
        ensures
            res == *self,
    {
        ImportantEntry {
            path: self.path.clone(),
            sync_state: self.sync_state,
            internal_hash: self.internal_hash.clone(),
            added_at: self.added_at.clone(),
            updated_at: self.updated_at.clone(),
        }
    }
}

/// Strict lexicographic order.
pub open spec fn lex_lt(a: Seq<char>, b: Seq<char>) -> bool {
    lex_le(a, b) && a != b
}

/// Entries in strictly increasing path order (so paths are unique).
pub open spec fn strictly_sorted(s: Seq<ImportantEntry>) -> bool {
    forall|i: int, j: int| 0 <= i < j < s.len() ==> lex_lt(s[i].path@, s[j].path@)
}

/// The entry for `k`, if any.
pub open spec fn lookup(s: Seq<ImportantEntry>, k: Seq<char>) -> Option<ImportantEntry> {
    if has_key(s, k) {
        Some(s[key_index(s, k)])
    } else {
        None
    }
}

/// Some entry has path `k`.
pub open spec fn has_key(s: Seq<ImportantEntry>, k: Seq<char>) -> bool {
    exists|i: int| 0 <= i < s.len() && #[trigger] s[i].path@ == k
}

/// A position whose entry has path `k`.
pub open spec fn key_index(s: Seq<ImportantEntry>, k: Seq<char>) -> int {
    choose|i: int| 0 <= i < s.len() && #[trigger] s[i].path@ == k
}

/// The lexicographic order is antisymmetric.
pub proof fn lemma_lex_antisym(a: Seq<char>, b: Seq<char>)
    requires
        lex_le(a, b),
        lex_le(b, a),
    ensures
        a == b,
    decreases a.len(),
{
    if a.len() > 0 && b.len() > 0 && a[0] == b[0] {
        lemma_lex_antisym(a.drop_first(), b.drop_first());
        assert(a =~= seq![a[0]] + a.drop_first());
        assert(b =~= seq![b[0]] + b.drop_first());
    } else if a.len() == 0 && b.len() == 0 {
        assert(a =~= b);
    }
}

/// In a sorted index, the entry at `i` is the lookup result for its path.
pub proof fn lemma_lookup_at(s: Seq<ImportantEntry>, i: int)
    requires
        strictly_sorted(s),
        0 <= i < s.len(),
    ensures
        lookup(s, s[i].path@) == Some(s[i]),
{
    let k = s[i].path@;
    assert(has_key(s, k));
    let j = key_index(s, k);
    if j != i {
        if j < i {
            assert(lex_lt(s[j].path@, s[i].path@));
        } else {
            assert(lex_lt(s[i].path@, s[j].path@));
        }
    }
    assert(j == i);
    assert(lookup(s, k) == Some(s[j]));
}

/// The sorted map of important files.
pub struct ImportantIndex {
    files: Vec<ImportantEntry>,
}

impl View for ImportantIndex {
    type V = Seq<ImportantEntry>;

    closed spec fn view(&self) -> Seq<ImportantEntry> {
        self.files@
    }
}

impl ImportantIndex {
    #[verifier::type_invariant]
    spec fn sorted_by_path(self) -> bool {
        strictly_sorted(self.files@)
    }

    /// An empty index (what a missing or unreadable index file reads as).
    pub fn new() -> (res: Self)
        ensures
            res@.len() == 0,
    {
        ImportantIndex { files: Vec::new() }
    }

    /// The entries, in increasing path order.
    pub fn entries(&self) -> (res: &[ImportantEntry])
        ensures
            res@ == self@,
            strictly_sorted(self@),
    {
        proof {
            use_type_invariant(self);
        }
        self.files.as_slice()
    }

    /// An owned copy of the entries, in increasing path order.
    pub fn snapshot(&self) -> (res: Vec<ImportantEntry>)
        ensures
            res@ == self@,
            strictly_sorted(self@),
    {
        proof {
            use_type_invariant(self);
        }
        let mut out: Vec<ImportantEntry> = Vec::new();
        let mut i: usize = 0;
        while i < self.files.len()
            invariant
                i <= self.files@.len(),
                out@ == self.files@.take(i as int),
            decreases self.files@.len() - i,
        {
            out.push(self.files[i].duplicate());
            proof {
                assert(self.files@.take(i + 1) =~= self.files@.take(i as int).push(self.files@[i as int]));
            }
            i = i + 1;
        }
        proof {
            assert(self.files@.take(self.files@.len() as int) =~= self.files@);
        }
        out
    }

    /// Number of tracked files.
    pub fn len(&self) -> (res: usize)
        ensures
            res == self@.len(),
    {
        self.files.len()
    }

    /// First position whose path is not below `k`.
    fn lower_bound(&self, k: &str) -> (res: usize)
        ensures
            res <= self@.len(),
            forall|j: int| 0 <= j < res ==> lex_lt(#[trigger] self@[j].path@, k@),
            res < self@.len() ==> lex_le(k@, self@[res as int].path@),
    {
        let mut i: usize = 0;
        while i < self.files.len()
            invariant
                i <= self.files@.len(),
                forall|j: int| 0 <= j < i ==> lex_lt(#[trigger] self.files@[j].path@, k@),
            decreases self.files@.len() - i,
        {
            let p = self.files[i].path.as_str();
            if lex_le_exec(k, p) {
                return i;
            }
            proof {
                lemma_lex_total(k@, p@);
                if p@ == k@ {
                    assert(false);
                }
            }
            i = i + 1;
        }
        i
    }

    /// The entry for `rel`, if tracked.
    pub fn get(&self, rel: &str) -> (res: Option<ImportantEntry>)
        ensures
            res == lookup(self@, rel@),
    {
        proof {
            use_type_invariant(self);
        }
        let i = self.lower_bound(rel);
        if i < self.files.len() && str_eq(self.files[i].path.as_str(), rel) {
            proof {
                lemma_lookup_at(self.files@, i as int);
            }
            Some(self.files[i].duplicate())
        } else {
            proof {
                if exists|j: int| 0 <= j < self@.len() && self@[j].path@ == rel@ {
                    let j = choose|j: int| 0 <= j < self@.len() && self@[j].path@ == rel@;
                    if j < i {
                        assert(lex_lt(self@[j].path@, rel@));
                    } else if j > i {
                        assert(lex_lt(self@[i as int].path@, self@[j].path@));
                        lemma_lex_antisym(rel@, self@[i as int].path@);
                    }
                }
            }
            None
        }
    }

    /// Whether `rel` is tracked.
    pub fn contains_key(&self, rel: &str) -> (res: bool)
        ensures
            res == (lookup(self@, rel@) is Some),
    {
        self.get(rel).is_some()
    }

    /// Insert `entry`, replacing the entry with the same path if any.
    pub fn upsert(&mut self, entry: ImportantEntry)
        ensures
            lookup(final(self)@, entry.path@) == Some(entry),
            forall|k: Seq<char>| k != entry.path@ ==> lookup(final(self)@, k) == lookup(
                old(self)@,
                k,
            ),
            final(self)@.len() == old(self)@.len() + (if lookup(old(self)@, entry.path@) is Some {
                0int
            } else {
                1int
            }),
    {
        proof {
            use_type_invariant(&*self);
        }
        let i = self.lower_bound(entry.path.as_str());
        let ghost old_files = self.files@;
        let mut files: Vec<ImportantEntry> = Vec::new();
        let mut j: usize = 0;
        while j < self.files.len()
            invariant
                j <= self.files@.len(),
                self.files@ == old_files,
                files@ == old_files.take(j as int),
            decreases self.files@.len() - j,
        {
            files.push(self.files[j].duplicate());
            assert(files@ =~= old_files.take(j + 1));
            j = j + 1;
        }
        assert(old_files.take(old_files.len() as int) =~= old_files);
        let replace = i < files.len() && str_eq(files[i].path.as_str(), entry.path.as_str());
        let ghost e = entry;
        if replace {
            files.set(i, entry);
        } else {
            files.insert(i, entry);
        }
        proof {
            let n = files@;
            let k0 = e.path@;
            if replace {
                assert(n == old_files.update(i as int, e));
            } else {
                assert(n == old_files.insert(i as int, e));
            }
            assert forall|a: int, b: int| 0 <= a < b < n.len() implies lex_lt(n[a].path@, n[b].path@) by {
                if replace {
                    if a == i {
                        assert(lex_lt(old_files[a].path@, old_files[b].path@));
                    } else if b == i {
                        assert(lex_lt(old_files[a].path@, old_files[b].path@));
                    }
                } else {
                    if a < i && b == i {
                    } else if a == i && b > i {
                        let c = old_files[b - 1].path@;
                        assert(lex_le(k0, old_files[i as int].path@));
                        if b - 1 > i {
                            assert(lex_lt(old_files[i as int].path@, c));
                            lemma_lex_trans(k0, old_files[i as int].path@, c);
                            if k0 == c {
                                lemma_lex_antisym(old_files[i as int].path@, c);
                            }
                        } else {
                            assert(k0 != c);
                        }
                    } else if a < i && b > i {
                        assert(lex_lt(old_files[a].path@, old_files[b - 1].path@));
                    } else if a > i {
                        assert(lex_lt(old_files[a - 1].path@, old_files[b - 1].path@));
                    }
                }
            }
            let pos = i as int;
            assert(n[pos] == e);
            lemma_lookup_at(n, pos);
            assert forall|k: Seq<char>| k != k0 implies lookup(n, k) == lookup(old_files, k) by {
                if exists|x: int| 0 <= x < old_files.len() && old_files[x].path@ == k {
                    let x = choose|x: int| 0 <= x < old_files.len() && old_files[x].path@ == k;
                    lemma_lookup_at(old_files, x);
                    let y = if replace || x < i { x } else { x + 1 };
                    assert(n[y] == old_files[x]);
                    lemma_lookup_at(n, y);
                } else if exists|y: int| 0 <= y < n.len() && n[y].path@ == k {
                    let y = choose|y: int| 0 <= y < n.len() && n[y].path@ == k;
                    if y != pos {
                        let x = if replace || y < i { y } else { y - 1 };
                        assert(old_files[x] == n[y]);
                    }
                }
            }
            if replace {
                lemma_lookup_at(old_files, pos);
            } else {
                if exists|x: int| 0 <= x < old_files.len() && old_files[x].path@ == k0 {
                    let x = choose|x: int| 0 <= x < old_files.len() && old_files[x].path@ == k0;
                    if x < i {
                        assert(lex_lt(old_files[x].path@, k0));
                    } else {
                        if x > i {
                            assert(lex_lt(old_files[pos].path@, old_files[x].path@));
                        }
                        lemma_lex_antisym(k0, old_files[pos].path@);
                    }
                }
            }
        }
        self.files = files;
    }

    /// Set the sync state of one entry at time `now` (no-op if untracked).
    pub fn update_state(&mut self, rel: &str, state: SyncState, now: &str)
        ensures
            lookup(old(self)@, rel@) is None ==> final(self)@ == old(self)@,
            lookup(old(self)@, rel@) matches Some(e) ==> (lookup(final(self)@, rel@) matches Some(
                f,
            ) && f.path == e.path && f.sync_state == state && f.internal_hash == e.internal_hash
                && f.added_at == e.added_at && f.updated_at@ == now@),
            forall|k: Seq<char>| k != rel@ ==> lookup(final(self)@, k) == lookup(old(self)@, k),
    {
        match self.get(rel) {
            None => {},
            Some(e) => {
                let f = ImportantEntry { sync_state: state, updated_at: owned(now), ..e };
                self.upsert(f);
            },
        }
    }

    /// Remove a path from the index (files are not touched). Returns
    /// whether it was tracked.
    pub fn remove_entry(&mut self, rel: &str) -> (res: bool)
        ensures
            res == (lookup(old(self)@, rel@) is Some),
            lookup(final(self)@, rel@) is None,
            forall|k: Seq<char>| k != rel@ ==> lookup(final(self)@, k) == lookup(old(self)@, k),
    {
        proof {
            use_type_invariant(&*self);
        }
        let i = self.lower_bound(rel);
        if i < self.files.len() && str_eq(self.files[i].path.as_str(), rel) {
            let ghost old_files = self.files@;
            let mut files: Vec<ImportantEntry> = Vec::new();
            let mut j: usize = 0;
            while j < self.files.len()
                invariant
                    j <= self.files@.len(),
                    self.files@ == old_files,
                    i < old_files.len(),
                    files@ == (if j <= i {
                        old_files.take(j as int)
                    } else {
                        old_files.take(j as int).remove(i as int)
                    }),
                decreases self.files@.len() - j,
            {
                if j != i {
                    files.push(self.files[j].duplicate());
                }
                proof {
                    if j < i {
                        assert(files@ =~= old_files.take(j + 1));
                    } else if j == i {
                        assert(old_files.take(j + 1).remove(i as int) =~= old_files.take(j as int));
                    } else {
                        assert(files@ =~= old_files.take(j + 1).remove(i as int));
                    }
                }
                j = j + 1;
            }
            proof {
                assert(old_files.take(old_files.len() as int) =~= old_files);
                let n = files@;
                assert(n == old_files.remove(i as int));
                lemma_lookup_at(old_files, i as int);
                assert forall|a: int, b: int| 0 <= a < b < n.len() implies lex_lt(n[a].path@, n[b].path@) by {
                    let a2 = if a < i { a } else { a + 1 };
                    let b2 = if b < i { b } else { b + 1 };
                    assert(n[a] == old_files[a2] && n[b] == old_files[b2]);
                }
                assert forall|y: int| 0 <= y < n.len() implies n[y].path@ != rel@ by {
                    let y2 = if y < i { y } else { y + 1 };
                    assert(n[y] == old_files[y2]);
                    if y2 < i {
                        assert(lex_lt(old_files[y2].path@, old_files[i as int].path@));
                    } else {
                        assert(lex_lt(old_files[i as int].path@, old_files[y2].path@));
                    }
                }
                assert forall|k: Seq<char>| k != rel@ implies lookup(n, k) == lookup(old_files, k) by {
                    if exists|x: int| 0 <= x < old_files.len() && old_files[x].path@ == k {
                        let x = choose|x: int| 0 <= x < old_files.len() && old_files[x].path@ == k;
                        lemma_lookup_at(old_files, x);
                        assert(x != i);
                        let y = if x < i { x } else { x - 1 };
                        assert(n[y] == old_files[x]);
                        lemma_lookup_at(n, y);
                    } else if exists|y: int| 0 <= y < n.len() && n[y].path@ == k {
                        let y = choose|y: int| 0 <= y < n.len() && n[y].path@ == k;
                        let x = if y < i { y } else { y + 1 };
                        assert(old_files[x] == n[y]);
                    }
                }
            }
            self.files = files;
            true
        } else {
            proof {
                if exists|j: int| 0 <= j < self@.len() && self@[j].path@ == rel@ {
                    let j = choose|j: int| 0 <= j < self@.len() && self@[j].path@ == rel@;
                    if j < i {
                        assert(lex_lt(self@[j].path@, rel@));
                    } else if j > i {
                        assert(lex_lt(self@[i as int].path@, self@[j].path@));
                        lemma_lex_antisym(rel@, self@[i as int].path@);
                    }
                }
            }
            false
        }
    }
}

impl ImportantIndex {
    /// Register `rel` as important at time `now`. A new entry starts
    /// `Synced` and added at `now`; an existing one keeps its state and
    /// addition time. `project_file` holds the bytes of the project-side
    /// file, or is `None` when it does not exist: then the error is
    /// `NotFound(<root>/<rel>)` and the hash is left as it was. Otherwise
    /// the hash becomes the MD5 of the bytes (which the caller mirrors into
    /// `internal_path_for(rel)` before saving the index).
    pub fn register(&mut self, project_root: &str, rel: &str, now: &str, project_file: Option<&[u8]>) -> (res: Result<()>)
        ensures
            forall|k: Seq<char>| k != rel@ ==> lookup(final(self)@, k) == lookup(old(self)@, k),
            project_file is None ==> (res matches Err(KronError::NotFound(p)) && p@ == join_spec(project_root@, rel@)),
            project_file is Some ==> res is Ok,
            lookup(final(self)@, rel@) matches Some(f) && f.path@ == rel@ && f.updated_at@ == now@
                && (match lookup(old(self)@, rel@) {
                    Some(e) => f.sync_state == e.sync_state && f.added_at == e.added_at,
                    None => f.sync_state == SyncState::Synced && f.added_at@ == now@,
                })
                && (match project_file {
                    Some(d) => f.internal_hash@ == hex_lower(md5_digest(d@)),
                    None => match lookup(old(self)@, rel@) {
                        Some(e) => f.internal_hash == e.internal_hash,
                        None => f.internal_hash@.len() == 0,
                    },
                }),
    {
        let base = match self.get(rel) {
            Some(e) => e,
            None => ImportantEntry {
                path: owned(rel),
                sync_state: SyncState::Synced,
                internal_hash: String::new(),
                added_at: owned(now),
                updated_at: owned(now),
            },
        };
        proof {
            if lookup(old(self)@, rel@) is Some {
                let s = old(self)@;
                assert(s[key_index(s, rel@)].path@ == rel@);
            }
        }
        match project_file {
            None => {
                let e = ImportantEntry { updated_at: owned(now), ..base };
                self.upsert(e);
                Err(KronError::NotFound(join(project_root, rel)))
            },
            Some(d) => {
                let e = ImportantEntry { updated_at: owned(now), internal_hash: md5_hex(d), ..base };
                self.upsert(e);
                Ok(())
            },
        }
    }
}

/// Append-only registry of all known conflict ids, in insertion order.
#[derive(Debug, Clone, PartialEq)]
pub struct ConflictIndex {
    pub ids: Vec<String>,
}

impl ConflictIndex {
    /// An empty index.
    pub fn new() -> (res: Self)
        ensures
            res.ids@.len() == 0,
    {
        ConflictIndex { ids: Vec::new() }
    }

    /// Record a conflict id unless already known. Returns whether the index
    /// changed (the caller then saves it).
    pub fn add(&mut self, id: &str) -> (res: bool)
        ensures
            res == !views(old(self).ids@).contains(id@),
            res ==> views(final(self).ids@) == views(old(self).ids@).push(id@),
            !res ==> final(self).ids@ == old(self).ids@,
    {
        let mut i: usize = 0;
        while i < self.ids.len()
            invariant
                i <= self.ids@.len(),
                forall|k: int| 0 <= k < i ==> self.ids@[k]@ != id@,
            decreases self.ids@.len() - i,
        {
            if str_eq(self.ids[i].as_str(), id) {
                assert(views(self.ids@)[i as int] == id@);
                return false;
            }
            i = i + 1;
        }
        proof {
            if views(self.ids@).contains(id@) {
                let k = choose|k: int| 0 <= k < views(self.ids@).len() && views(self.ids@)[k] == id@;
                assert(self.ids@[k]@ == id@);
            }
        }
        self.ids.push(owned(id));
        assert(views(self.ids@) =~= views(old(self).ids@).push(id@));
        true
    }
}

/// Adding a conflict id that is already known changes nothing, so adding
/// the same id twice is the same as adding it once.
pub proof fn lemma_conflict_index_add_idempotent(ids: Seq<Seq<char>>, id: Seq<char>)
    ensures
        (if ids.contains(id) { ids } else { ids.push(id) }).contains(id),
{
    if !ids.contains(id) {
        assert(ids.push(id).last() == id);
    }
}

} // verus!

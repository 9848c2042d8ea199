//! `kron important`: which paths may be registered, and how registering,
//! removing and showing a file change or read the index.

use vstd::prelude::*;
use crate::domain::sync::conflict::{find_pending_conflict_for, first_pending, has_pending};
use crate::domain::sync::sync_index::{hex_lower, lookup, md5_digest, md5_hex, ImportantEntry, ImportantIndex};
use crate::error::{KronError, Result};
use crate::model::{ConflictRecord, SyncState};
use crate::text::{chars_of, owned, push_char, trim, trim_bounds};

verus! {

/// `s` without one leading `./` or `.\`.
pub open spec fn strip_dot_prefix(s: Seq<char>) -> Seq<char> {
    if s.len() >= 2 && s[0] == '.' && (s[1] == '/' || s[1] == '\\') {
        s.skip(2)
    } else {
        s
    }
}

/// A `..` segment starts at `i` of `s` (segments are separated by `/`).
pub open spec fn parent_segment_at(s: Seq<char>, i: int) -> bool {
    &&& 0 <= i
    &&& i + 2 <= s.len()
    &&& s[i] == '.'
    &&& s[i + 1] == '.'
    &&& (i == 0 || s[i - 1] == '/')
    &&& (i + 2 == s.len() || s[i + 2] == '/')
}

pub open spec fn has_parent_segment(s: Seq<char>) -> bool {
    exists|i: int| #[trigger] parent_segment_at(s, i)
}

/// `s` with every `\` replaced by `/`.
pub open spec fn forward_slashes(s: Seq<char>) -> Seq<char> {
    s.map_values(|c: char| if c == '\\' { '/' } else { c })
}

/// The project-relative form of a user-given path, or why it is refused:
/// surrounding whitespace and one leading `./` (or `.\`) are dropped and
/// backslashes become forward slashes; then an empty path, an absolute one
/// and one with a `..` segment are refused.
pub open spec fn normalize_rel_spec(path: Seq<char>) -> core::result::Result<Seq<char>, Seq<char>> {
    let t = trim(path);
    let u = forward_slashes(strip_dot_prefix(t));
    if t.len() == 0 {
        Err("path must not be empty"@)
    } else if u.len() > 0 && u[0] == '/' {
        Err("path must be relative to project root (no leading '/')"@)
    } else if has_parent_segment(u) {
        Err("path may not contain '..'"@)
    } else {
        Ok(u)
    }
}

/// Normalise a user-given path to the project-relative form the index uses.
pub fn normalize_rel(path: &str) -> (res: Result<String>)
    ensures
        match normalize_rel_spec(path@) {
            Ok(p) => res matches Ok(s) && s@ == p,
            Err(m) => res matches Err(KronError::Cli(e)) && e@ == m,
        },
{
    let cs = chars_of(path);
    let (a, b) = trim_bounds(cs.as_slice());
    if a == b {
        return Err(KronError::Cli(owned("path must not be empty")));
    }
    let ghost t = cs@.subrange(a as int, b as int);
    let start = if b - a >= 2 && cs[a] == '.' && (cs[a + 1] == '/' || cs[a + 1] == '\\') {
        a + 2
    } else {
        a
    };
    let ghost w = cs@.subrange(start as int, b as int);
    assert(w =~= strip_dot_prefix(t));
    let ghost u = forward_slashes(w);
    let mut v: Vec<char> = Vec::new();
    let mut k: usize = start;
    while k < b
        invariant
            start <= k <= b,
            b <= cs@.len(),
            w == cs@.subrange(start as int, b as int),
            v@ == forward_slashes(w.take(k - start)),
        decreases b - k,
    {
        let c = cs[k];
        v.push(if c == '\\' { '/' } else { c });
        proof {
            assert(w.take(k + 1 - start) =~= w.take(k - start).push(w[k - start]));
            assert(forward_slashes(w.take(k + 1 - start)) =~= forward_slashes(w.take(k - start)).push(
                if w[k - start] == '\\' { '/' } else { w[k - start] },
            ));
        }
        k = k + 1;
    }
    proof {
        assert(w.take(b - start) =~= w);
    }
    assert(v@ == u);
    assert(t == trim(path@));
    let n = v.len();
    if n > 0 && v[0] == '/' {
        return Err(KronError::Cli(owned("path must be relative to project root (no leading '/')")));
    }
    let mut i: usize = 0;
    while i < n && n - i > 1
        invariant
            n == v@.len(),
            v@ == u,
            i <= n,
            t == trim(path@),
            t.len() > 0,
            u == forward_slashes(strip_dot_prefix(t)),
            !(u.len() > 0 && u[0] == '/'),
            forall|j: int| 0 <= j < i ==> !#[trigger] parent_segment_at(u, j),
        decreases n - i,
    {
        if v[i] == '.' && v[i + 1] == '.' && (i == 0 || v[i - 1] == '/') && (i + 2 == n || v[i + 2] == '/') {
            assert(parent_segment_at(u, i as int));
            return Err(KronError::Cli(owned("path may not contain '..'")));
        }
        i = i + 1;
    }
    proof {
        assert forall|j: int| !#[trigger] parent_segment_at(u, j) by {
            if 0 <= j < i {
            } else if j >= i && parent_segment_at(u, j) {
                assert(j + 2 <= u.len());
            }
        }
    }
    Ok(crate::text::string_of(v.as_slice()))
}

/// `normalize_rel`, for callers outside the command layer.
pub fn normalize_rel_for_test(path: &str) -> (res: Result<String>)
    ensures
        match normalize_rel_spec(path@) {
            Ok(p) => res matches Ok(s) && s@ == p,
            Err(m) => res matches Err(KronError::Cli(e)) && e@ == m,
        },
{
    normalize_rel(path)
}

/// Register `rel` as important after mirroring `data` (its project-side
/// bytes) at time `now`: the entry is synced, carries the MD5 of `data`
/// and keeps its first registration time.
pub fn mark_added(index: &mut ImportantIndex, rel: &str, data: &[u8], now: &str)
    ensures
        lookup(final(index)@, rel@) matches Some(f) && f.path@ == rel@ && f.sync_state == SyncState::Synced
            && f.internal_hash@ == hex_lower(md5_digest(data@)) && f.updated_at@ == now@ && (match lookup(
            old(index)@,
            rel@,
        ) {
            Some(e) => f.added_at == e.added_at,
            None => f.added_at@ == now@,
        }),
        forall|k: Seq<char>| k != rel@ ==> #[trigger] lookup(final(index)@, k) == lookup(old(index)@, k),
{
    let hash = md5_hex(data);
    match index.get(rel) {
        Some(e) => {
            let f = ImportantEntry {
                sync_state: SyncState::Synced,
                internal_hash: hash,
                updated_at: owned(now),
                ..e
            };
            index.upsert(f);
        },
        None => {
            let f = ImportantEntry {
                path: owned(rel),
                sync_state: SyncState::Synced,
                internal_hash: hash,
                added_at: owned(now),
                updated_at: owned(now),
            };
            index.upsert(f);
        },
    }
}

pub open spec fn not_registered_message(rel: Seq<char>) -> Seq<char> {
    "'"@ + rel + "' is not registered as important"@
}

/// The entry of a registered path, or the refusal for an unregistered one.
pub fn registered_entry(index: &ImportantIndex, rel: &str) -> (res: Result<ImportantEntry>)
    ensures
        match lookup(index@, rel@) {
            Some(e) => res == Ok::<ImportantEntry, KronError>(e),
            None => res matches Err(KronError::Cli(m)) && m@ == not_registered_message(rel@),
        },
{
    match index.get(rel) {
        Some(e) => Ok(e),
        None => Err(KronError::Cli(not_registered(rel))),
    }
}

fn not_registered(rel: &str) -> (res: String)
    ensures
        res@ == not_registered_message(rel@),
{
    let mut m = owned("'");
    m.append(rel);
    m.append("' is not registered as important");
    m
}

/// Unregister `rel`. An unregistered path is refused, and so is a removal
/// without `force`; in both cases the index is unchanged.
pub fn remove_registered(index: &mut ImportantIndex, rel: &str, force: bool) -> (res: Result<()>)
    ensures
        lookup(old(index)@, rel@) is None ==> (res matches Err(KronError::Cli(m)) && m@
            == not_registered_message(rel@)),
        lookup(old(index)@, rel@) is Some && !force ==> (res matches Err(KronError::Cli(m)) && m@
            == "remove '"@ + rel@ + "' requires --force"@),
        res is Err ==> final(index)@ == old(index)@,
        res is Ok <==> (lookup(old(index)@, rel@) is Some && force),
        res is Ok ==> lookup(final(index)@, rel@) is None && forall|k: Seq<char>|
            k != rel@ ==> #[trigger] lookup(final(index)@, k) == lookup(old(index)@, k),
{
    if !index.contains_key(rel) {
        return Err(KronError::Cli(not_registered(rel)));
    }
    if !force {
        let mut m = owned("remove '");
        m.append(rel);
        m.append("' requires --force");
        return Err(KronError::Cli(m));
    }
    index.remove_entry(rel);
    Ok(())
}

/// The conflict a listed file points at: for a file in conflict, the first
/// pending conflict recorded on its path.
pub fn row_conflict_id(entry: &ImportantEntry, records: &[ConflictRecord]) -> (res: Option<String>)
    ensures
        entry.sync_state != SyncState::Conflict ==> res is None,
        entry.sync_state == SyncState::Conflict ==> match res {
            Some(id) => exists|i: int| first_pending(records@, entry.path@, i) && records@[i].id@ == id@,
            None => !has_pending(records@, entry.path@),
        },
{
    if entry.sync_state != SyncState::Conflict {
        return None;
    }
    match find_pending_conflict_for(records, entry.path.as_str()) {
        Some(i) => Some(records[i].id.clone()),
        None => None,
    }
}

} // verus!

//! Conflict detection and resolution.
//!
//! A scan walks every entry of the important index, hashes the project
//! and internal copies that exist, and decides each file's `SyncState`.
//! When both copies exist and their MD5s differ, a conflict is recorded
//! under `kron-internal/conflicts/<id>/` unless a pending conflict for the
//! same path is already on record, so re-running a scan never duplicates
//! one. Resolving a pending conflict picks a side (or ignores it); a
//! conflict that is no longer pending cannot be resolved again.

use vstd::prelude::*;
use crate::clock::utc_now;
use crate::domain::sync::sync_index::{
    conflicts_dir, conflicts_dir_spec, hex_lower, lemma_hex_lower_shape, lookup, md5_digest,
    md5_hex, strictly_sorted, ImportantEntry, ImportantIndex,
};
use crate::error::{KronError, Result};
use crate::model::{ConflictRecord, ConflictResolution, ConflictStatus, SyncPair, SyncState};
use crate::paths::{join, join_spec};
use crate::text::{byte_prefix, byte_prefix_len, byte_prefix_ok, lemma_byte_prefix_ascii, chars_of, clone_opt, is_ascii_alnum, lower_char, lower_char_exec, owned, push_char, str_eq};

verus! {

// ---------------------------------------------------------------------------
// Classification
// ---------------------------------------------------------------------------

/// The sync state of one (project, internal) pair. With both copies gone
/// the recorded state stands (`Synced` when there is none); with one copy
/// the state names that side; with both, equal hashes mean `Synced` and
/// different ones `Conflict`.
pub open spec fn classify_spec(
    project_exists: bool,
    internal_exists: bool,
    project_hash: Seq<char>,
    internal_hash: Seq<char>,
    recorded: Option<SyncState>,
) -> SyncState {
    if !project_exists && !internal_exists {
        match recorded {
            Some(s) => s,
            None => SyncState::Synced,
        }
    } else if project_exists && !internal_exists {
        SyncState::ProjectOnly
    } else if !project_exists && internal_exists {
        SyncState::InternalOnly
    } else if project_hash == internal_hash {
        SyncState::Synced
    } else {
        SyncState::Conflict
    }
}

/// Classify one (project, internal) pair into a `SyncState`.
pub fn classify(
    project_exists: bool,
    internal_exists: bool,
    project_hash: &str,
    internal_hash: &str,
    recorded: Option<SyncState>,
) -> (res: SyncState)
    ensures
        res == classify_spec(project_exists, internal_exists, project_hash@, internal_hash@, recorded),
{
    match (project_exists, internal_exists) {
        (false, false) => match recorded {
            Some(s) => s,
            None => SyncState::Synced,
        },
        (true, false) => SyncState::ProjectOnly,
        (false, true) => SyncState::InternalOnly,
        (true, true) => {
            if str_eq(project_hash, internal_hash) {
                SyncState::Synced
            } else {
                SyncState::Conflict
            }
        },
    }
}

// ---------------------------------------------------------------------------
// Conflict ids
// ---------------------------------------------------------------------------

/// How many bytes of the project hash go into a conflict id.
pub const SHORT_HASH_BYTES: usize = 6;

/// The first `SHORT_HASH_BYTES` bytes of the hash (all of it when
/// shorter) end on a character boundary.
pub open spec fn short_hash_ok(s: Seq<char>) -> bool {
    byte_prefix_ok(s, SHORT_HASH_BYTES as nat)
}

/// The characters making up the first `SHORT_HASH_BYTES` bytes of `s`.
pub open spec fn short_hash(s: Seq<char>) -> Seq<char> {
    byte_prefix(s, SHORT_HASH_BYTES as nat)
}

/// Path characters kept in a conflict id: ASCII letters and digits in
/// lower case; everything else becomes `_`.
pub open spec fn slug_char(c: char) -> char {
    if is_ascii_alnum(c) {
        lower_char(c)
    } else {
        '_'
    }
}

pub open spec fn slug(s: Seq<char>) -> Seq<char> {
    s.map_values(|c: char| slug_char(c))
}

/// `<timestamp>_<short hash>_<slug of the path>`.
pub open spec fn conflict_id_spec(ts: Seq<char>, rel: Seq<char>, hash: Seq<char>) -> Seq<char> {
    ts + "_"@ + short_hash(hash) + "_"@ + slug(rel)
}

/// An ASCII hash of at least `SHORT_HASH_BYTES` characters is cut after
/// that many characters.
pub proof fn lemma_short_hash_ascii(s: Seq<char>)
    requires
        s.len() >= SHORT_HASH_BYTES,
        forall|i: int| 0 <= i < s.len() ==> (#[trigger] s[i] as u32) < 128,
    ensures
        short_hash_ok(s),
        short_hash(s) == s.take(SHORT_HASH_BYTES as int),
{
    lemma_byte_prefix_ascii(s, SHORT_HASH_BYTES as nat);
    if s.len() == SHORT_HASH_BYTES {
        assert(s.take(SHORT_HASH_BYTES as int) =~= s);
    }
}

/// `c` as it stands in a conflict id.
fn slug_char_exec(c: char) -> (res: char)
    ensures
        res == slug_char(c),
{
    if ('0' <= c && c <= '9') || ('a' <= c && c <= 'z') || ('A' <= c && c <= 'Z') {
        lower_char_exec(c)
    } else {
        '_'
    }
}

/// The conflict id for `rel_path` at time `ts` (`YYYYMMDD_HHMMSS`).
pub fn conflict_id_for(ts: &str, rel_path: &str, project_hash: &str) -> (res: String)
    requires
        short_hash_ok(project_hash@),
    ensures
        res@ == conflict_id_spec(ts@, rel_path@, project_hash@),
{
    let hash = chars_of(project_hash);
    let n = byte_prefix_len(hash.as_slice(), SHORT_HASH_BYTES);
    proof {
        reveal_strlit("_");
    }
    let mut out = owned(ts);
    push_char(&mut out, '_');
    let mut i: usize = 0;
    while i < n
        invariant
            n <= hash@.len(),
            out@ == ts@ + "_"@ + hash@.take(i as int),
            i <= n,
        decreases n - i,
    {
        push_char(&mut out, hash[i]);
        proof {
            reveal_strlit("_");
            assert(hash@.take(i + 1) =~= hash@.take(i as int).push(hash@[i as int]));
        }
        i = i + 1;
    }
    push_char(&mut out, '_');
    let path = chars_of(rel_path);
    let ghost head = out@;
    let mut j: usize = 0;
    while j < path.len()
        invariant
            j <= path@.len(),
            out@ == head + slug(path@.take(j as int)),
        decreases path@.len() - j,
    {
        push_char(&mut out, slug_char_exec(path[j]));
        proof {
            assert(slug(path@.take(j + 1)) =~= slug(path@.take(j as int)).push(slug_char(path@[j as int])));
        }
        j = j + 1;
    }
    proof {
        assert(path@.take(path@.len() as int) =~= path@);
        assert(head =~= ts@ + "_"@ + short_hash(project_hash@) + "_"@);
    }
    out
}

/// A fresh conflict id for `rel_path`, stamped with the current time in
/// the compact `YYYYMMDD_HHMMSS` form.
pub fn generate_conflict_id(rel_path: &str, project_hash: &str) -> (res: String)
    requires
        short_hash_ok(project_hash@),
    ensures
        exists|ts: Seq<char>| crate::clock::compact_stamp(ts) && res@ == conflict_id_spec(ts, rel_path@, project_hash@),
{
    let now = utc_now();
    let id = conflict_id_for(now.compact.as_str(), rel_path, project_hash);
    assert(id@ == conflict_id_spec(now.compact@, rel_path@, project_hash@));
    id
}

// ---------------------------------------------------------------------------
// Scanning
// ---------------------------------------------------------------------------

/// What a scan read for one index entry: the bytes of each copy that
/// exists (`None` for a missing copy).
pub struct FileCopies {
    pub project: Option<Vec<u8>>,
    pub internal: Option<Vec<u8>>,
}

/// The hash a scan uses for a copy: the MD5 of its bytes when it was read,
/// else `fallback`.
pub open spec fn copy_hash(copy: Option<Vec<u8>>, fallback: Seq<char>) -> Seq<char> {
    match copy {
        Some(v) => hex_lower(md5_digest(v@)),
        None => fallback,
    }
}

/// `r` is a pending conflict on `rel`.
pub open spec fn is_pending_for(r: ConflictRecord, rel: Seq<char>) -> bool {
    r.relative_path@ == rel && r.status == ConflictStatus::Pending
}

pub open spec fn has_pending(records: Seq<ConflictRecord>, rel: Seq<char>) -> bool {
    exists|i: int| 0 <= i < records.len() && is_pending_for(#[trigger] records[i], rel)
}

/// `i` is the first pending conflict on `rel`.
pub open spec fn first_pending(records: Seq<ConflictRecord>, rel: Seq<char>, i: int) -> bool {
    &&& 0 <= i < records.len()
    &&& is_pending_for(records[i], rel)
    &&& forall|j: int| 0 <= j < i ==> !is_pending_for(#[trigger] records[j], rel)
}

/// The id of the first pending conflict on `rel`.
pub open spec fn pending_id(records: Seq<ConflictRecord>, rel: Seq<char>) -> Seq<char> {
    records[choose|i: int| first_pending(records, rel, i)].id@
}

/// There is only one first pending conflict.
pub proof fn lemma_first_pending_unique(records: Seq<ConflictRecord>, rel: Seq<char>, i: int)
    requires
        first_pending(records, rel, i),
    ensures
        pending_id(records, rel) == records[i].id@,
{
    let j = choose|j: int| first_pending(records, rel, j);
    assert(first_pending(records, rel, j));
    if j < i {
        assert(!is_pending_for(records[j], rel));
    } else if j > i {
        assert(!is_pending_for(records[i], rel));
    }
}

/// Position of the first pending conflict recorded for `rel`.
pub fn find_pending_conflict_for(records: &[ConflictRecord], rel: &str) -> (res: Option<usize>)
    ensures
        match res {
            Some(i) => first_pending(records@, rel@, i as int),
            None => !has_pending(records@, rel@),
        },
{
    let mut i: usize = 0;
    while i < records.len()
        invariant
            i <= records@.len(),
            forall|j: int| 0 <= j < i ==> !is_pending_for(#[trigger] records@[j], rel@),
        decreases records@.len() - i,
    {
        if str_eq(records[i].relative_path.as_str(), rel) && records[i].status == ConflictStatus::Pending {
            return Some(i);
        }
        i = i + 1;
    }
    None
}

/// The outcome of scanning one index entry.
pub struct EntryScan {
    pub pair: SyncPair,
    /// A new conflict record is to be created under `pair.conflict_id`.
    pub is_new_conflict: bool,
    pub project_hash: String,
    pub internal_hash: String,
}

/// `s` is what scanning entry `e` gives, with copies `f`, the conflict
/// records on file `records`, at time `ts`.
///
/// The project hash is that of the project copy (empty without one); the
/// internal hash that of the internal copy, or the hash recorded in the
/// entry. A conflict reuses the first pending record on the same path;
/// otherwise, when both copies exist, a new conflict id is minted.
pub open spec fn scan_matches(
    e: ImportantEntry,
    f: FileCopies,
    records: Seq<ConflictRecord>,
    ts: Seq<char>,
    s: EntryScan,
) -> bool {
    let pe = f.project is Some;
    let ie = f.internal is Some;
    let ph = copy_hash(f.project, Seq::empty());
    let ih = copy_hash(f.internal, e.internal_hash@);
    let st = classify_spec(pe, ie, ph, ih, Some(e.sync_state));
    &&& s.pair.relative_path@ == e.path@
    &&& s.pair.project_exists == pe
    &&& s.pair.internal_exists == ie
    &&& s.pair.sync_state == st
    &&& s.project_hash@ == ph
    &&& s.internal_hash@ == ih
    &&& if st != SyncState::Conflict {
        s.pair.conflict_id is None && !s.is_new_conflict
    } else if has_pending(records, e.path@) {
        !s.is_new_conflict && (s.pair.conflict_id matches Some(id) && id@ == pending_id(
            records,
            e.path@,
        ))
    } else if pe && ie {
        s.is_new_conflict && (s.pair.conflict_id matches Some(id) && id@ == conflict_id_spec(
            ts,
            e.path@,
            ph,
        ))
    } else {
        s.pair.conflict_id is None && !s.is_new_conflict
    }
}

/// Scan one index entry.
pub fn scan_entry(entry: &ImportantEntry, files: &FileCopies, records: &[ConflictRecord], ts: &str) -> (res: EntryScan)
    ensures
        scan_matches(*entry, *files, records@, ts@, res),
{
    let project_exists = files.project.is_some();
    let internal_exists = files.internal.is_some();
    let project_hash = match &files.project {
        Some(b) => md5_hex(b.as_slice()),
        None => String::new(),
    };
    let internal_hash = match &files.internal {
        Some(b) => md5_hex(b.as_slice()),
        None => entry.internal_hash.clone(),
    };
    let state = classify(
        project_exists,
        internal_exists,
        project_hash.as_str(),
        internal_hash.as_str(),
        Some(entry.sync_state),
    );
    let mut conflict_id: Option<String> = None;
    let mut is_new = false;
    if state == SyncState::Conflict {
        match find_pending_conflict_for(records, entry.path.as_str()) {
            Some(i) => {
                proof {
                    lemma_first_pending_unique(records@, entry.path@, i as int);
                }
                conflict_id = Some(records[i].id.clone());
            },
            None => {
                if project_exists && internal_exists {
                    proof {
                        lemma_short_hash_ascii(project_hash@);
                    }
                    conflict_id = Some(conflict_id_for(ts, entry.path.as_str(), project_hash.as_str()));
                    is_new = true;
                }
            },
        }
    }
    EntryScan {
        pair: SyncPair {
            relative_path: entry.path.clone(),
            sync_state: state,
            project_exists,
            internal_exists,
            conflict_id,
        },
        is_new_conflict: is_new,
        project_hash,
        internal_hash,
    }
}

/// Re-scanning does not duplicate a conflict: once the record a scan asked
/// for is on file (pending, on the same path, under the minted id), a
/// later scan of the same copies finds the conflict again under that id
/// and asks for no new record.
pub proof fn lemma_rescan_reuses_conflict(
    e: ImportantEntry,
    f: FileCopies,
    records: Seq<ConflictRecord>,
    ts: Seq<char>,
    first: EntryScan,
    rec: ConflictRecord,
    later: ImportantEntry,
    ts2: Seq<char>,
    second: EntryScan,
)
    requires
        scan_matches(e, f, records, ts, first),
        first.is_new_conflict,
        rec.relative_path@ == e.path@,
        rec.status == ConflictStatus::Pending,
        first.pair.conflict_id matches Some(id) && rec.id@ == id@,
        later.path@ == e.path@,
        later.internal_hash@ == e.internal_hash@,
        scan_matches(later, f, records.push(rec), ts2, second),
    ensures
        second.pair.sync_state == SyncState::Conflict,
        !second.is_new_conflict,
        second.pair.conflict_id matches Some(id2) && id2@ == rec.id@,
{
    let all = records.push(rec);
    let i = records.len() as int;
    assert(all[i] == rec);
    assert forall|j: int| 0 <= j < i implies !is_pending_for(#[trigger] all[j], e.path@) by {
        assert(all[j] == records[j]);
    }
    assert(first_pending(all, e.path@, i));
    assert(has_pending(all, e.path@));
    lemma_first_pending_unique(all, e.path@, i);
}

// ---------------------------------------------------------------------------
// Statistics
// ---------------------------------------------------------------------------

/// Aggregate statistics from one scan pass.
#[derive(Debug, Clone, Copy, PartialEq, Eq, Structural)]
pub struct ScanStats {
    pub scanned: u32,
    pub synced: u32,
    pub project_only: u32,
    pub internal_only: u32,
    pub conflicts_new: u32,
    pub conflicts_existing: u32,
}

impl Default for ScanStats {
    fn default() -> (res: Self)
        ensures
            res.scanned == 0 && res.synced == 0 && res.project_only == 0 && res.internal_only == 0
                && res.conflicts_new == 0 && res.conflicts_existing == 0,
    {
        ScanStats {
            scanned: 0,
            synced: 0,
            project_only: 0,
            internal_only: 0,
            conflicts_new: 0,
            conflicts_existing: 0,
        }
    }
}

/// Full result of one scan.
pub struct ScanResult {
    pub pairs: Vec<SyncPair>,
    pub stats: ScanStats,
}

/// Which counter one scanned entry adds to. A conflict whose copies are
/// both gone and which has no pending record is counted nowhere but in
/// `scanned`.
pub enum ScanKind {
    Synced,
    ProjectOnly,
    InternalOnly,
    ConflictNew,
    ConflictExisting,
    ConflictUnrecorded,
}

pub open spec fn kind_of(s: EntryScan) -> ScanKind {
    match s.pair.sync_state {
        SyncState::Synced => ScanKind::Synced,
        SyncState::ProjectOnly => ScanKind::ProjectOnly,
        SyncState::InternalOnly => ScanKind::InternalOnly,
        SyncState::Conflict => if s.is_new_conflict {
            ScanKind::ConflictNew
        } else if s.pair.conflict_id is Some {
            ScanKind::ConflictExisting
        } else {
            ScanKind::ConflictUnrecorded
        },
    }
}

/// Number of scanned entries of kind `k`.
pub open spec fn count_kind(s: Seq<EntryScan>, k: ScanKind) -> nat
    decreases s.len(),
{
    if s.len() == 0 {
        0
    } else {
        count_kind(s.drop_last(), k) + if kind_of(s.last()) == k {
            1nat
        } else {
            0nat
        }
    }
}

/// `st` counts the scans `s`.
pub open spec fn stats_of(st: ScanStats, s: Seq<EntryScan>) -> bool {
    &&& st.scanned == s.len()
    &&& st.synced == count_kind(s, ScanKind::Synced)
    &&& st.project_only == count_kind(s, ScanKind::ProjectOnly)
    &&& st.internal_only == count_kind(s, ScanKind::InternalOnly)
    &&& st.conflicts_new == count_kind(s, ScanKind::ConflictNew)
    &&& st.conflicts_existing == count_kind(s, ScanKind::ConflictExisting)
}

/// Every scanned entry is of exactly one kind.
pub proof fn lemma_kinds_partition(s: Seq<EntryScan>)
    ensures
        count_kind(s, ScanKind::Synced) + count_kind(s, ScanKind::ProjectOnly) + count_kind(
            s,
            ScanKind::InternalOnly,
        ) + count_kind(s, ScanKind::ConflictNew) + count_kind(s, ScanKind::ConflictExisting)
            + count_kind(s, ScanKind::ConflictUnrecorded) == s.len(),
    decreases s.len(),
{
    if s.len() > 0 {
        lemma_kinds_partition(s.drop_last());
    }
}

/// The counters of a scan never add up to more than the number of files
/// scanned, and add up to exactly that when every conflict found is tied
/// to a record.
pub proof fn lemma_scan_stats_bounded(st: ScanStats, s: Seq<EntryScan>)
    requires
        stats_of(st, s),
    ensures
        st.synced + st.project_only + st.internal_only + st.conflicts_new + st.conflicts_existing
            <= st.scanned,
        count_kind(s, ScanKind::ConflictUnrecorded) == 0 ==> st.synced + st.project_only
            + st.internal_only + st.conflicts_new + st.conflicts_existing == st.scanned,
{
    lemma_kinds_partition(s);
}

/// Count the scanned entries.
pub fn tally(scans: &[EntryScan]) -> (res: ScanStats)
    requires
        scans@.len() <= u32::MAX,
    ensures
        stats_of(res, scans@),
{
    let mut st = ScanStats::default();
    let mut i: usize = 0;
    while i < scans.len()
        invariant
            i <= scans@.len(),
            scans@.len() <= u32::MAX,
            stats_of(st, scans@.take(i as int)),
        decreases scans@.len() - i,
    {
        proof {
            lemma_kinds_partition(scans@.take(i as int));
            assert(scans@.take(i + 1).drop_last() =~= scans@.take(i as int));
            assert(scans@.take(i + 1).last() == scans@[i as int]);
        }
        let s = &scans[i];
        st.scanned = st.scanned + 1;
        match s.pair.sync_state {
            SyncState::Synced => st.synced = st.synced + 1,
            SyncState::ProjectOnly => st.project_only = st.project_only + 1,
            SyncState::InternalOnly => st.internal_only = st.internal_only + 1,
            SyncState::Conflict => {
                if s.is_new_conflict {
                    st.conflicts_new = st.conflicts_new + 1;
                } else if s.pair.conflict_id.is_some() {
                    st.conflicts_existing = st.conflicts_existing + 1;
                }
            },
        }
        i = i + 1;
    }
    proof {
        assert(scans@.take(scans@.len() as int) =~= scans@);
    }
    st
}

// ---------------------------------------------------------------------------
// One scan pass
// ---------------------------------------------------------------------------

/// Scan every entry, in order.
pub fn plan_scan(
    entries: &[ImportantEntry],
    files: &[FileCopies],
    records: &[ConflictRecord],
    ts: &str,
) -> (res: Vec<EntryScan>)
    requires
        files@.len() == entries@.len(),
    ensures
        res@.len() == entries@.len(),
        forall|i: int|
            0 <= i < entries@.len() ==> scan_matches(entries@[i], files@[i], records@, ts@, #[trigger] res@[i]),
{
    let mut out: Vec<EntryScan> = Vec::new();
    let mut i: usize = 0;
    while i < entries.len()
        invariant
            i <= entries@.len(),
            files@.len() == entries@.len(),
            out@.len() == i,
            forall|j: int|
                0 <= j < i ==> scan_matches(entries@[j], files@[j], records@, ts@, #[trigger] out@[j]),
        decreases entries@.len() - i,
    {
        let s = scan_entry(&entries[i], &files[i], records, ts);
        out.push(s);
        i = i + 1;
    }
    out
}

/// `f` is `e` after a scan set its state to `st` at time `now`.
pub open spec fn restated(e: ImportantEntry, f: ImportantEntry, st: SyncState, now: Seq<char>) -> bool {
    &&& f.path == e.path
    &&& f.sync_state == st
    &&& f.internal_hash == e.internal_hash
    &&& f.added_at == e.added_at
    &&& f.updated_at@ == now
}

/// The index `after` is `before` with the state of every entry set from
/// the scans, in entry order, at time `now`; no path is added.
pub open spec fn index_after_scan(
    before: Seq<ImportantEntry>,
    after: Seq<ImportantEntry>,
    scans: Seq<EntryScan>,
    now: Seq<char>,
) -> bool {
    &&& forall|i: int|
        0 <= i < before.len() ==> (lookup(after, before[i].path@) matches Some(f) && restated(
            before[i],
            f,
            #[trigger] scans[i].pair.sync_state,
            now,
        ))
    &&& forall|k: Seq<char>|
        (forall|i: int| 0 <= i < before.len() ==> before[i].path@ != k) ==> #[trigger] lookup(after, k)
            == lookup(before, k)
}

/// Record each scanned state in the index.
fn apply_states(index: &mut ImportantIndex, entries: &Vec<ImportantEntry>, scans: &Vec<EntryScan>, now: &str)
    requires
        entries@ == old(index)@,
        strictly_sorted(old(index)@),
        scans@.len() == entries@.len(),
        forall|i: int| 0 <= i < scans@.len() ==> (#[trigger] scans@[i]).pair.relative_path@ == entries@[i].path@,
    ensures
        index_after_scan(old(index)@, final(index)@, scans@, now@),
{
    let ghost before = index@;
    proof {
        assert forall|j: int| 0 <= j < before.len() implies lookup(index@, before[j].path@) == Some(#[trigger] before[j]) by {
            crate::domain::sync::sync_index::lemma_lookup_at(before, j);
        }
    }
    let mut i: usize = 0;
    while i < scans.len()
        invariant
            i <= scans@.len(),
            entries@ == before,
            strictly_sorted(before),
            scans@.len() == before.len(),
            forall|j: int| 0 <= j < scans@.len() ==> (#[trigger] scans@[j]).pair.relative_path@ == before[j].path@,
            forall|j: int|
                0 <= j < i ==> (lookup(index@, before[j].path@) matches Some(f) && restated(
                    before[j],
                    f,
                    #[trigger] scans@[j].pair.sync_state,
                    now@,
                )),
            forall|j: int| i <= j < before.len() ==> lookup(index@, before[j].path@) == Some(#[trigger] before[j]),
            forall|k: Seq<char>|
                (forall|j: int| 0 <= j < before.len() ==> before[j].path@ != k) ==> #[trigger] lookup(index@, k)
                    == lookup(before, k),
        decreases scans@.len() - i,
    {
        let ghost mid = index@;
        let ghost key = before[i as int].path@;
        index.update_state(entries[i].path.as_str(), scans[i].pair.sync_state, now);
        proof {
            assert forall|j: int| 0 <= j < before.len() && j != i implies before[j].path@ != key by {
                if j < i {
                    assert(crate::domain::sync::sync_index::lex_lt(before[j].path@, before[i as int].path@));
                } else {
                    assert(crate::domain::sync::sync_index::lex_lt(before[i as int].path@, before[j].path@));
                }
            }
            assert forall|j: int| 0 <= j < i + 1 implies (lookup(index@, before[j].path@) matches Some(f) && restated(
                before[j],
                f,
                #[trigger] scans@[j].pair.sync_state,
                now@,
            )) by {
                if j < i {
                    assert(before[j].path@ != key);
                }
            }
            assert forall|j: int| i + 1 <= j < before.len() implies lookup(index@, before[j].path@) == Some(#[trigger] before[j]) by {
                assert(before[j].path@ != key);
            }
            assert forall|k: Seq<char>|
                (forall|j: int| 0 <= j < before.len() ==> before[j].path@ != k) implies #[trigger] lookup(index@, k)
                    == lookup(before, k) by {
                assert(before[i as int].path@ != k);
            }
        }
        i = i + 1;
    }
}

/// What one full scan gives: a scan of every entry (in order) from the
/// copies read for it, the pairs of those scans, their counts, and the
/// index with every scanned state recorded at time `now`.
pub open spec fn scan_outcome(
    before: Seq<ImportantEntry>,
    files: Seq<FileCopies>,
    records: Seq<ConflictRecord>,
    ts: Seq<char>,
    now: Seq<char>,
    after: Seq<ImportantEntry>,
    pairs: Seq<SyncPair>,
    stats: ScanStats,
    scans: Seq<EntryScan>,
) -> bool {
    &&& scans.len() == before.len()
    &&& forall|i: int| 0 <= i < before.len() ==> scan_matches(before[i], files[i], records, ts, #[trigger] scans[i])
    &&& pairs.len() == scans.len()
    &&& forall|i: int| 0 <= i < scans.len() ==> #[trigger] pairs[i] == scans[i].pair
    &&& stats_of(stats, scans)
    &&& index_after_scan(before, after, scans, now)
}

/// One full scan: classify every indexed file from the copies read for it,
/// count the outcomes and record the new states in the index at time
/// `now`. `ts` stamps the ids of new conflicts. The caller creates the
/// records of the scans marked `is_new_conflict`.
pub fn detect(
    index: &mut ImportantIndex,
    files: &[FileCopies],
    records: &[ConflictRecord],
    ts: &str,
    now: &str,
) -> (res: (ScanResult, Vec<EntryScan>))
    requires
        files@.len() == old(index)@.len(),
        old(index)@.len() <= u32::MAX,
    ensures
        res.1@.len() == old(index)@.len(),
        forall|i: int|
            0 <= i < old(index)@.len() ==> scan_matches(old(index)@[i], files@[i], records@, ts@, #[trigger] res.1@[i]),
        res.0.pairs@.len() == res.1@.len(),
        forall|i: int| 0 <= i < res.1@.len() ==> #[trigger] res.0.pairs@[i] == res.1@[i].pair,
        stats_of(res.0.stats, res.1@),
        index_after_scan(old(index)@, final(index)@, res.1@, now@),
        scan_outcome(old(index)@, files@, records@, ts@, now@, final(index)@, res.0.pairs@, res.0.stats, res.1@),
{
    let entries = index.snapshot();
    let scans = plan_scan(entries.as_slice(), files, records, ts);
    let stats = tally(scans.as_slice());
    let mut pairs: Vec<SyncPair> = Vec::new();
    let mut i: usize = 0;
    while i < scans.len()
        invariant
            i <= scans@.len(),
            pairs@.len() == i,
            forall|j: int| 0 <= j < i ==> #[trigger] pairs@[j] == scans@[j].pair,
        decreases scans@.len() - i,
    {
        pairs.push(scans[i].pair.duplicate());
        i = i + 1;
    }
    apply_states(index, &entries, &scans, now);
    (ScanResult { pairs, stats }, scans)
}

/// `<root>/kron-internal/conflicts/<id>/<file>`.
pub open spec fn backup_path_spec(root: Seq<char>, id: Seq<char>, file: Seq<char>) -> Seq<char> {
    join_spec(join_spec(conflicts_dir_spec(root), id), file)
}

/// The record of a new conflict found by a scan, detected at
/// `detected_at`, with both copies' modification times. The backups live
/// in the conflict's own directory.
pub fn new_conflict_record(
    project_root: &str,
    scan: &EntryScan,
    detected_at: &str,
    project_mtime: &str,
    internal_mtime: &str,
) -> (res: ConflictRecord)
    requires
        scan.pair.conflict_id is Some,
    ensures
        res.id@ == scan.pair.conflict_id->0@,
        res.relative_path@ == scan.pair.relative_path@,
        res.detected_at@ == detected_at@,
        res.project_backup@ == backup_path_spec(project_root@, res.id@, "project_version"@),
        res.internal_backup@ == backup_path_spec(project_root@, res.id@, "internal_version"@),
        res.project_hash@ == scan.project_hash@,
        res.internal_hash@ == scan.internal_hash@,
        res.project_mtime@ == project_mtime@,
        res.internal_mtime@ == internal_mtime@,
        res.status == ConflictStatus::Pending,
        res.resolution is None,
        res.resolved_at is None,
{
    let id = match &scan.pair.conflict_id {
        Some(id) => id.clone(),
        None => String::new(),
    };
    let root_dir = conflicts_dir(project_root);
    let dir = join(root_dir.as_str(), id.as_str());
    let project_backup = join(dir.as_str(), "project_version");
    let internal_backup = join(dir.as_str(), "internal_version");
    ConflictRecord {
        id,
        relative_path: scan.pair.relative_path.clone(),
        detected_at: owned(detected_at),
        project_backup,
        internal_backup,
        project_hash: scan.project_hash.clone(),
        internal_hash: scan.internal_hash.clone(),
        project_mtime: owned(project_mtime),
        internal_mtime: owned(internal_mtime),
        status: ConflictStatus::Pending,
        resolution: None,
        resolved_at: None,
    }
}

// ---------------------------------------------------------------------------
// Listing
// ---------------------------------------------------------------------------

/// The records that could be loaded, in index order.
pub open spec fn present(loaded: Seq<Option<ConflictRecord>>) -> Seq<ConflictRecord>
    decreases loaded.len(),
{
    if loaded.len() == 0 {
        Seq::empty()
    } else {
        let rest = present(loaded.drop_last());
        match loaded.last() {
            Some(r) => rest.push(r),
            None => rest,
        }
    }
}

/// All known conflict records: the ones loaded for the ids of the conflict
/// index (`None` where a record is missing), in index order.
pub fn list_all(loaded: &[Option<ConflictRecord>]) -> (res: Vec<ConflictRecord>)
    ensures
        res@ == present(loaded@),
{
    let mut out: Vec<ConflictRecord> = Vec::new();
    let mut i: usize = 0;
    while i < loaded.len()
        invariant
            i <= loaded@.len(),
            out@ == present(loaded@.take(i as int)),
        decreases loaded@.len() - i,
    {
        proof {
            assert(loaded@.take(i + 1).drop_last() =~= loaded@.take(i as int));
            assert(loaded@.take(i + 1).last() == loaded@[i as int]);
        }
        match &loaded[i] {
            Some(r) => out.push(r.duplicate()),
            None => {},
        }
        i = i + 1;
    }
    proof {
        assert(loaded@.take(loaded@.len() as int) =~= loaded@);
    }
    out
}

/// The records of `s` whose status is `w`, in order.
pub open spec fn with_status(s: Seq<ConflictRecord>, w: ConflictStatus) -> Seq<ConflictRecord>
    decreases s.len(),
{
    if s.len() == 0 {
        Seq::empty()
    } else {
        let rest = with_status(s.drop_last(), w);
        if s.last().status == w {
            rest.push(s.last())
        } else {
            rest
        }
    }
}

/// A status filter: `Some(Some(status))` for one status, `Some(None)` for
/// `all`, `None` for an unknown word.
pub open spec fn status_filter(word: Seq<char>) -> Option<Option<ConflictStatus>> {
    if word == "pending"@ {
        Some(Some(ConflictStatus::Pending))
    } else if word == "resolved"@ {
        Some(Some(ConflictStatus::Resolved))
    } else if word == "ignored"@ {
        Some(Some(ConflictStatus::Ignored))
    } else if word == "all"@ {
        Some(None)
    } else {
        None
    }
}

/// Whether `conflict list --status` accepts the word: `pending`,
/// `resolved`, `ignored` and `all` are accepted, any other word is refused
/// with the same error as `list_by_status`.
pub fn check_status_filter(status: &str) -> (res: Result<()>)
    ensures
        status_filter(status@) is Some ==> res is Ok,
        status_filter(status@) is None ==> (res matches Err(KronError::Cli(m)) && m@
            == "unknown conflict status filter: "@ + status@),
{
    if str_eq(status, "pending") || str_eq(status, "resolved") || str_eq(status, "ignored") || str_eq(status, "all") {
        Ok(())
    } else {
        let mut m = owned("unknown conflict status filter: ");
        m.append(status);
        Err(KronError::Cli(m))
    }
}

/// The records with the given status (`pending`, `resolved`, `ignored`),
/// or all of them (`all`); any other word is refused.
pub fn list_by_status(records: &[ConflictRecord], status: &str) -> (res: Result<Vec<ConflictRecord>>)
    ensures
        match status_filter(status@) {
            None => res matches Err(KronError::Cli(m)) && m@ == "unknown conflict status filter: "@ + status@,
            Some(None) => res matches Ok(v) && v@ == records@,
            Some(Some(w)) => res matches Ok(v) && v@ == with_status(records@, w),
        },
        status@ != "all"@ ==> (res matches Ok(v) ==> (forall|i: int|
            0 <= i < v@.len() ==> (#[trigger] v@[i]).status.name() == status@) && (forall|j: int|
            0 <= j < records@.len() && (#[trigger] records@[j]).status.name() == status@ ==> v@.contains(
                records@[j],
            ))),
{
    proof {
        match status_filter(status@) {
            Some(Some(w)) => {
                lemma_status_filter_names(status@);
                lemma_with_status_members(records@, w);
                assert forall|j: int|
                    0 <= j < records@.len() && (#[trigger] records@[j]).status.name() == status@ implies records@[j].status
                    == w by {
                    lemma_status_names_distinct(records@[j].status, w);
                }
            },
            _ => {},
        }
    }
    let wanted = if str_eq(status, "pending") {
        ConflictStatus::Pending
    } else if str_eq(status, "resolved") {
        ConflictStatus::Resolved
    } else if str_eq(status, "ignored") {
        ConflictStatus::Ignored
    } else if str_eq(status, "all") {
        let mut all: Vec<ConflictRecord> = Vec::new();
        let mut i: usize = 0;
        while i < records.len()
            invariant
                i <= records@.len(),
                all@ == records@.take(i as int),
            decreases records@.len() - i,
        {
            all.push(records[i].duplicate());
            proof {
                assert(records@.take(i + 1) =~= records@.take(i as int).push(records@[i as int]));
            }
            i = i + 1;
        }
        proof {
            assert(records@.take(records@.len() as int) =~= records@);
        }
        return Ok(all);
    } else {
        let mut m = owned("unknown conflict status filter: ");
        m.append(status);
        return Err(KronError::Cli(m));
    };
    let mut out: Vec<ConflictRecord> = Vec::new();
    let mut i: usize = 0;
    while i < records.len()
        invariant
            i <= records@.len(),
            out@ == with_status(records@.take(i as int), wanted),
        decreases records@.len() - i,
    {
        proof {
            assert(records@.take(i + 1).drop_last() =~= records@.take(i as int));
            assert(records@.take(i + 1).last() == records@[i as int]);
        }
        if records[i].status == wanted {
            out.push(records[i].duplicate());
        }
        i = i + 1;
    }
    proof {
        assert(records@.take(records@.len() as int) =~= records@);
    }
    Ok(out)
}

// ---------------------------------------------------------------------------
// Resolution
// ---------------------------------------------------------------------------

/// The status a conflict takes when resolved with `d`.
pub open spec fn status_after(d: ConflictResolution) -> ConflictStatus {
    match d {
        ConflictResolution::Ignore => ConflictStatus::Ignored,
        _ => ConflictStatus::Resolved,
    }
}

/// The sync state of the file after resolving its conflict with `d`: an
/// ignored conflict stays a conflict.
pub open spec fn state_after(d: ConflictResolution) -> SyncState {
    match d {
        ConflictResolution::Ignore => SyncState::Conflict,
        _ => SyncState::Synced,
    }
}

/// What resolving a conflict in `status` with `d` leaves it in; `None`
/// when it cannot be resolved because it is no longer pending.
pub open spec fn resolve_outcome(status: ConflictStatus, d: ConflictResolution) -> Option<ConflictStatus> {
    if status == ConflictStatus::Pending {
        Some(status_after(d))
    } else {
        None
    }
}

pub open spec fn not_pending_message(id: Seq<char>, status: ConflictStatus) -> Seq<char> {
    "conflict "@ + id + " is already "@ + status.name() + " (cannot resolve)"@
}

/// `r2` is `r` resolved with `d` at time `now`.
pub open spec fn resolved_from(r: ConflictRecord, r2: ConflictRecord, d: ConflictResolution, now: Seq<char>) -> bool {
    &&& r2.id == r.id
    &&& r2.relative_path == r.relative_path
    &&& r2.detected_at == r.detected_at
    &&& r2.project_backup == r.project_backup
    &&& r2.internal_backup == r.internal_backup
    &&& r2.project_hash == r.project_hash
    &&& r2.internal_hash == r.internal_hash
    &&& r2.project_mtime == r.project_mtime
    &&& r2.internal_mtime == r.internal_mtime
    &&& r2.status == status_after(d)
    &&& r2.resolution == Some(d)
    &&& r2.resolved_at matches Some(t) && t@ == now
}

/// The index `after` is `before` with the state of `rel` set to `st` at
/// time `now` (nothing changes when `rel` is not tracked).
pub open spec fn state_recorded(
    before: Seq<ImportantEntry>,
    after: Seq<ImportantEntry>,
    rel: Seq<char>,
    st: SyncState,
    now: Seq<char>,
) -> bool {
    &&& lookup(before, rel) is None ==> after == before
    &&& lookup(before, rel) matches Some(e) ==> (lookup(after, rel) matches Some(f) && restated(e, f, st, now))
    &&& forall|k: Seq<char>| k != rel ==> #[trigger] lookup(after, k) == lookup(before, k)
}

/// Resolve the conflict `id`, whose record was loaded as `loaded`, with
/// `decision` at time `now`, and record the file's new sync state in the
/// index. A missing record is `NotFound` (its directory); a record that is
/// no longer pending is refused. The caller copies the chosen backup
/// (see `chosen_backup`) over both sides and saves record and index.
pub fn resolve(
    project_root: &str,
    id: &str,
    loaded: Option<ConflictRecord>,
    decision: ConflictResolution,
    now: &str,
    index: &mut ImportantIndex,
) -> (res: Result<ConflictRecord>)
    ensures
        loaded is None ==> (res matches Err(KronError::NotFound(p)) && p@ == join_spec(
            conflicts_dir_spec(project_root@),
            id@,
        )),
        loaded matches Some(r) ==> (res is Ok <==> resolve_outcome(r.status, decision) is Some),
        loaded matches Some(r) ==> (res matches Ok(r2) ==> resolved_from(r, r2, decision, now@)),
        loaded matches Some(r) ==> (res matches Err(e) ==> (e matches KronError::Cli(m) && m@
            == not_pending_message(r.id@, r.status))),
        res is Err ==> final(index)@ == old(index)@,
        res matches Ok(r2) ==> state_recorded(
            old(index)@,
            final(index)@,
            r2.relative_path@,
            state_after(decision),
            now@,
        ),
        res matches Ok(r2) ==> (r2.status == ConflictStatus::Ignored <==> decision == ConflictResolution::Ignore),
        res matches Ok(r2) ==> (lookup(old(index)@, r2.relative_path@) is Some ==> (lookup(
            final(index)@,
            r2.relative_path@,
        ) matches Some(f) && f.sync_state == if decision == ConflictResolution::Ignore {
            SyncState::Conflict
        } else {
            SyncState::Synced
        })),
{
    let rec = match loaded {
        None => {
            let dir = conflicts_dir(project_root);
            return Err(KronError::NotFound(join(dir.as_str(), id)));
        },
        Some(r) => r,
    };
    if rec.status != ConflictStatus::Pending {
        let mut m = owned("conflict ");
        m.append(rec.id.as_str());
        m.append(" is already ");
        m.append(rec.status.as_str());
        m.append(" (cannot resolve)");
        return Err(KronError::Cli(m));
    }
    let status = match decision {
        ConflictResolution::Ignore => ConflictStatus::Ignored,
        _ => ConflictStatus::Resolved,
    };
    let state = match decision {
        ConflictResolution::Ignore => SyncState::Conflict,
        _ => SyncState::Synced,
    };
    let updated = ConflictRecord {
        status,
        resolution: Some(decision),
        resolved_at: Some(owned(now)),
        ..rec
    };
    index.update_state(updated.relative_path.as_str(), state, now);
    Ok(updated)
}

/// The backup whose bytes a resolution writes over both sides: the project
/// copy for `UseProject`, the internal copy for `UseInternal`, none when
/// the conflict is ignored.
pub fn chosen_backup(rec: &ConflictRecord, decision: ConflictResolution) -> (res: Option<String>)
    ensures
        match decision {
            ConflictResolution::UseProject => res matches Some(p) && p@ == rec.project_backup@,
            ConflictResolution::UseInternal => res matches Some(p) && p@ == rec.internal_backup@,
            ConflictResolution::Ignore => res is None,
        },
{
    match decision {
        ConflictResolution::UseProject => Some(rec.project_backup.clone()),
        ConflictResolution::UseInternal => Some(rec.internal_backup.clone()),
        ConflictResolution::Ignore => None,
    }
}

/// A conflict can be resolved once: whatever the first decision, a second
/// resolution of the same conflict is refused.
pub proof fn lemma_resolve_twice_fails(status: ConflictStatus, first: ConflictResolution, second: ConflictResolution)
    ensures
        resolve_outcome(status, first) matches Some(s2) ==> resolve_outcome(s2, second) is None,
{
}

// ---------------------------------------------------------------------------
// Scanning again
// ---------------------------------------------------------------------------

/// A pending conflict on `rel` has a first one.
proof fn lemma_first_pending_exists(records: Seq<ConflictRecord>, rel: Seq<char>)
    requires
        has_pending(records, rel),
    ensures
        exists|i: int| first_pending(records, rel, i),
    decreases records.len(),
{
    if is_pending_for(records[0], rel) {
        assert(first_pending(records, rel, 0));
    } else {
        let t = records.drop_first();
        let k = choose|k: int| 0 <= k < records.len() && is_pending_for(#[trigger] records[k], rel);
        assert(t[k - 1] == records[k]);
        lemma_first_pending_exists(t, rel);
        let i = choose|i: int| first_pending(t, rel, i);
        assert forall|j: int| 0 <= j < i + 1 implies !is_pending_for(#[trigger] records[j], rel) by {
            if j > 0 {
                assert(records[j] == t[j - 1]);
            }
        }
        assert(first_pending(records, rel, i + 1));
    }
}

/// How a later scan counts an entry the first scan counted as `k`: a new
/// conflict has become an existing one; every other kind stays.
pub open spec fn rescanned_kind(k: ScanKind) -> ScanKind {
    match k {
        ScanKind::ConflictNew => ScanKind::ConflictExisting,
        _ => k,
    }
}

/// The kinds of the second scan follow those of the first.
proof fn lemma_rescan_counts(s1: Seq<EntryScan>, s2: Seq<EntryScan>)
    requires
        s1.len() == s2.len(),
        forall|i: int| 0 <= i < s1.len() ==> kind_of(#[trigger] s2[i]) == rescanned_kind(kind_of(s1[i])),
    ensures
        count_kind(s2, ScanKind::ConflictNew) == 0,
        count_kind(s2, ScanKind::ConflictExisting) == count_kind(s1, ScanKind::ConflictNew) + count_kind(
            s1,
            ScanKind::ConflictExisting,
        ),
        count_kind(s2, ScanKind::Synced) == count_kind(s1, ScanKind::Synced),
        count_kind(s2, ScanKind::ProjectOnly) == count_kind(s1, ScanKind::ProjectOnly),
        count_kind(s2, ScanKind::InternalOnly) == count_kind(s1, ScanKind::InternalOnly),
    decreases s1.len(),
{
    if s1.len() > 0 {
        let a = s1.drop_last();
        let b = s2.drop_last();
        assert forall|i: int| 0 <= i < a.len() implies kind_of(#[trigger] b[i]) == rescanned_kind(kind_of(a[i])) by {
            assert(b[i] == s2[i]);
            assert(a[i] == s1[i]);
        }
        lemma_rescan_counts(a, b);
        assert(kind_of(s2.last()) == rescanned_kind(kind_of(s1.last())));
    }
}

/// Scanning again does not duplicate conflicts. Take a scan `s1` of the
/// index entries `es` with copies `fs` and records `records`; file one
/// pending record for each new conflict it found (under its path and
/// minted id: `recs`); record each scanned state in the index (`es2`).
/// A second scan `s2` of the same copies then finds no new conflict, finds
/// each conflict of the first scan under the same id, and counts every
/// other entry as the first scan did.
pub proof fn lemma_rescan_finds_no_new_conflict(
    es: Seq<ImportantEntry>,
    es2: Seq<ImportantEntry>,
    fs: Seq<FileCopies>,
    records: Seq<ConflictRecord>,
    recs: Seq<ConflictRecord>,
    ts: Seq<char>,
    ts2: Seq<char>,
    s1: Seq<EntryScan>,
    s2: Seq<EntryScan>,
    st1: ScanStats,
    st2: ScanStats,
)
    requires
        es2.len() == es.len(),
        fs.len() == es.len(),
        s1.len() == es.len(),
        s2.len() == es.len(),
        forall|i: int, j: int| 0 <= i < j < es.len() ==> es[i].path@ != es[j].path@,
        forall|i: int| 0 <= i < es.len() ==> scan_matches(es[i], fs[i], records, ts, #[trigger] s1[i]),
        forall|i: int| 0 <= i < es.len() ==> (#[trigger] es2[i]).path@ == es[i].path@ && es2[i].sync_state
            == s1[i].pair.sync_state,
        forall|i: int| 0 <= i < es.len() ==> scan_matches(es2[i], fs[i], records + recs, ts2, #[trigger] s2[i]),
        forall|i: int| 0 <= i < es.len() && (#[trigger] s1[i]).is_new_conflict ==> exists|k: int|
            0 <= k < recs.len() && is_pending_for(#[trigger] recs[k], es[i].path@),
        forall|k: int| 0 <= k < recs.len() ==> exists|i: int|
            0 <= i < es.len() && (#[trigger] s1[i]).is_new_conflict && (#[trigger] recs[k]).relative_path@
                == es[i].path@ && (s1[i].pair.conflict_id matches Some(id) && recs[k].id@ == id@),
        stats_of(st1, s1),
        stats_of(st2, s2),
    ensures
        st2.conflicts_new == 0,
        st2.conflicts_existing == st1.conflicts_new + st1.conflicts_existing,
        st2.synced == st1.synced,
        st2.project_only == st1.project_only,
        st2.internal_only == st1.internal_only,
        forall|i: int|
            0 <= i < es.len() && (#[trigger] s1[i]).is_new_conflict ==> (s2[i].pair.conflict_id matches Some(
                id2,
            ) && (s1[i].pair.conflict_id matches Some(id1) && id2@ == id1@)),
{
    let all = records + recs;
    assert forall|i: int| 0 <= i < es.len() implies kind_of(#[trigger] s2[i]) == rescanned_kind(kind_of(s1[i]))
        && (s1[i].is_new_conflict ==> (s2[i].pair.conflict_id matches Some(id2) && (
        s1[i].pair.conflict_id matches Some(id1) && id2@ == id1@))) by {
        let p = es[i].path@;
        let a = s1[i];
        let b = s2[i];
        assert(scan_matches(es[i], fs[i], records, ts, a));
        assert(scan_matches(es2[i], fs[i], all, ts2, b));
        // Both scans classify the copies alike.
        assert(b.pair.sync_state == a.pair.sync_state);
        // A pending record of `records` is still one of `all`.
        assert(has_pending(records, p) ==> has_pending(all, p)) by {
            if has_pending(records, p) {
                let k = choose|k: int| 0 <= k < records.len() && is_pending_for(#[trigger] records[k], p);
                assert(all[k] == records[k]);
            }
        }
        if a.is_new_conflict {
            let k = choose|k: int| 0 <= k < recs.len() && is_pending_for(#[trigger] recs[k], p);
            assert(all[records.len() + k] == recs[k]);
            assert(has_pending(all, p));
            lemma_first_pending_exists(all, p);
            let f = choose|f: int| first_pending(all, p, f);
            lemma_first_pending_unique(all, p, f);
            if f < records.len() {
                assert(all[f] == records[f]);
                assert(has_pending(records, p));
            }
            let r = f - records.len();
            assert(all[f] == recs[r]);
            let j = choose|j: int|
                0 <= j < es.len() && (#[trigger] s1[j]).is_new_conflict && (#[trigger] recs[r]).relative_path@
                    == es[j].path@ && (s1[j].pair.conflict_id matches Some(id) && recs[r].id@ == id@);
            assert(j == i);
        } else if b.is_new_conflict {
            // A new conflict the second time needs no pending record in
            // `all`, hence none in `records`, and both copies: the first
            // scan would have found it new.
            assert(!has_pending(records, p));
            assert(false);
        } else if a.pair.sync_state == SyncState::Conflict && !has_pending(records, p) && has_pending(all, p) {
            let k = choose|k: int| 0 <= k < all.len() && is_pending_for(#[trigger] all[k], p);
            if k < records.len() {
                assert(all[k] == records[k]);
            }
            let r = k - records.len();
            assert(all[k] == recs[r]);
            let j = choose|j: int|
                0 <= j < es.len() && (#[trigger] s1[j]).is_new_conflict && (#[trigger] recs[r]).relative_path@
                    == es[j].path@ && (s1[j].pair.conflict_id matches Some(id) && recs[r].id@ == id@);
            assert(j != i);
            assert(es[j].path@ == p);
            if j < i {
                assert(es[j].path@ != es[i].path@);
            } else {
                assert(es[i].path@ != es[j].path@);
            }
        }
    }
    lemma_rescan_counts(s1, s2);
}

/// What a test of equality between two scans compares: every field, text
/// by its characters.
pub open spec fn scan_view(s: EntryScan) -> (Seq<char>, SyncState, bool, bool, Option<Seq<char>>, bool, Seq<char>, Seq<char>) {
    (
        s.pair.relative_path@,
        s.pair.sync_state,
        s.pair.project_exists,
        s.pair.internal_exists,
        match s.pair.conflict_id {
            Some(id) => Some(id@),
            None => None,
        },
        s.is_new_conflict,
        s.project_hash@,
        s.internal_hash@,
    )
}

/// An index entry compared by its characters.
pub open spec fn entry_view(o: Option<ImportantEntry>) -> Option<(Seq<char>, SyncState, Seq<char>, Seq<char>, Seq<char>)> {
    match o {
        Some(e) => Some((e.path@, e.sync_state, e.internal_hash@, e.added_at@, e.updated_at@)),
        None => None,
    }
}

proof fn lemma_counts_follow_kinds(s1: Seq<EntryScan>, s2: Seq<EntryScan>, k: ScanKind)
    requires
        s1.len() == s2.len(),
        forall|i: int| 0 <= i < s1.len() ==> kind_of(#[trigger] s1[i]) == kind_of(s2[i]),
    ensures
        count_kind(s1, k) == count_kind(s2, k),
    decreases s1.len(),
{
    if s1.len() > 0 {
        let a = s1.drop_last();
        let b = s2.drop_last();
        assert forall|i: int| 0 <= i < a.len() implies kind_of(#[trigger] a[i]) == kind_of(b[i]) by {
            assert(a[i] == s1[i]);
            assert(b[i] == s2[i]);
        }
        lemma_counts_follow_kinds(a, b, k);
        assert(kind_of(s1.last()) == kind_of(s2.last()));
    }
}

/// A scan's outcome is determined by what it reads: two outcomes of the
/// same index, copies, records and times agree on every scan, every
/// counter and every entry of the index after. So `scan::run`, whose
/// contract is this outcome, gives what `detect` gives.
pub proof fn lemma_scan_outcome_unique(
    before: Seq<ImportantEntry>,
    files: Seq<FileCopies>,
    records: Seq<ConflictRecord>,
    ts: Seq<char>,
    now: Seq<char>,
    after1: Seq<ImportantEntry>,
    pairs1: Seq<SyncPair>,
    stats1: ScanStats,
    scans1: Seq<EntryScan>,
    after2: Seq<ImportantEntry>,
    pairs2: Seq<SyncPair>,
    stats2: ScanStats,
    scans2: Seq<EntryScan>,
)
    requires
        scan_outcome(before, files, records, ts, now, after1, pairs1, stats1, scans1),
        scan_outcome(before, files, records, ts, now, after2, pairs2, stats2, scans2),
    ensures
        scans1.len() == scans2.len(),
        forall|i: int| 0 <= i < scans1.len() ==> scan_view(#[trigger] scans1[i]) == scan_view(scans2[i]),
        stats1 == stats2,
        forall|k: Seq<char>| #[trigger] entry_view(lookup(after1, k)) == entry_view(lookup(after2, k)),
{
    assert forall|i: int| 0 <= i < scans1.len() implies scan_view(#[trigger] scans1[i]) == scan_view(scans2[i]) by {
        assert(scan_matches(before[i], files[i], records, ts, scans1[i]));
        assert(scan_matches(before[i], files[i], records, ts, scans2[i]));
    }
    assert forall|i: int| 0 <= i < scans1.len() implies kind_of(#[trigger] scans1[i]) == kind_of(scans2[i]) by {
        assert(scan_view(scans1[i]) == scan_view(scans2[i]));
    }
    lemma_counts_follow_kinds(scans1, scans2, ScanKind::Synced);
    lemma_counts_follow_kinds(scans1, scans2, ScanKind::ProjectOnly);
    lemma_counts_follow_kinds(scans1, scans2, ScanKind::InternalOnly);
    lemma_counts_follow_kinds(scans1, scans2, ScanKind::ConflictNew);
    lemma_counts_follow_kinds(scans1, scans2, ScanKind::ConflictExisting);
    assert forall|k: Seq<char>| #[trigger] entry_view(lookup(after1, k)) == entry_view(lookup(after2, k)) by {
        if exists|i: int| 0 <= i < before.len() && before[i].path@ == k {
            let i = choose|i: int| 0 <= i < before.len() && before[i].path@ == k;
            assert(scan_view(scans1[i]) == scan_view(scans2[i]));
            assert(lookup(after1, before[i].path@) is Some);
            assert(lookup(after2, before[i].path@) is Some);
        } else {
            assert(lookup(after1, k) == lookup(before, k));
            assert(lookup(after2, k) == lookup(before, k));
        }
    }
}

/// A conflict resolved with a side leaves its file synced and the record
/// resolved; an ignored one stays a conflict and its record is ignored.
/// The index state always agrees with what a resolution summary reports
/// for the record's status.
pub proof fn lemma_resolution_state_agrees(d: ConflictResolution)
    ensures
        d != ConflictResolution::Ignore ==> state_after(d) == SyncState::Synced && status_after(d)
            == ConflictStatus::Resolved,
        d == ConflictResolution::Ignore ==> state_after(d) == SyncState::Conflict && status_after(d)
            == ConflictStatus::Ignored,
        state_after(d) == if status_after(d) == ConflictStatus::Ignored {
            SyncState::Conflict
        } else {
            SyncState::Synced
        },
{
}

/// A status word selects the status of that name.
pub proof fn lemma_status_filter_names(word: Seq<char>)
    ensures
        status_filter(word) matches Some(Some(s)) ==> s.name() == word,
        status_filter(word) == Some(None::<ConflictStatus>) ==> word == "all"@,
{
}

/// Different statuses have different names.
proof fn lemma_status_names_distinct(a: ConflictStatus, b: ConflictStatus)
    ensures
        a.name() == b.name() ==> a == b,
{
    reveal_strlit("pending");
    reveal_strlit("resolved");
    reveal_strlit("ignored");
    assert("pending"@.len() != "resolved"@.len());
    assert("pending"@ != "ignored"@) by {
        assert("pending"@[0] != "ignored"@[0]);
    }
    assert("resolved"@.len() != "ignored"@.len());
}

/// The records kept by `with_status` are exactly those with the status.
pub proof fn lemma_with_status_members(s: Seq<ConflictRecord>, w: ConflictStatus)
    ensures
        forall|i: int| 0 <= i < with_status(s, w).len() ==> (#[trigger] with_status(s, w)[i]).status == w,
        forall|j: int| 0 <= j < s.len() && (#[trigger] s[j]).status == w ==> with_status(s, w).contains(s[j]),
    decreases s.len(),
{
    if s.len() > 0 {
        let t = s.drop_last();
        lemma_with_status_members(t, w);
        let r = with_status(t, w);
        assert forall|j: int| 0 <= j < s.len() && (#[trigger] s[j]).status == w implies with_status(s, w).contains(s[j]) by {
            if j < t.len() {
                assert(s[j] == t[j]);
                let k = choose|k: int| 0 <= k < r.len() && r[k] == t[j];
                if s.last().status == w {
                    assert(with_status(s, w)[k] == r[k]);
                }
            } else {
                assert(s[j] == s.last());
                assert(with_status(s, w)[r.len() as int] == s.last());
            }
        }
    }
}

} // verus!

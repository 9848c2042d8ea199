//! The one-shot scan driver.

use vstd::prelude::*;
use crate::domain::sync::conflict::{
    detect, index_after_scan, scan_matches, scan_outcome, stats_of, EntryScan, FileCopies, ScanResult,
};
use crate::domain::sync::sync_index::ImportantIndex;
use crate::model::ConflictRecord;

verus! {

/// Run one sync scan over the project's important files: exactly
/// `conflict::detect`.
pub fn run(
    index: &mut ImportantIndex,
    files: &[FileCopies],
    records: &[ConflictRecord],
    ts: &str,
    now: &str,
) -> (res: (ScanResult, Vec<EntryScan>))
    requires
        files@.len() == old(index)@.len(),
        old(index)@.len() <= u32::MAX,
    ensures
        res.1@.len() == old(index)@.len(),
        forall|i: int|
            0 <= i < old(index)@.len() ==> scan_matches(old(index)@[i], files@[i], records@, ts@, #[trigger] res.1@[i]),
        res.0.pairs@.len() == res.1@.len(),
        forall|i: int| 0 <= i < res.1@.len() ==> #[trigger] res.0.pairs@[i] == res.1@[i].pair,
        stats_of(res.0.stats, res.1@),
        index_after_scan(old(index)@, final(index)@, res.1@, now@),
        scan_outcome(old(index)@, files@, records@, ts@, now@, final(index)@, res.0.pairs@, res.0.stats, res.1@),
{
    detect(index, files, records, ts, now)
}

} // verus!

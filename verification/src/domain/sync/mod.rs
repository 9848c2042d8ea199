//! Important-file synchronisation: the index, conflict detection and
//! resolution, and the one-shot scan driver.

pub mod sync_index;
pub mod conflict;
pub mod scan;
pub mod daemon;

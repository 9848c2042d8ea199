//! `kron init`: re-initialising an existing project needs `--force`.

use vstd::prelude::*;
use crate::domain::init::Prepare;
use crate::error::{KronError, Result};

verus! {

/// Initialisation proceeds unless `kron-internal/` already exists and
/// `--force` is not given (then the project root is reported).
pub fn check_reinit(prep: &Prepare, force: bool) -> (res: Result<()>)
    ensures
        prep.kron_dir_exists && !force ==> (res matches Err(KronError::AlreadyInitialized(p)) && p@
            == prep.project_root@),
        !(prep.kron_dir_exists && !force) ==> res is Ok,
{
    if prep.kron_dir_exists && !force {
        return Err(KronError::AlreadyInitialized(prep.project_root.clone()));
    }
    Ok(())
}

} // verus!

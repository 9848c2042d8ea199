//! `kron path`: print one of the project's directories.

use vstd::prelude::*;
use crate::error::{KronError, Result};
use crate::paths::{join, join_spec};
use crate::text::owned;

verus! {

/// The directory `kron path` prints: `kron-internal/` for `--kron-root`,
/// `KRON/important/` for `--important`; exactly one of them must be set.
pub fn path_for(root: &str, kron_root: bool, important: bool) -> (res: Result<String>)
    ensures
        kron_root == important ==> (res matches Err(KronError::Cli(m)) && m@
            == "exactly one of --kron-root / --important must be set"@),
        kron_root && !important ==> (res matches Ok(p) && p@ == join_spec(root@, "kron-internal"@)),
        important && !kron_root ==> (res matches Ok(p) && p@ == join_spec(
            join_spec(root@, "KRON"@),
            "important"@,
        )),
{
    if kron_root == important {
        return Err(KronError::Cli(owned("exactly one of --kron-root / --important must be set")));
    }
    if kron_root {
        Ok(join(root, "kron-internal"))
    } else {
        let public = join(root, "KRON");
        Ok(join(public.as_str(), "important"))
    }
}

} // verus!

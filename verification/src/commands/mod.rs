//! The decisions of the command layer: which vertex a command targets,
//! what a configuration key reads and accepts, which paths may be
//! registered as important, and how task tags and metadata change.

use vstd::prelude::*;
use crate::output::OutputMode;

pub mod config;
pub mod conflict;
pub mod attach;
pub mod context;
pub mod init;
pub mod path;
pub mod status;
pub mod important;
pub mod task;
pub mod vertex;

verus! {

/// Shared per-command context: the output mode, the verbosity flag and,
/// once resolved, the project root.
#[derive(Debug, Clone)]
pub struct Ctx {
    pub mode: OutputMode,
    pub verbose: bool,
    pub project_root: Option<String>,
}

impl Ctx {
    /// A context whose project root is not resolved yet.
    pub fn new(mode: OutputMode, verbose: bool) -> (res: Self)
        ensures
            res.mode == mode,
            res.verbose == verbose,
            res.project_root is None,
    {
        Ctx { mode, verbose, project_root: None }
    }
}

} // verus!

//! The command-line options the entry point supplies.
use vstd::prelude::*;

verus! {

/// Options of one run: where the configuration lives, how loudly to log,
/// and whether mutations are only announced.
#[derive(Debug, Clone)]
pub struct Cli {
    /// Configuration file location.
    pub configuration: String,
    /// Verbosity.
    pub verbose: bool,
    /// Announce intended actions without performing them.
    pub dry_run: bool,
}

} // verus!

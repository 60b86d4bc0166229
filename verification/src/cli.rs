//! What the command line can say.
use vstd::prelude::*;

verus! {

/// The arguments of the daemon.
#[derive(Debug, Clone, PartialEq, Eq)]
pub struct Cli {
    /// Where the configuration is, where it is not in its usual place.
    pub config: Option<String>,
}

} // verus!

//! The members of a list, as a file of its own holds them.
use vstd::prelude::*;

verus! {

/// The addresses that a list delivers to, in the order in which they are
/// served.
#[derive(Debug, Clone, PartialEq, Eq)]
pub struct Members {
    pub members: Vec<String>,
}

} // verus!

//! The parsed command line of `-T`.
use vstd::prelude::*;

verus! {

/// The flags and targets of `-T`, as parsed from the command line.
pub struct Args {
    pub deps: Vec<String>,
}

} // verus!

//! What the `-T` operation reads, independent of the command-line parser.
use vstd::prelude::*;

verus! {

/// The inputs of `-T`.
pub struct Params {
    pub deps: Vec<String>,
}

} // verus!

//! What the `-D` operation reads, independent of the command-line parser.
use vstd::prelude::*;

verus! {

/// The inputs of `-D`.
pub struct Params {
    pub asdeps: bool,
    pub asexplicit: bool,
    pub check: u8,
    pub quiet: bool,
    pub packages: Vec<String>,
}

} // verus!

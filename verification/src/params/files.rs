//! What the `-F` operation reads, independent of the command-line parser.
use vstd::prelude::*;

verus! {

/// The inputs of `-F`.
pub struct Params {
    pub refresh: u8,
    pub list: bool,
    pub search: bool,
    pub regex: bool,
    pub quiet: bool,
    pub machinereadable: bool,
    pub targets: Vec<String>,
}

} // verus!

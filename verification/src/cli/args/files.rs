//! The parsed command line of `-F`.
use vstd::prelude::*;

verus! {

/// The flags and targets of `-F`, as parsed from the command line.
pub struct Args {
    pub refresh: u8,
    pub list: bool,
    pub search: bool,
    pub regex: bool,
    pub quiet: bool,
    pub machinereadable: bool,
    pub targets: Vec<String>,
}

} // verus!

//! The parsed command line of `-D`.
use vstd::prelude::*;

verus! {

/// The flags and targets of `-D`, as parsed from the command line.
pub struct Args {
    pub asdeps: bool,
    pub asexplicit: bool,
    pub check: u8,
    pub quiet: bool,
    pub packages: Vec<String>,
}

} // verus!

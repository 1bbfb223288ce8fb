//! The parsed command line of `-Q`.
use vstd::prelude::*;

verus! {

/// The flags and targets of `-Q`, as parsed from the command line.
pub struct Args {
    pub changelog: bool,
    pub deps: bool,
    pub explicit: bool,
    pub groups: bool,
    pub info: u8,
    pub check: u8,
    pub list: bool,
    pub foreign: bool,
    pub native: bool,
    pub owns: Option<String>,
    pub file: Option<String>,
    pub quiet: bool,
    pub search: Option<String>,
    pub unrequired: bool,
    pub upgrades: bool,
    pub packages: Vec<String>,
}

} // verus!

//! The parsed command line of `-S`.
use vstd::prelude::*;

verus! {

/// The flags and targets of `-S`, as parsed from the command line.
pub struct Args {
    pub clean: u8,
    pub groups: bool,
    pub info: u8,
    pub list: bool,
    pub print: bool,
    pub print_format: Option<String>,
    pub quiet: bool,
    pub search: Option<String>,
    pub sysupgrade: u8,
    pub downloadonly: bool,
    pub refresh: u8,
    pub needed: bool,
    pub asdeps: bool,
    pub asexplicit: bool,
    pub ignore: Vec<String>,
    pub ignoregroup: Vec<String>,
    pub overwrite: Vec<String>,
    pub noconfirm: bool,
    pub noprogressbar: bool,
    pub noscriptlet: bool,
    pub targets: Vec<String>,
}

} // verus!

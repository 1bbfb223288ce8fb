//! What the `-S` operation reads, independent of the command-line parser.
use vstd::prelude::*;

verus! {

/// The inputs of `-S`.
pub struct Params {
    pub clean: u8,
    pub groups: bool,
    pub info: u8,
    pub list: bool,
    pub print: bool,
    pub print_format: Option<String>,
    pub quiet: bool,
    pub search: Option<String>,
    pub sysupgrade: u8,
    pub downloadonly: bool,
    pub refresh: u8,
    pub needed: bool,
    pub asdeps: bool,
    pub asexplicit: bool,
    pub ignore: Vec<String>,
    pub ignoregroup: Vec<String>,
    pub overwrite: Vec<String>,
    pub noconfirm: bool,
    pub noprogressbar: bool,
    pub noscriptlet: bool,
    pub targets: Vec<String>,
}

} // verus!

//! The parsed command line of `-U`.
use vstd::prelude::*;

verus! {

/// The flags and targets of `-U`, as parsed from the command line.
pub struct Args {
    pub print: bool,
    pub print_format: Option<String>,
    pub nodeps: u8,
    pub asdeps: bool,
    pub asexplicit: bool,
    pub overwrite: Vec<String>,
    pub needed: bool,
    pub dbonly: bool,
    pub noscriptlet: bool,
    pub noconfirm: bool,
    pub noprogressbar: bool,
    pub files: Vec<String>,
}

} // verus!

//! The parsed command line of `-R`.
use vstd::prelude::*;

verus! {

/// The flags and targets of `-R`, as parsed from the command line.
pub struct Args {
    pub cascade: bool,
    pub nodeps: u8,
    pub nosave: bool,
    pub print: bool,
    pub print_format: Option<String>,
    pub recursive: u8,
    pub unneeded: bool,
    pub assume_installed: Vec<String>,
    pub dbonly: bool,
    pub noconfirm: bool,
    pub noprogressbar: bool,
    pub noscriptlet: bool,
    pub packages: Vec<String>,
}

} // verus!

//! What the `-R` operation reads, independent of the command-line parser.
use vstd::prelude::*;

verus! {

/// The inputs of `-R`.
pub struct Params {
    pub cascade: bool,
    pub nodeps: u8,
    pub nosave: bool,
    pub print: bool,
    pub print_format: Option<String>,
    pub recursive: u8,
    pub unneeded: bool,
    pub assume_installed: Vec<String>,
    pub dbonly: bool,
    pub noconfirm: bool,
    pub noprogressbar: bool,
    pub noscriptlet: bool,
    pub packages: Vec<String>,
}

} // verus!

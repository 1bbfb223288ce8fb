//! What the `-U` operation reads, independent of the command-line parser.
use vstd::prelude::*;

verus! {

/// The inputs of `-U`.
pub struct Params {
    pub print: bool,
    pub print_format: Option<String>,
    pub nodeps: u8,
    pub asdeps: bool,
    pub asexplicit: bool,
    pub overwrite: Vec<String>,
    pub needed: bool,
    pub dbonly: bool,
    pub noscriptlet: bool,
    pub noconfirm: bool,
    pub noprogressbar: bool,
    pub files: Vec<String>,
}

} // verus!

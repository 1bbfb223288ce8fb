//! The parsed command line of `-I`.
use vstd::prelude::*;

verus! {

/// The flags and targets of `-I`, as parsed from the command line.
pub struct Args {
    pub list: bool,
    pub info: u8,
    pub check_new: bool,
    pub upgrade: u8,
    pub clean: u8,
    pub pending: bool,
    pub reboot: bool,
    pub components: bool,
    pub features: bool,
    pub enable: Option<String>,
    pub disable: Option<String>,
    pub appstream: bool,
    pub offline: bool,
    pub reinstall_layered: bool,
    pub dry_run: bool,
    pub quiet: bool,
    pub noconfirm: bool,
    pub noprogressbar: bool,
    pub json: Option<String>,
    pub targets: Vec<String>,
}

} // verus!

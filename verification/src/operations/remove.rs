//! `-R`: the transaction flags its options select.
use crate::operations::sync::{
    flag_if, TRANS_CASCADE, TRANS_DBONLY, TRANS_NODEPS, TRANS_NODEPVERSION, TRANS_NOSAVE,
    TRANS_NOSCRIPTLET, TRANS_RECURSE, TRANS_RECURSEALL, TRANS_UNNEEDED,
};
use crate::params::remove::Params;
use vstd::prelude::*;

verus! {

/// The flags of a count option: none, the first flag once, the second
/// (with `also`) from twice on.
pub open spec fn level_flags(n: u8, once: u32, twice: u32) -> u32 {
    if n == 0 {
        0
    } else if n == 1 {
        once
    } else {
        twice
    }
}

/// The transaction flags of `-R`: `-c`, `-d` (`-dd` skips all dependency
/// checks), `-n`, `-s` (`-ss` also removes explicitly installed
/// dependencies), `-u`, `--dbonly`, `--noscriptlet`.
pub open spec fn remove_flags(args: Params) -> u32 {
    flag_if(args.cascade, TRANS_CASCADE) | level_flags(args.nodeps, TRANS_NODEPVERSION, TRANS_NODEPS) | flag_if(
        args.nosave,
        TRANS_NOSAVE,
    ) | level_flags(args.recursive, TRANS_RECURSE, TRANS_RECURSE | TRANS_RECURSEALL) | flag_if(
        args.unneeded,
        TRANS_UNNEEDED,
    ) | flag_if(args.dbonly, TRANS_DBONLY) | flag_if(args.noscriptlet, TRANS_NOSCRIPTLET)
}

pub(crate) fn level_bits(n: u8, once: u32, twice: u32) -> (r: u32)
    ensures
        r == level_flags(n, once, twice),
{
    if n == 0 {
        0
    } else if n == 1 {
        once
    } else {
        twice
    }
}

fn bits(on: bool, b: u32) -> (r: u32)
    ensures
        r == flag_if(on, b),
{
    if on {
        b
    } else {
        0
    }
}

/// The transaction flags of `-R`.
pub fn build_flags(args: &Params) -> (r: u32)
    ensures
        r == remove_flags(*args),
{
    bits(args.cascade, TRANS_CASCADE) | level_bits(args.nodeps, TRANS_NODEPVERSION, TRANS_NODEPS) | bits(
        args.nosave,
        TRANS_NOSAVE,
    ) | level_bits(args.recursive, TRANS_RECURSE, TRANS_RECURSE | TRANS_RECURSEALL) | bits(
        args.unneeded,
        TRANS_UNNEEDED,
    ) | bits(args.dbonly, TRANS_DBONLY) | bits(args.noscriptlet, TRANS_NOSCRIPTLET)
}

} // verus!

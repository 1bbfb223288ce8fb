//! `-U`: the transaction flags its options select.
use crate::operations::remove::{level_bits, level_flags};
use crate::operations::sync::{
    flag_if, TRANS_ALLDEPS, TRANS_ALLEXPLICIT, TRANS_DBONLY, TRANS_NEEDED, TRANS_NODEPS,
    TRANS_NODEPVERSION, TRANS_NOSCRIPTLET,
};
use crate::params::upgrade::Params;
use vstd::prelude::*;

verus! {

/// The transaction flags of `-U`: `-d` (`-dd` skips all dependency checks),
/// `--dbonly`, `--noscriptlet`, `--needed`, `--asdeps`, `--asexplicit`.
pub open spec fn upgrade_flags(args: Params) -> u32 {
    level_flags(args.nodeps, TRANS_NODEPVERSION, TRANS_NODEPS) | flag_if(args.dbonly, TRANS_DBONLY) | flag_if(
        args.noscriptlet,
        TRANS_NOSCRIPTLET,
    ) | flag_if(args.needed, TRANS_NEEDED) | flag_if(args.asdeps, TRANS_ALLDEPS) | flag_if(
        args.asexplicit,
        TRANS_ALLEXPLICIT,
    )
}

fn bits(on: bool, b: u32) -> (r: u32)
    ensures
        r == flag_if(on, b),
{
    if on {
        b
    } else {
        0
    }
}

/// The transaction flags of `-U`.
pub fn build_flags(args: &Params) -> (r: u32)
    ensures
        r == upgrade_flags(*args),
{
    level_bits(args.nodeps, TRANS_NODEPVERSION, TRANS_NODEPS) | bits(args.dbonly, TRANS_DBONLY) | bits(
        args.noscriptlet,
        TRANS_NOSCRIPTLET,
    ) | bits(args.needed, TRANS_NEEDED) | bits(args.asdeps, TRANS_ALLDEPS) | bits(args.asexplicit, TRANS_ALLEXPLICIT)
}

} // verus!

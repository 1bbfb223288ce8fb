//! Per-operation inputs, free of the command-line parser.
use vstd::prelude::*;

pub mod database;
pub mod query;
pub mod remove;
pub mod sync;
pub mod deptest;
pub mod upgrade;
pub mod files;
pub mod images;

verus! {

/// What building an operation context reads from the command line.
pub struct ContextParams {
    pub config: Option<String>,
    pub root: Option<String>,
    pub dbpath: Option<String>,
}

} // verus!

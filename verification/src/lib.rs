//! A dead-code detector for Python: the analysis core.
use vstd::prelude::*;

pub mod text;
pub mod names;
pub mod syntax;
pub mod parser;
pub mod treesitter;
pub mod mirroring;
pub mod glob;
pub mod config;
pub mod analysis;
pub mod paths;
pub mod sorting;
pub mod output;
pub mod whitelist;
pub mod discovery;
pub mod laws;

verus! {

} // verus!

//! polyws: a polyrepo workspace orchestrator.
use vstd::prelude::*;

pub mod cli;
pub mod clock;
pub mod config;
pub mod dirs;
pub mod doctor;
pub mod exec;
pub mod git;
pub mod graph;
pub mod graph_laws;
pub mod parse;
pub mod report;
pub mod snapshot;
pub mod sorting;
pub mod sync;
pub mod text;
pub mod tui;
pub mod update;
pub mod utils;
pub mod vm;
pub mod workspace;
pub mod workspace_laws;

verus! {

} // verus!

//! Verified core of gh-sync: template-sync helpers for GitHub repositories.
use vstd::prelude::*;

pub mod cli;
pub mod init;
pub mod json;
pub mod pr;
pub mod runner;
pub mod strategy;
pub mod text;
pub mod upstream;
pub mod workflow;

verus! {

} // verus!

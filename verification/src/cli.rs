//! The command line: subcommands and their arguments.
use vstd::prelude::*;

use crate::init::InitArgs;

verus! {

/// gh-sync CLI for pulling upstream files into downstream repos.
#[derive(Debug, Clone)]
pub struct Cli {
    /// The subcommand to run.
    pub command: Commands,
}

/// Available subcommands.
#[derive(Debug, Clone)]
pub enum Commands {
    /// Synchronize files or repository settings from upstream
    Sync(SyncArgs),
    /// Initialize a gh-sync configuration file
    Init(InitArgs),
}

/// Arguments for the `sync` subcommand.
#[derive(Debug, Clone)]
pub struct SyncArgs {
    /// Manifest path
    pub manifest: String,
    /// Preview only: print the diff, change no file
    pub dry_run: bool,
    /// Validate the manifest only
    pub validate: bool,
    /// Drift detection
    pub ci_check: bool,
    /// Regenerate patch files from the diff against upstream
    pub patch_refresh: bool,
}

} // verus!

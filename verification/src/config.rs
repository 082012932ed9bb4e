//! The configuration the backup workflow runs with: which paths to include,
//! which patterns exclude, and where the archive goes. Reading and decoding
//! the configuration file happens outside the library; these are the plain
//! values it yields.

use vstd::prelude::*;

verus! {

/// What to back up and where to put the result.
#[derive(Debug)]
pub struct Backups {
    pub inputs: Vec<String>,
    pub exclude: Vec<String>,
    pub output_directory: String,
    pub output_suffix: String,
}

/// Credentials the surrounding workflow may carry.
#[derive(Debug)]
pub struct Secrets {
    pub disk_token: Option<String>,
}

/// The whole configuration.
#[derive(Debug)]
pub struct Config {
    pub backups: Backups,
    pub secrets: Secrets,
}

} // verus!

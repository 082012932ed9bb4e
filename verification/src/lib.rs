//! A backup packaging library: it resolves a list of input paths, applies
//! gitignore-style exclusion rules, and streams the surviving entries into a
//! gzip-compressed tar archive with deterministic relative names.

pub mod api;
pub mod archive;
pub mod config;
pub mod matcher;
pub mod pack;
pub mod paths;
pub mod progress;
pub mod tools;

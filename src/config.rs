//! The process-wide configuration.
use vstd::prelude::*;
use crate::paths::{join_path, joined, DEFAULT_DOWNLOAD_BASE_DIR};

verus! {

#[derive(Clone, Debug, PartialEq, Eq)]
pub struct Config {
    /// Subscriptions download into folders below this directory.
    pub base_directory: String,
}

impl Config {
    /// The configuration used when none is stored: downloads go below `base_dir`.
    pub fn default_config(base_dir: &str) -> (r: Config)
        ensures
            r.base_directory@ == joined(base_dir@, DEFAULT_DOWNLOAD_BASE_DIR@),
    {
        Config { base_directory: join_path(base_dir, DEFAULT_DOWNLOAD_BASE_DIR) }
    }
}

} // verus!

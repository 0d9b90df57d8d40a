//! Where the gateway finds its configuration.

use crate::text::owned;
use vstd::prelude::*;

verus! {

/// The configuration file that is read when none is named.
pub const DEFAULT_CONFIG_FILE: &'static str = "gateway.yaml";

/// The options of the command line.
#[derive(Debug)]
pub struct Cli {
    /// The path of the configuration file.
    pub config: String,
}

impl Cli {
    /// The options for a command line that names `config`, or names no
    /// file and so means the default one.
    pub fn new(config: Option<String>) -> (r: Cli)
        ensures
            r.config@ == match config {
                Some(path) => path@,
                None => DEFAULT_CONFIG_FILE@,
            },
    {
        match config {
            Some(path) => Cli { config: path },
            None => Cli { config: owned(DEFAULT_CONFIG_FILE) },
        }
    }
}

} // verus!

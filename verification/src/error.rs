//! Errors surfaced by configuration loading.

use vstd::prelude::*;

use crate::path::FsPath;

verus! {

/// Why loading a configuration failed.  A failure aborts the load entirely:
/// no partial configuration value is ever produced.
#[derive(Debug, Clone, PartialEq, Eq)]
pub enum ConfigError {
    /// The configuration source exists but could not be read.
    IoError { message: String },
    /// The document at `path` is not well-formed TOML, or does not fit the
    /// configuration schema.
    TomlParseError { path: FsPath, message: String },
}

} // verus!

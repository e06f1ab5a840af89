//! How the vault is walked for the files to export. The walk itself reads the
//! file system and is no part of this library; the exporter keeps the
//! options for it.

use vstd::prelude::*;
use vstd::string::StringExecFns;

verus! {

/// How the vault is walked for the files to export.
#[derive(Debug, Clone, PartialEq, Eq)]
pub struct WalkOptions {
    /// The name of the files that hold ignore rules in gitignore syntax.
    pub ignore_filename: String,
    /// Whether hidden files are left out.
    pub ignore_hidden: bool,
    /// Whether git's ignore rules are honoured.
    pub honor_gitignore: bool,
}

impl WalkOptions {
    /// The default options: rules are read from `.export-ignore`, hidden
    /// files are left out, git's ignore rules are honoured.
    pub fn new() -> (options: Self)
        ensures
            options.ignore_filename@ == ".export-ignore"@,
            options.ignore_hidden,
            options.honor_gitignore,
    {
        WalkOptions {
            ignore_filename: String::from_str(".export-ignore"),
            ignore_hidden: true,
            honor_gitignore: true,
        }
    }
}

impl Default for WalkOptions {
    fn default() -> (options: Self)
        ensures
            options.ignore_filename@ == ".export-ignore"@,
            options.ignore_hidden,
            options.honor_gitignore,
    {
        Self::new()
    }
}

} // verus!

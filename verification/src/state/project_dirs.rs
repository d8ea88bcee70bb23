//! The directories the program keeps its files in.

use vstd::prelude::*;

verus! {

/// Chooses the directories of the program.
#[derive(Debug, Default)]
pub struct ProjectDirs;

/// The directories named after the program's name.
#[derive(Debug, Default)]
pub struct FromAppName;

impl ProjectDirs {
    /// The directories named after the program's name.
    pub fn from_app_name() -> FromAppName {
        FromAppName
    }
}

} // verus!

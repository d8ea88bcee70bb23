//! The default values a run starts from.

use crate::schemas::config::bstring::BString;
use vstd::prelude::*;

verus! {

/// Chooses the default values.
#[derive(Debug, Default)]
pub struct Defaults;

/// No default values.
#[derive(Debug, Default)]
pub struct NoDefaults;

/// The default values: the configuration file to read.
#[derive(Debug)]
pub struct DefaultValues {
    pub config_path: Option<BString>,
}

impl Defaults {
    /// No default values.
    pub fn no_defaults() -> NoDefaults {
        NoDefaults
    }
}

impl NoDefaults {
    /// The values this choice sets: none.
    pub fn run(self) -> (r: DefaultValues)
        ensures
            r.config_path is None,
    {
        DefaultValues { config_path: None }
    }
}

impl DefaultValues {
    /// The values this choice sets: these.
    pub fn run(self) -> (r: DefaultValues)
        ensures
            r == self,
    {
        self
    }
}

} // verus!

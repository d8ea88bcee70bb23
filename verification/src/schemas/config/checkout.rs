//! Checkout directories and storages: plain paths with a default flag.

use crate::schemas::config::bstring::BString;
use crate::schemas::config::merge::Merge;
use vstd::prelude::*;

verus! {

/// A checkout directory entry.
#[derive(Debug)]
pub struct Checkout {
    pub path: BString,
    pub default: Option<bool>,
    pub merge: Merge,
}

impl Checkout {
    /// The entry that the short form `checkout = "<path>"` stands for.
    pub fn from_short(path: BString) -> (r: Checkout)
        ensures
            r.path@ == path@,
            r.default is None,
            r.merge == Merge::new_spec(),
    {
        Checkout { path, default: None, merge: Merge::new() }
    }
}

/// A storage entry.
#[derive(Debug)]
pub struct Storage {
    pub path: BString,
    pub default: Option<bool>,
}

impl Storage {
    /// The entry that the short form `storage = "<path>"` stands for.
    pub fn from_short(path: BString) -> (r: Storage)
        ensures
            r.path@ == path@,
            r.default is None,
    {
        Storage { path, default: None }
    }
}

} // verus!

//! The name the program runs under.

use vstd::prelude::*;

verus! {

/// Chooses the name the program runs under.
#[derive(Debug, Default)]
pub struct AppName;

/// The program's own name.
#[derive(Debug, Default)]
pub struct ProjectName;

/// A name given by the caller.
#[derive(Debug)]
pub struct Custom<T>(pub T);

impl AppName {
    /// The program's own name.
    pub fn project_name() -> ProjectName {
        ProjectName
    }

    /// The name `app_name`.
    pub fn custom<T>(app_name: T) -> (r: Custom<T>)
        ensures
            r.0 == app_name,
    {
        Custom(app_name)
    }
}

impl ProjectName {
    /// The name this choice sets: the program's own.
    pub fn run(self) -> (r: &'static str)
        ensures
            r@ == crate::schemas::directories::PROJECT_NAME@,
    {
        crate::schemas::directories::PROJECT_NAME
    }
}

impl<T> Custom<T> {
    /// The name this choice sets: the one given.
    pub fn run(self) -> (r: T)
        ensures
            r == self.0,
    {
        self.0
    }
}

} // verus!

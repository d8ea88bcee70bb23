//! Verified core of a git repository manager: parsing of task strings,
//! tokenising of path templates, matching of queries against templates,
//! merging of layered configuration files, and resolving tasks to the
//! entries of those layers.

pub mod bytes;
pub mod cli;
pub mod task;
pub mod template;
pub mod state;
pub mod schemas;

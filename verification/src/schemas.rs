//! The files of the program: configuration, repo manifests, their paths,
//! and their building blocks.

pub mod config;
pub mod directories;
pub mod repo_manifest;
pub mod utils;

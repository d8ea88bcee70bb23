//! Ordered byte-string keys, and maps of entries keyed by them.

pub mod entry_map;
pub mod keys;

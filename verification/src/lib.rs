//! Bulk file renaming: parsing the command line into a configuration,
//! transforming file base names (sequential numbering or case mapping),
//! splitting a file name into base name and extension, and resolving
//! name collisions for the sequential mode.

pub mod casing;
pub mod config;
pub mod naming;
pub mod resolve;
pub mod transform;

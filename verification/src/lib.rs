//! Generates boot-loader entry files for a UEFI boot manager that reads one
//! configuration file per bootable kernel.
//!
//! The library holds the reconciliation core: extracting kernel versions from
//! directory listings, deciding which versions are complete enough to boot,
//! rendering entry documents, and planning writes and removals. Reading
//! directories, loading configuration, and touching the filesystem are left
//! to the surrounding program.

pub mod entry;
pub mod model;
pub mod names;
pub mod plan;
pub mod scan;
pub mod text;

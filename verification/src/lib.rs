//! Path, callback and file-table logic of a mod loader for the ARC archive.

pub mod api;
pub mod arc;
pub mod ctx;
pub mod files;

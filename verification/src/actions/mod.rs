//! Maintenance actions on a table.

pub mod guarantees;
pub mod laws;
pub mod orphan_file;
pub mod orphan_run;
pub mod reachable;
pub mod remove_orphan_files;

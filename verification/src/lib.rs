//! Table maintenance for Iceberg tables: the decisions behind orphan-file
//! removal and behind transactions that replace one set of files with another.

pub mod actions;
pub mod error;
pub mod metadata;
pub mod properties;
pub mod text;
pub mod time;
pub mod transaction;

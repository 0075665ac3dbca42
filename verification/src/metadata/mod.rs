//! The parts of table metadata that the actions read.

pub mod data_file;
pub mod laws;
pub mod manifest;
pub mod storage;
pub mod table;

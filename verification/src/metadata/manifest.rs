//! Manifest files and their entries.

use vstd::prelude::*;

use crate::metadata::data_file::{DataContentType, DataFile};

verus! {

/// How a manifest entry came to be.
#[derive(Debug, Clone, Copy, PartialEq, Eq, Structural)]
pub enum ManifestStatus {
    /// The file was in the table before.
    Existing,
    /// The file was added.
    Added,
    /// The file was removed.
    Deleted,
}

/// What the files of a manifest hold.
#[derive(Debug, Clone, Copy, PartialEq, Eq, Structural)]
pub enum ManifestContentType {
    /// Data files.
    Data,
    /// Delete files.
    Deletes,
}

/// One file in a manifest.
#[derive(Debug, Clone, PartialEq, Eq)]
pub struct ManifestEntry {
    /// How the entry came to be.
    pub status: ManifestStatus,
    /// The snapshot that added the file, or removed it.
    pub snapshot_id: Option<i64>,
    /// Data sequence number of the file.
    pub sequence_number: Option<i64>,
    /// Sequence number of the snapshot that added the file.
    pub file_sequence_number: Option<i64>,
    /// The file.
    pub data_file: DataFile,
}

impl ManifestEntry {
    /// The path of the file.
    pub open spec fn path(self) -> Seq<char> {
        self.data_file.path()
    }

    /// The file is part of the table.
    pub open spec fn alive(self) -> bool {
        self.status != ManifestStatus::Deleted
    }

    /// Returns what the rows of the file stand for.
    pub fn content_type(&self) -> (content: DataContentType)
        ensures
            content == self.data_file.content,
    {
        self.data_file.content_type()
    }

    /// Returns the path of the file.
    pub fn file_path(&self) -> (path: &str)
        ensures
            path@ == self.path(),
    {
        self.data_file.file_path()
    }

    /// Tells whether the file is part of the table: added or existing.
    pub fn is_alive(&self) -> (alive: bool)
        ensures
            alive == self.alive(),
    {
        match self.status {
            ManifestStatus::Added | ManifestStatus::Existing => true,
            ManifestStatus::Deleted => false,
        }
    }
}

/// One manifest in a manifest list, as far as the actions read it; its path
/// tells it apart from others.
#[derive(Debug, PartialEq, Eq)]
pub struct ManifestFile {
    /// Full path of the manifest.
    pub manifest_path: String,
    /// What the files of the manifest hold.
    pub content: ManifestContentType,
    /// The partition spec of the files.
    pub partition_spec_id: i32,
    /// The snapshot that added the manifest.
    pub added_snapshot_id: i64,
}

impl ManifestFile {
    /// The path of the manifest.
    pub open spec fn path(self) -> Seq<char> {
        self.manifest_path@
    }
}

impl Clone for ManifestFile {
    fn clone(&self) -> (copy: Self)
        ensures
            copy == *self,
    {
        ManifestFile {
            manifest_path: self.manifest_path.clone(),
            content: self.content,
            partition_spec_id: self.partition_spec_id,
            added_snapshot_id: self.added_snapshot_id,
        }
    }
}

} // verus!

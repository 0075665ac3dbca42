//! Snapshots, branches and the files that table metadata names.

use vstd::prelude::*;

verus! {

/// The branch that changes go to where no other is named.
pub const MAIN_BRANCH: &'static str = "main";

/// What a snapshot did to the table.
#[derive(Debug, Clone, Copy, PartialEq, Eq, Structural)]
pub enum Operation {
    /// Files were added and none removed.
    Append,
    /// Files were added and removed without changing table data.
    Replace,
    /// Files were added and removed in a logical overwrite.
    Overwrite,
    /// Files were removed and their rows deleted.
    Delete,
}

/// A state of the table, as far as the actions read it.
#[derive(Debug, PartialEq, Eq)]
pub struct Snapshot {
    /// Identifies the snapshot.
    pub snapshot_id: i64,
    /// The snapshot that this one follows.
    pub parent_snapshot_id: Option<i64>,
    /// Orders the changes to the table.
    pub sequence_number: i64,
    /// Path of the list of manifests; empty where there is none.
    pub manifest_list: String,
    /// What the snapshot did.
    pub operation: Operation,
}

impl Clone for Snapshot {
    fn clone(&self) -> (copy: Self)
        ensures
            copy == *self,
    {
        Snapshot {
            snapshot_id: self.snapshot_id,
            parent_snapshot_id: self.parent_snapshot_id,
            sequence_number: self.sequence_number,
            manifest_list: self.manifest_list.clone(),
            operation: self.operation,
        }
    }
}

/// A branch or tag.
#[derive(Debug, Clone, PartialEq, Eq)]
pub struct SnapshotReference {
    /// Name of the branch or tag.
    pub name: String,
    /// The snapshot it stands for.
    pub snapshot_id: i64,
}

/// An earlier metadata file of the table.
#[derive(Debug, Clone, PartialEq, Eq)]
pub struct MetadataLog {
    /// Path of the metadata file.
    pub metadata_file: String,
    /// When the file was replaced.
    pub timestamp_ms: i64,
}

/// A statistics file of the table or of its partitions.
#[derive(Debug, Clone, PartialEq, Eq)]
pub struct StatisticsFile {
    /// The snapshot that the statistics are about.
    pub snapshot_id: i64,
    /// Path of the file.
    pub statistics_path: String,
}

/// The parts of a table's metadata that the actions read.
#[derive(Debug, Clone, PartialEq, Eq)]
pub struct TableMetadata {
    /// Directory of the table.
    pub location: String,
    /// Earlier metadata files.
    pub metadata_log: Vec<MetadataLog>,
    /// Table statistics.
    pub statistics: Vec<StatisticsFile>,
    /// Partition statistics.
    pub partition_statistics: Vec<StatisticsFile>,
    /// All snapshots.
    pub snapshots: Vec<Snapshot>,
    /// Branches and tags.
    pub refs: Vec<SnapshotReference>,
}

/// A table.
#[derive(Debug, Clone, PartialEq, Eq)]
pub struct Table {
    /// The current metadata.
    pub metadata: TableMetadata,
    /// Path of the current metadata file, where it was stored.
    pub metadata_location: Option<String>,
}

/// The first snapshot with the given id.
pub open spec fn find_snapshot(snapshots: Seq<Snapshot>, id: i64) -> Option<Snapshot>
    decreases snapshots.len(),
{
    if snapshots.len() == 0 {
        None
    } else if snapshots[0].snapshot_id == id {
        Some(snapshots[0])
    } else {
        find_snapshot(snapshots.drop_first(), id)
    }
}

/// The snapshot that the first branch or tag of the given name stands for.
pub open spec fn find_ref(refs: Seq<SnapshotReference>, name: Seq<char>) -> Option<i64>
    decreases refs.len(),
{
    if refs.len() == 0 {
        None
    } else if refs[0].name@ == name {
        Some(refs[0].snapshot_id)
    } else {
        find_ref(refs.drop_first(), name)
    }
}

/// A snapshot that was found is one of those searched and has the id sought.
pub proof fn found_snapshot_is_listed(snapshots: Seq<Snapshot>, id: i64)
    ensures
        find_snapshot(snapshots, id) matches Some(found) ==> found.snapshot_id == id
            && snapshots.contains(found),
    decreases snapshots.len(),
{
    if snapshots.len() > 0 && snapshots[0].snapshot_id != id {
        found_snapshot_is_listed(snapshots.drop_first(), id);
        if let Some(found) = find_snapshot(snapshots.drop_first(), id) {
            let i = choose|i: int|
                0 <= i < snapshots.drop_first().len() && snapshots.drop_first()[i] == found;
            assert(snapshots[i + 1] == found);
        }
    } else if snapshots.len() > 0 {
        assert(snapshots.contains(snapshots[0]));
    }
}

impl TableMetadata {
    /// The snapshot at the tip of a branch, where there is one.
    pub open spec fn tip(self, branch: Seq<char>) -> Option<Snapshot> {
        match find_ref(self.refs@, branch) {
            Some(id) => find_snapshot(self.snapshots@, id),
            None => None,
        }
    }

    /// Returns the snapshot with the given id.
    pub fn snapshot_by_id(&self, id: i64) -> (found: Option<&Snapshot>)
        ensures
            found is Some == find_snapshot(self.snapshots@, id) is Some,
            found matches Some(snapshot) ==> find_snapshot(self.snapshots@, id) == Some(*snapshot),
    {
        assert(self.snapshots@.skip(0) =~= self.snapshots@);
        for i in 0..self.snapshots.len()
            invariant
                find_snapshot(self.snapshots@, id) == find_snapshot(
                    self.snapshots@.skip(i as int),
                    id,
                ),
        {
            if self.snapshots[i].snapshot_id == id {
                return Some(&self.snapshots[i]);
            }
            assert(self.snapshots@.skip(i as int).drop_first() =~= self.snapshots@.skip(i + 1));
        }
        None
    }

    /// Returns the snapshot at the tip of a branch, or `None` where the branch
    /// does not exist or has no snapshot.
    pub fn snapshot_for_ref(&self, name: &str) -> (found: Option<&Snapshot>)
        ensures
            found is Some == self.tip(name@) is Some,
            found matches Some(snapshot) ==> self.tip(name@) == Some(*snapshot),
    {
        let wanted: String = name.to_owned();
        assert(self.refs@.skip(0) =~= self.refs@);
        for i in 0..self.refs.len()
            invariant
                wanted@ == name@,
                find_ref(self.refs@, name@) == find_ref(self.refs@.skip(i as int), name@),
        {
            if self.refs[i].name == wanted {
                return self.snapshot_by_id(self.refs[i].snapshot_id);
            }
            assert(self.refs@.skip(i as int).drop_first() =~= self.refs@.skip(i + 1));
        }
        None
    }
}

} // verus!

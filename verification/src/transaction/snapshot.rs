//! What a new snapshot is made of.

use uuid::Uuid;
use vstd::hash_set::StringHashSet;
use vstd::prelude::*;

use crate::metadata::data_file::DataFile;
use crate::metadata::table::MAIN_BRANCH;
use crate::properties::Properties;

verus! {

/// Identifies a commit: the 128 bits of a UUID, first byte highest.
#[derive(Debug, Clone, Copy, PartialEq, Eq, Structural)]
pub struct CommitUuid {
    /// The bits.
    pub bits: u128,
}

/// The bits are those of a UUID of version 7 in the variant that RFC 9562 lays
/// out: bits 76 to 79 hold the version, bits 62 and 63 the variant.
pub open spec fn is_version_7(bits: u128) -> bool {
    (bits >> 76u128) & 0xf == 7 && (bits >> 62u128) & 0x3 == 2
}

/// Draws a new identifier through `uuid::Uuid::now_v7` and returns its bits, as
/// `as_u128` gives them.
///
/// Claims that version and variant are set, which holds of every identifier that
/// is drawn. Nothing is claimed of the other bits: they rest on the clock, on a
/// counter and on random bits. The call panics where the clock stands before the
/// Unix epoch or the system has no random bits to give.
#[verifier::external_body]
fn draw_uuid_bits() -> (bits: u128)
    ensures
        is_version_7(bits),
{
    Uuid::now_v7().as_u128()
}

impl CommitUuid {
    /// Draws a new identifier.
    pub fn now_v7() -> (commit_uuid: Self)
        ensures
            is_version_7(commit_uuid.bits),
    {
        CommitUuid { bits: draw_uuid_bits() }
    }
}

/// The paths of some files.
pub open spec fn paths_of(files: Seq<DataFile>) -> Set<Seq<char>> {
    files.map_values(|file: DataFile| file.path()).to_set()
}

/// Collects the paths of some files.
fn collect_paths(files: &[DataFile]) -> (paths: StringHashSet)
    ensures
        paths@ == paths_of(files@),
{
    let mut paths: StringHashSet = StringHashSet::new();
    let ghost all = files@.map_values(|file: DataFile| file.path());
    assert(all.take(0).to_set() =~= Set::empty());
    for i in 0..files.len()
        invariant
            all == files@.map_values(|file: DataFile| file.path()),
            paths@ == all.take(i as int).to_set(),
    {
        let _ = paths.insert(files[i].file_path.clone());
        proof {
            assert(all.take(i + 1) =~= all.take(i as int).push(all[i as int]));
            all.take(i as int).lemma_push_to_set_commute(all[i as int]);
        }
    }
    assert(all.take(files.len() as int) =~= all);
    paths
}

/// The paths of the files that a snapshot removes, as sets.
#[verifier::ext_equal]
pub struct RemovedView {
    /// Paths of data files.
    pub data: Set<Seq<char>>,
    /// Paths of delete files.
    pub deletes: Set<Seq<char>>,
}

/// The paths of the files that a snapshot removes.
pub struct RemovedPaths {
    data: StringHashSet,
    deletes: StringHashSet,
}

impl View for RemovedPaths {
    type V = RemovedView;

    closed spec fn view(&self) -> RemovedView {
        RemovedView { data: self.data@, deletes: self.deletes@ }
    }
}

impl RemovedPaths {
    /// Tells whether a data file is removed.
    pub fn contains_data_file(&self, path: &str) -> (removed: bool)
        ensures
            removed == self@.data.contains(path@),
    {
        self.data.contains(path)
    }

    /// Tells whether a delete file is removed.
    pub fn contains_delete_file(&self, path: &str) -> (removed: bool)
        ensures
            removed == self@.deletes.contains(path@),
    {
        self.deletes.contains(path)
    }
}

/// What a new snapshot is made of. It looks at files and properties that the
/// action holds.
pub struct SnapshotProducer<'a> {
    /// Identifies the commit.
    pub commit_uuid: CommitUuid,
    /// Key metadata for manifest files.
    pub key_metadata: Option<&'a [u8]>,
    /// The id of the snapshot, where it was chosen.
    pub snapshot_id: Option<i64>,
    /// Properties of the snapshot.
    pub snapshot_properties: &'a Properties,
    /// Data files to add.
    pub added_data_files: &'a [DataFile],
    /// Delete files to add.
    pub added_delete_files: &'a [DataFile],
    /// Data files to remove.
    pub removed_data_files: &'a [DataFile],
    /// Delete files to remove.
    pub removed_delete_files: &'a [DataFile],
    /// The sequence number of added data files, where it is not the snapshot's own.
    pub new_data_file_sequence_number: Option<i64>,
    /// The branch that the snapshot goes to, where it is not the main one.
    pub target_branch: Option<&'a str>,
    /// Delete files that have lost their data files are dropped.
    pub delete_filter_manager_enabled: bool,
}

/// The mathematical value of a [`SnapshotProducer`].
#[verifier::ext_equal]
pub struct ProducerView {
    /// Identifies the commit.
    pub commit_uuid: CommitUuid,
    /// Key metadata for manifest files.
    pub key_metadata: Option<Seq<u8>>,
    /// The id of the snapshot, where it was chosen.
    pub snapshot_id: Option<i64>,
    /// Properties of the snapshot.
    pub snapshot_properties: Map<Seq<char>, Seq<char>>,
    /// Data files to add.
    pub added_data_files: Seq<DataFile>,
    /// Delete files to add.
    pub added_delete_files: Seq<DataFile>,
    /// Data files to remove.
    pub removed_data_files: Seq<DataFile>,
    /// Delete files to remove.
    pub removed_delete_files: Seq<DataFile>,
    /// The sequence number of added data files, where it is not the snapshot's own.
    pub new_data_file_sequence_number: Option<i64>,
    /// The branch that the snapshot goes to, where it is not the main one.
    pub target_branch: Option<Seq<char>>,
    /// Delete files that have lost their data files are dropped.
    pub delete_filter_manager_enabled: bool,
}

/// The value of key metadata.
pub open spec fn key_view(key_metadata: Option<&[u8]>) -> Option<Seq<u8>> {
    match key_metadata {
        Some(key) => Some(key@),
        None => None,
    }
}

/// The name of a branch, where there is one.
pub open spec fn branch_view(branch: Option<&str>) -> Option<Seq<char>> {
    match branch {
        Some(name) => Some(name@),
        None => None,
    }
}

/// The branch that a change goes to: the main one where no other is named.
pub open spec fn branch_or_main(branch: Option<Seq<char>>) -> Seq<char> {
    match branch {
        Some(name) => name,
        None => MAIN_BRANCH@,
    }
}

impl<'a> View for SnapshotProducer<'a> {
    type V = ProducerView;

    open spec fn view(&self) -> ProducerView {
        ProducerView {
            commit_uuid: self.commit_uuid,
            key_metadata: key_view(self.key_metadata),
            snapshot_id: self.snapshot_id,
            snapshot_properties: self.snapshot_properties@,
            added_data_files: self.added_data_files@,
            added_delete_files: self.added_delete_files@,
            removed_data_files: self.removed_data_files@,
            removed_delete_files: self.removed_delete_files@,
            new_data_file_sequence_number: self.new_data_file_sequence_number,
            target_branch: branch_view(self.target_branch),
            delete_filter_manager_enabled: self.delete_filter_manager_enabled,
        }
    }
}

impl<'a> SnapshotProducer<'a> {
    /// The branch that the snapshot goes to.
    pub open spec fn branch(self) -> Seq<char> {
        branch_or_main(branch_view(self.target_branch))
    }

    /// The paths of the files that the snapshot removes.
    pub open spec fn removed(self) -> RemovedView {
        RemovedView {
            data: paths_of(self.removed_data_files@),
            deletes: paths_of(self.removed_delete_files@),
        }
    }

    /// Returns a snapshot of the given files for the main branch, with no other choices made.
    #[allow(clippy::too_many_arguments)]
    pub fn new(
        commit_uuid: CommitUuid,
        key_metadata: Option<&'a [u8]>,
        snapshot_id: Option<i64>,
        snapshot_properties: &'a Properties,
        added_data_files: &'a [DataFile],
        added_delete_files: &'a [DataFile],
        removed_data_files: &'a [DataFile],
        removed_delete_files: &'a [DataFile],
    ) -> (producer: Self)
        ensures
            producer == (SnapshotProducer {
                commit_uuid,
                key_metadata,
                snapshot_id,
                snapshot_properties,
                added_data_files,
                added_delete_files,
                removed_data_files,
                removed_delete_files,
                new_data_file_sequence_number: None,
                target_branch: None,
                delete_filter_manager_enabled: false,
            }),
    {
        SnapshotProducer {
            commit_uuid,
            key_metadata,
            snapshot_id,
            snapshot_properties,
            added_data_files,
            added_delete_files,
            removed_data_files,
            removed_delete_files,
            new_data_file_sequence_number: None,
            target_branch: None,
            delete_filter_manager_enabled: false,
        }
    }

    /// Returns the name of the branch that the snapshot goes to.
    pub fn target_branch(&self) -> (branch: &str)
        ensures
            branch@ == self.branch(),
    {
        match self.target_branch {
            Some(branch) => branch,
            None => MAIN_BRANCH,
        }
    }

    /// Returns the paths of the files that the snapshot removes.
    pub fn removed_paths(&self) -> (removed: RemovedPaths)
        ensures
            removed@ == self.removed(),
    {
        RemovedPaths {
            data: collect_paths(self.removed_data_files),
            deletes: collect_paths(self.removed_delete_files),
        }
    }
}

} // verus!

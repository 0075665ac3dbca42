//! Replacing one set of files with another.

use std::marker::PhantomData;

use vstd::prelude::*;

use crate::metadata::data_file::{DataContentType, DataFile};
use crate::metadata::manifest::ManifestEntry;
use crate::metadata::table::{Operation, Table, TableMetadata};
use crate::properties::Properties;
use crate::text::{bool_of, parse_bool, parse_u32, u32_of};
use crate::transaction::commit::{commit_start, CommitCommand, CommitRun, ManifestProcess};
use crate::transaction::manifest_scan::{scan_start, ManifestScan, ScanCommand};
use crate::transaction::sealed::Sealed;
use crate::transaction::snapshot::{is_version_7, CommitUuid, SnapshotProducer};
use crate::transaction::{
    MANIFEST_MERGE_ENABLED, MANIFEST_MERGE_ENABLED_DEFAULT, MANIFEST_MIN_MERGE_COUNT,
    MANIFEST_MIN_MERGE_COUNT_DEFAULT, MANIFEST_TARGET_SIZE_BYTES,
    MANIFEST_TARGET_SIZE_BYTES_DEFAULT,
};

verus! {

/// Which snapshot [`Operation`] a file replacement records.
///
/// Rewrites and overwrites differ only in this value. No other type can be a
/// mode: [`Sealed`] cannot be named outside this crate.
pub trait ReplaceFilesMode: Sealed + Send + Sync + 'static {
    /// The operation to record.
    const OPERATION: Operation;
}

/// Files were added and removed without changing table data (compaction,
/// changing file format, relocating files).
#[derive(Debug, Clone, Copy)]
pub struct Rewrite;

/// Files were added and removed in a logical overwrite.
#[derive(Debug, Clone, Copy)]
pub struct Overwrite;

impl Sealed for Rewrite {

}

impl Sealed for Overwrite {

}

impl ReplaceFilesMode for Rewrite {
    const OPERATION: Operation = Operation::Replace;
}

impl ReplaceFilesMode for Overwrite {
    const OPERATION: Operation = Operation::Overwrite;
}

/// A rewrite records that files were replaced, an overwrite that they were
/// overwritten.
pub proof fn modes_map_to_their_operations()
    ensures
        <Rewrite as ReplaceFilesMode>::OPERATION == Operation::Replace,
        <Overwrite as ReplaceFilesMode>::OPERATION == Operation::Overwrite,
{
}

/// The part of a commit that takes files out of the table.
///
/// Going through the manifests of the parent snapshot yields both the manifests
/// that stay and the entries to record as deleted. The latter wait here until
/// they are asked for, so that no manifest is loaded twice.
#[derive(Debug)]
pub struct ReplaceFilesOperation<M: ReplaceFilesMode> {
    mode: PhantomData<M>,
    deleted_entries: Option<Vec<ManifestEntry>>,
}

impl<M: ReplaceFilesMode> ReplaceFilesOperation<M> {
    /// The entries that wait to be recorded as deleted, where there are any yet.
    pub closed spec fn pending(self) -> Option<Seq<ManifestEntry>> {
        match self.deleted_entries {
            Some(entries) => Some(entries@),
            None => None,
        }
    }

    /// Returns an operation that has not gone through any manifests.
    pub fn new() -> (operation: Self)
        ensures
            operation.pending() is None,
    {
        ReplaceFilesOperation { mode: PhantomData, deleted_entries: None }
    }

    /// Returns the operation to record.
    pub fn operation(&self) -> (operation: Operation)
        ensures
            operation == M::OPERATION,
    {
        M::OPERATION
    }

    /// Puts by the entries that are to be recorded as deleted, in place of earlier ones.
    pub(crate) fn with_deleted_entries(self, entries: Vec<ManifestEntry>) -> (operation: Self)
        ensures
            operation.pending() == Some(entries@),
    {
        ReplaceFilesOperation { mode: self.mode, deleted_entries: Some(entries) }
    }

    /// Starts to go through the manifests of the snapshot at the tip of the
    /// target branch. Where the branch has none, no manifest stays and nothing is
    /// put by.
    pub fn existing_manifest(self, producer: &SnapshotProducer<'_>, table: &TableMetadata) -> (
        started: (ManifestScan<M>, ScanCommand))
        ensures
            (started.0@, started.1@) == scan_start(
                self.pending(),
                producer.removed(),
                table.tip(producer.branch()),
            ),
    {
        let removed = producer.removed_paths();
        match table.snapshot_for_ref(producer.target_branch()) {
            Some(snapshot) => ManifestScan::start(self, removed, snapshot.clone()),
            None => ManifestScan::nothing(self, removed),
        }
    }

    /// Hands over the entries that wait to be recorded as deleted: none where no
    /// manifests have been gone through since the last time.
    pub fn delete_entries(&mut self) -> (entries: Vec<ManifestEntry>)
        ensures
            entries@ == (match old(self).pending() {
                Some(waiting) => waiting,
                None => Seq::<ManifestEntry>::empty(),
            }),
            final(self).pending() is None,
    {
        match self.deleted_entries.take() {
            Some(entries) => entries,
            None => Vec::new(),
        }
    }
}

/// The files that hold rows of the table.
pub open spec fn only_data(files: Seq<DataFile>) -> Seq<DataFile> {
    files.filter(|file: DataFile| !file.holds_deletes())
}

/// The files that hold deletes.
pub open spec fn only_deletes(files: Seq<DataFile>) -> Seq<DataFile> {
    files.filter(|file: DataFile| file.holds_deletes())
}

/// The number that a property stands for, or the default where it is not given
/// or no number.
pub open spec fn number_property(
    properties: Map<Seq<char>, Seq<char>>,
    name: Seq<char>,
    default: u32,
) -> u32 {
    if properties.contains_key(name) && u32_of(properties[name]) is Some {
        u32_of(properties[name])->Some_0
    } else {
        default
    }
}

/// The truth value that a property stands for, or the default where it is not
/// given or none.
pub open spec fn flag_property(
    properties: Map<Seq<char>, Seq<char>>,
    name: Seq<char>,
    default: bool,
) -> bool {
    if properties.contains_key(name) && bool_of(properties[name]) is Some {
        bool_of(properties[name])->Some_0
    } else {
        default
    }
}

/// Reads a number from the properties.
fn read_number(properties: &Properties, name: &str, default: u32) -> (number: u32)
    ensures
        number == number_property(properties@, name@, default),
{
    match properties.get(name) {
        Some(text) => match parse_u32(text.as_str()) {
            Some(number) => number,
            None => default,
        },
        None => default,
    }
}

/// Reads a truth value from the properties.
fn read_flag(properties: &Properties, name: &str, default: bool) -> (flag: bool)
    ensures
        flag == flag_property(properties@, name@, default),
{
    match properties.get(name) {
        Some(text) => match parse_bool(text.as_str()) {
            Some(flag) => flag,
            None => default,
        },
        None => default,
    }
}

/// Puts each file with the data files or with the delete files, behind those
/// that are there.
fn sort_by_content(files: Vec<DataFile>, data: &mut Vec<DataFile>, deletes: &mut Vec<DataFile>)
    ensures
        final(data)@ == old(data)@ + only_data(files@),
        final(deletes)@ == old(deletes)@ + only_deletes(files@),
{
    let ghost all = files@;
    let ghost is_data = |file: DataFile| !file.holds_deletes();
    let ghost is_deletes = |file: DataFile| file.holds_deletes();
    proof {
        reveal(Seq::filter);
        assert(data@ =~= old(data)@ + all.take(0).filter(is_data));
        assert(deletes@ =~= old(deletes)@ + all.take(0).filter(is_deletes));
    }
    for file in it: files.into_iter()
        invariant
            it.seq() == all,
            is_data == (|file: DataFile| !file.holds_deletes()),
            is_deletes == (|file: DataFile| file.holds_deletes()),
            data@ == old(data)@ + all.take(it.index() as int).filter(is_data),
            deletes@ == old(deletes)@ + all.take(it.index() as int).filter(is_deletes),
    {
        proof {
            let i = it.index() as int;
            assert(all.take(i + 1) =~= all.take(i).push(file));
            all.take(i).lemma_filter_push(file, is_data);
            all.take(i).lemma_filter_push(file, is_deletes);
        }
        match file.content_type() {
            DataContentType::Data => {
                data.push(file);
            },
            DataContentType::PositionDeletes | DataContentType::EqualityDeletes => {
                deletes.push(file);
            },
        }
    }
    assert(all.take(all.len() as int) =~= all);
}

/// The choices of a [`ReplaceFilesAction`].
#[verifier::ext_equal]
pub struct ReplaceFilesView {
    /// The size that merged manifests are meant to have.
    pub target_size_bytes: u32,
    /// The number of manifests from which on they are merged.
    pub min_count_to_merge: u32,
    /// Manifests are merged.
    pub merge_enabled: bool,
    /// Identifies the commit, where it was chosen.
    pub commit_uuid: Option<CommitUuid>,
    /// Key metadata for manifest files.
    pub key_metadata: Option<Seq<u8>>,
    /// Properties of the snapshot.
    pub snapshot_properties: Map<Seq<char>, Seq<char>>,
    /// Data files to add.
    pub added_data_files: Seq<DataFile>,
    /// Delete files to add.
    pub added_delete_files: Seq<DataFile>,
    /// Data files to remove.
    pub removed_data_files: Seq<DataFile>,
    /// Delete files to remove.
    pub removed_delete_files: Seq<DataFile>,
    /// The id of the snapshot, where it was chosen.
    pub snapshot_id: Option<i64>,
    /// The sequence number of added data files, where it is not the snapshot's own.
    pub new_data_file_sequence_number: Option<i64>,
    /// The branch that the snapshot goes to, where one was named.
    pub target_branch: Option<Seq<char>>,
    /// Delete files that have lost their data files are dropped.
    pub enable_delete_filter_manager: bool,
    /// The files are looked up before the commit.
    pub check_file_existence: bool,
    /// Delete files added since this snapshot are looked for before the commit.
    pub validate_from_snapshot_id: Option<i64>,
}

/// The choices of a new action.
pub open spec fn default_choices() -> ReplaceFilesView {
    ReplaceFilesView {
        target_size_bytes: MANIFEST_TARGET_SIZE_BYTES_DEFAULT,
        min_count_to_merge: MANIFEST_MIN_MERGE_COUNT_DEFAULT,
        merge_enabled: MANIFEST_MERGE_ENABLED_DEFAULT,
        commit_uuid: None,
        key_metadata: None,
        snapshot_properties: Map::empty(),
        added_data_files: Seq::empty(),
        added_delete_files: Seq::empty(),
        removed_data_files: Seq::empty(),
        removed_delete_files: Seq::empty(),
        snapshot_id: None,
        new_data_file_sequence_number: None,
        target_branch: None,
        enable_delete_filter_manager: false,
        check_file_existence: false,
        validate_from_snapshot_id: None,
    }
}

impl ReplaceFilesView {
    /// The same choices with further files to add.
    pub open spec fn adding(self, files: Seq<DataFile>) -> ReplaceFilesView {
        ReplaceFilesView {
            added_data_files: self.added_data_files + only_data(files),
            added_delete_files: self.added_delete_files + only_deletes(files),
            ..self
        }
    }

    /// The same choices with further files to remove.
    pub open spec fn removing(self, files: Seq<DataFile>) -> ReplaceFilesView {
        ReplaceFilesView {
            removed_data_files: self.removed_data_files + only_data(files),
            removed_delete_files: self.removed_delete_files + only_deletes(files),
            ..self
        }
    }

    /// The same choices but for the properties of the snapshot and what they
    /// say of merging manifests.
    pub open spec fn with_properties(
        self,
        properties: Map<Seq<char>, Seq<char>>,
    ) -> ReplaceFilesView {
        ReplaceFilesView {
            target_size_bytes: number_property(
                properties,
                MANIFEST_TARGET_SIZE_BYTES@,
                MANIFEST_TARGET_SIZE_BYTES_DEFAULT,
            ),
            min_count_to_merge: number_property(
                properties,
                MANIFEST_MIN_MERGE_COUNT@,
                MANIFEST_MIN_MERGE_COUNT_DEFAULT,
            ),
            merge_enabled: flag_property(
                properties,
                MANIFEST_MERGE_ENABLED@,
                MANIFEST_MERGE_ENABLED_DEFAULT,
            ),
            snapshot_properties: properties,
            ..self
        }
    }
}

/// Transaction action that replaces one set of files with another.
pub struct ReplaceFilesAction<M: ReplaceFilesMode> {
    target_size_bytes: u32,
    min_count_to_merge: u32,
    merge_enabled: bool,
    commit_uuid: Option<CommitUuid>,
    key_metadata: Option<Vec<u8>>,
    snapshot_properties: Properties,
    added_data_files: Vec<DataFile>,
    added_delete_files: Vec<DataFile>,
    removed_data_files: Vec<DataFile>,
    removed_delete_files: Vec<DataFile>,
    snapshot_id: Option<i64>,
    new_data_file_sequence_number: Option<i64>,
    target_branch: Option<String>,
    enable_delete_filter_manager: bool,
    check_file_existence: bool,
    validate_from_snapshot_id: Option<i64>,
    mode: PhantomData<M>,
}

/// Rewrites files without changing table data: compaction and friends.
pub type RewriteFilesAction = ReplaceFilesAction<Rewrite>;

/// Rewrites files as a logical overwrite.
pub type OverwriteFilesAction = ReplaceFilesAction<Overwrite>;

impl<M: ReplaceFilesMode> View for ReplaceFilesAction<M> {
    type V = ReplaceFilesView;

    closed spec fn view(&self) -> ReplaceFilesView {
        ReplaceFilesView {
            target_size_bytes: self.target_size_bytes,
            min_count_to_merge: self.min_count_to_merge,
            merge_enabled: self.merge_enabled,
            commit_uuid: self.commit_uuid,
            key_metadata: match self.key_metadata {
                Some(key) => Some(key@),
                None => None,
            },
            snapshot_properties: self.snapshot_properties@,
            added_data_files: self.added_data_files@,
            added_delete_files: self.added_delete_files@,
            removed_data_files: self.removed_data_files@,
            removed_delete_files: self.removed_delete_files@,
            snapshot_id: self.snapshot_id,
            new_data_file_sequence_number: self.new_data_file_sequence_number,
            target_branch: match self.target_branch {
                Some(name) => Some(name@),
                None => None,
            },
            enable_delete_filter_manager: self.enable_delete_filter_manager,
            check_file_existence: self.check_file_existence,
            validate_from_snapshot_id: self.validate_from_snapshot_id,
        }
    }
}

impl<M: ReplaceFilesMode> ReplaceFilesAction<M> {
    /// Returns an action that replaces no files.
    pub fn new() -> (action: Self)
        ensures
            action@ == default_choices(),
    {
        ReplaceFilesAction {
            target_size_bytes: MANIFEST_TARGET_SIZE_BYTES_DEFAULT,
            min_count_to_merge: MANIFEST_MIN_MERGE_COUNT_DEFAULT,
            merge_enabled: MANIFEST_MERGE_ENABLED_DEFAULT,
            commit_uuid: None,
            key_metadata: None,
            snapshot_properties: Properties::new(),
            added_data_files: Vec::new(),
            added_delete_files: Vec::new(),
            removed_data_files: Vec::new(),
            removed_delete_files: Vec::new(),
            snapshot_id: None,
            new_data_file_sequence_number: None,
            target_branch: None,
            enable_delete_filter_manager: false,
            check_file_existence: false,
            validate_from_snapshot_id: None,
            mode: PhantomData,
        }
    }

    /// Adds files to the snapshot: data files and delete files, each kind in the
    /// given order behind those added before.
    pub fn add_data_files(self, data_files: Vec<DataFile>) -> (action: Self)
        ensures
            action@ == self@.adding(data_files@),
    {
        let mut added_data_files: Vec<DataFile> = self.added_data_files;
        let mut added_delete_files: Vec<DataFile> = self.added_delete_files;
        sort_by_content(data_files, &mut added_data_files, &mut added_delete_files);
        ReplaceFilesAction { added_data_files, added_delete_files, ..self }
    }

    /// Removes files in the snapshot: data files and delete files, each kind in
    /// the given order behind those removed before.
    pub fn delete_files(self, remove_data_files: Vec<DataFile>) -> (action: Self)
        ensures
            action@ == self@.removing(remove_data_files@),
    {
        let mut removed_data_files: Vec<DataFile> = self.removed_data_files;
        let mut removed_delete_files: Vec<DataFile> = self.removed_delete_files;
        sort_by_content(remove_data_files, &mut removed_data_files, &mut removed_delete_files);
        ReplaceFilesAction { removed_data_files, removed_delete_files, ..self }
    }

    /// Sets the properties of the snapshot, among them how manifests are merged.
    pub fn set_snapshot_properties(&mut self, properties: Properties) -> (action: &mut Self)
        ensures
            action@ == old(self)@.with_properties(properties@),
            *final(self) == *final(action),
    {
        self.target_size_bytes = read_number(
            &properties,
            MANIFEST_TARGET_SIZE_BYTES,
            MANIFEST_TARGET_SIZE_BYTES_DEFAULT,
        );
        self.min_count_to_merge = read_number(
            &properties,
            MANIFEST_MIN_MERGE_COUNT,
            MANIFEST_MIN_MERGE_COUNT_DEFAULT,
        );
        self.merge_enabled = read_flag(
            &properties,
            MANIFEST_MERGE_ENABLED,
            MANIFEST_MERGE_ENABLED_DEFAULT,
        );
        self.snapshot_properties = properties;
        self
    }

    /// Sets the commit UUID for the snapshot.
    pub fn set_commit_uuid(&mut self, commit_uuid: CommitUuid) -> (action: &mut Self)
        ensures
            action@ == (ReplaceFilesView { commit_uuid: Some(commit_uuid), ..old(self)@ }),
            *final(self) == *final(action),
    {
        self.commit_uuid = Some(commit_uuid);
        self
    }

    /// Sets key metadata for manifest files.
    pub fn set_key_metadata(self, key_metadata: Vec<u8>) -> (action: Self)
        ensures
            action@ == (ReplaceFilesView { key_metadata: Some(key_metadata@), ..self@ }),
    {
        ReplaceFilesAction { key_metadata: Some(key_metadata), ..self }
    }

    /// Sets the snapshot id.
    pub fn set_snapshot_id(self, snapshot_id: i64) -> (action: Self)
        ensures
            action@ == (ReplaceFilesView { snapshot_id: Some(snapshot_id), ..self@ }),
    {
        ReplaceFilesAction { snapshot_id: Some(snapshot_id), ..self }
    }

    /// Enables the delete filter manager for this snapshot.
    /// By default, the delete filter manager is disabled.
    pub fn set_enable_delete_filter_manager(self, enable_delete_filter_manager: bool) -> (action:
        Self)
        ensures
            action@ == (ReplaceFilesView { enable_delete_filter_manager, ..self@ }),
    {
        ReplaceFilesAction { enable_delete_filter_manager, ..self }
    }

    /// Sets the branch that the snapshot goes to.
    pub fn set_target_branch(self, target_branch: String) -> (action: Self)
        ensures
            action@ == (ReplaceFilesView { target_branch: Some(target_branch@), ..self@ }),
    {
        ReplaceFilesAction { target_branch: Some(target_branch), ..self }
    }

    /// Gives new data files this sequence number in place of that of the new
    /// snapshot. A compaction uses the sequence number of the snapshot it started
    /// from, to stay clear of equality deletes that were added since.
    pub fn set_new_data_file_sequence_number(self, seq: i64) -> (action: Self)
        ensures
            action@ == (ReplaceFilesView { new_data_file_sequence_number: Some(seq), ..self@ }),
    {
        ReplaceFilesAction { new_data_file_sequence_number: Some(seq), ..self }
    }

    /// Selects whether the files are looked up before the commit.
    pub fn set_check_file_existence(self, check: bool) -> (action: Self)
        ensures
            action@ == (ReplaceFilesView { check_file_existence: check, ..self@ }),
    {
        ReplaceFilesAction { check_file_existence: check, ..self }
    }

    /// Sets the snapshot id that this replacement was planned against.
    ///
    /// At commit time, delete files that were added since for data files that are
    /// removed here make the commit fail; otherwise they would be lost. Where
    /// this is never called, no such validation takes place.
    pub fn validate_from_snapshot(self, snapshot_id: i64) -> (action: Self)
        ensures
            action@ == (ReplaceFilesView { validate_from_snapshot_id: Some(snapshot_id), ..self@ }),
    {
        ReplaceFilesAction { validate_from_snapshot_id: Some(snapshot_id), ..self }
    }

    /// Starts to commit the replacement to a table, under a new commit UUID where
    /// none was set. The same action can be committed again.
    pub fn commit<'a>(&'a self, table: &Table) -> (started: (CommitRun<'a, M>, CommitCommand))
        ensures
            exists|commit_uuid: CommitUuid|
                (match self@.commit_uuid {
                    Some(chosen) => commit_uuid == chosen,
                    None => is_version_7(commit_uuid.bits),
                }) && (started.0@, started.1@) == #[trigger] commit_start(
                    self@,
                    commit_uuid,
                    table.metadata,
                ),
    {
        let commit_uuid: CommitUuid = match self.commit_uuid {
            Some(commit_uuid) => commit_uuid,
            None => CommitUuid::now_v7(),
        };
        let started = self.commit_as(commit_uuid, table);
        assert((started.0@, started.1@) == commit_start(self@, commit_uuid, table.metadata));
        started
    }

    /// Starts to commit the replacement to a table under the given commit UUID.
    pub fn commit_as<'a>(&'a self, commit_uuid: CommitUuid, table: &Table) -> (started: (
        CommitRun<'a, M>,
        CommitCommand,
    ))
        ensures
            (started.0@, started.1@) == commit_start(self@, commit_uuid, table.metadata),
    {
        let process: ManifestProcess = if self.merge_enabled {
            ManifestProcess::Merge {
                target_size_bytes: self.target_size_bytes,
                min_count_to_merge: self.min_count_to_merge,
            }
        } else {
            ManifestProcess::Default
        };
        let key_metadata: Option<&[u8]> = match &self.key_metadata {
            Some(key) => Some(key.as_slice()),
            None => None,
        };
        let target_branch: Option<&str> = match &self.target_branch {
            Some(name) => Some(name.as_str()),
            None => None,
        };
        let producer = SnapshotProducer {
            new_data_file_sequence_number: self.new_data_file_sequence_number,
            target_branch,
            delete_filter_manager_enabled: self.enable_delete_filter_manager,
            ..SnapshotProducer::new(
                commit_uuid,
                key_metadata,
                self.snapshot_id,
                &self.snapshot_properties,
                self.added_data_files.as_slice(),
                self.added_delete_files.as_slice(),
                self.removed_data_files.as_slice(),
                self.removed_delete_files.as_slice(),
            )
        };
        CommitRun::start(
            producer,
            &table.metadata,
            self.validate_from_snapshot_id,
            self.check_file_existence,
            process,
        )
    }
}

impl<M: ReplaceFilesMode> Default for ReplaceFilesAction<M> {
    fn default() -> (action: Self)
        ensures
            action@ == default_choices(),
    {
        Self::new()
    }
}

} // verus!

use std::collections::HashMap;

use iceberg_actions::error::{Error, ErrorKind};
use iceberg_actions::metadata::data_file::{
    DataContentType, DataFile, DataFileFormat, Literal, FIELD_ID_POSITIONAL_DELETE_FILE_PATH,
};
use iceberg_actions::metadata::manifest::{
    ManifestContentType, ManifestEntry, ManifestFile, ManifestStatus,
};
use iceberg_actions::metadata::table::{
    Operation, Snapshot, SnapshotReference, Table, TableMetadata, MAIN_BRANCH,
};
use iceberg_actions::properties::Properties;
use iceberg_actions::transaction::commit::{
    CommitCommand, CommitEvent, CommitPhase, ManifestProcess,
};
use iceberg_actions::transaction::manifest_scan::{ScanCommand, ScanEvent, ScanPhase};
use iceberg_actions::transaction::replace_files::{
    Overwrite, OverwriteFilesAction, ReplaceFilesAction, ReplaceFilesMode, ReplaceFilesOperation,
    Rewrite, RewriteFilesAction,
};
use iceberg_actions::transaction::snapshot::{CommitUuid, SnapshotProducer};
use iceberg_actions::transaction::{
    CONCURRENT_DELETE_CONFLICT_CONTEXT_KEY, CONCURRENT_DELETE_CONFLICT_CONTEXT_VALUE,
    MANIFEST_MERGE_ENABLED, MANIFEST_MIN_MERGE_COUNT, MANIFEST_MIN_MERGE_COUNT_DEFAULT,
    MANIFEST_TARGET_SIZE_BYTES, MANIFEST_TARGET_SIZE_BYTES_DEFAULT,
};
use uuid::Uuid;

const PARENT_SNAPSHOT_ID: i64 = 100;
const PARENT_SEQUENCE_NUMBER: i64 = 3;
const REMOVED_DELETE_FILE: &str = "test/removed-delete.parquet";
const RETAINED_DELETE_FILE: &str = "test/retained-delete.parquet";

const STARTING_SNAPSHOT_ID: i64 = 200;
const STARTING_SEQUENCE_NUMBER: i64 = 5;
const CONCURRENT_SNAPSHOT_ID: i64 = 201;
const CONCURRENT_SEQUENCE_NUMBER: i64 = 6;
const TARGET_DATA_FILE: &str = "test/target-data-file.parquet";
const OTHER_DATA_FILE: &str = "test/other-data-file.parquet";

/// Manifest lists and manifests by path.
#[derive(Default)]
struct Store {
    lists: HashMap<String, Vec<ManifestFile>>,
    manifests: HashMap<String, Vec<ManifestEntry>>,
    loads: usize,
}

impl Store {
    fn list(&mut self, path: &str) -> Result<Vec<ManifestFile>, Error> {
        self.loads += 1;
        self.lists.get(path).cloned().ok_or_else(storage_error)
    }

    fn manifest(&mut self, path: &str) -> Result<Vec<ManifestEntry>, Error> {
        self.loads += 1;
        self.manifests.get(path).cloned().ok_or_else(storage_error)
    }
}

fn storage_error() -> Error {
    Error {
        kind: ErrorKind::Unexpected,
        message: "no such file".to_string(),
        context: vec![],
        retryable: true,
    }
}

fn file(content: DataContentType, path: &str, partition: i64) -> DataFile {
    DataFile {
        content,
        file_path: path.to_string(),
        file_format: DataFileFormat::Parquet,
        partition_spec_id: 0,
        partition: vec![Some(Literal::Long(partition))],
        record_count: 10,
        file_size_in_bytes: 100,
        column_sizes: vec![],
        value_counts: vec![],
        null_value_counts: vec![],
        nan_value_counts: vec![],
        lower_bounds: vec![],
        upper_bounds: vec![],
        key_metadata: None,
        split_offsets: None,
        equality_ids: None,
        sort_order_id: None,
        referenced_data_file: None,
        content_offset: None,
        content_size_in_bytes: None,
    }
}

fn data_file(path: &str) -> DataFile {
    file(DataContentType::Data, path, 300)
}

fn position_delete_file(path: &str) -> DataFile {
    file(DataContentType::PositionDeletes, path, 300)
}

fn position_delete_referencing(path: &str, referenced: &str, is_dv: bool) -> DataFile {
    DataFile {
        file_format: DataFileFormat::Puffin,
        record_count: 1,
        referenced_data_file: Some(referenced.to_string()),
        content_offset: if is_dv { Some(4) } else { None },
        content_size_in_bytes: if is_dv { Some(96) } else { None },
        ..position_delete_file(path)
    }
}

fn equality_delete_in_partition(path: &str, partition: i64) -> DataFile {
    DataFile {
        record_count: 1,
        equality_ids: Some(vec![1]),
        ..file(DataContentType::EqualityDeletes, path, partition)
    }
}

fn equality_delete(path: &str) -> DataFile {
    equality_delete_in_partition(path, 300)
}

fn path_bound(path: &str) -> Vec<(i32, Literal)> {
    vec![(
        FIELD_ID_POSITIONAL_DELETE_FILE_PATH,
        Literal::Text(path.to_string()),
    )]
}

fn multi_file_position_delete(path: &str, bounds: Option<(&str, &str)>) -> DataFile {
    DataFile {
        record_count: 1,
        lower_bounds: bounds.map_or(vec![], |(lower, _)| path_bound(lower)),
        upper_bounds: bounds.map_or(vec![], |(_, upper)| path_bound(upper)),
        ..position_delete_file(path)
    }
}

fn added(data_file: DataFile, snapshot_id: i64, sequence_number: i64) -> ManifestEntry {
    ManifestEntry {
        status: ManifestStatus::Added,
        snapshot_id: Some(snapshot_id),
        sequence_number: Some(sequence_number),
        file_sequence_number: Some(sequence_number),
        data_file,
    }
}

fn manifest(path: &str, content: ManifestContentType, added_snapshot_id: i64) -> ManifestFile {
    ManifestFile {
        manifest_path: path.to_string(),
        content,
        partition_spec_id: 0,
        added_snapshot_id,
    }
}

fn snapshot(id: i64, parent: Option<i64>, sequence_number: i64, list: &str) -> Snapshot {
    Snapshot {
        snapshot_id: id,
        parent_snapshot_id: parent,
        sequence_number,
        manifest_list: list.to_string(),
        operation: Operation::Append,
    }
}

fn table(snapshots: Vec<Snapshot>, tip: Option<i64>) -> Table {
    Table {
        metadata: TableMetadata {
            location: "memory:///test/location".to_string(),
            metadata_log: vec![],
            statistics: vec![],
            partition_statistics: vec![],
            snapshots,
            refs: tip
                .into_iter()
                .map(|snapshot_id| SnapshotReference {
                    name: MAIN_BRANCH.to_string(),
                    snapshot_id,
                })
                .collect(),
        },
        metadata_location: Some("s3://bucket/test/location/metadata/v1.json".to_string()),
    }
}

/// A table whose one snapshot has one delete manifest of two delete files.
fn table_with_delete_manifest() -> (Table, Store) {
    let list = "memory:///test/location/metadata/manifest-list-parent.avro";
    let path = "memory:///test/location/metadata/delete-manifest.avro";
    let mut store = Store::default();
    store.lists.insert(
        list.to_string(),
        vec![manifest(
            path,
            ManifestContentType::Deletes,
            PARENT_SNAPSHOT_ID,
        )],
    );
    store.manifests.insert(
        path.to_string(),
        vec![
            added(
                position_delete_file(REMOVED_DELETE_FILE),
                PARENT_SNAPSHOT_ID,
                PARENT_SEQUENCE_NUMBER,
            ),
            added(
                position_delete_file(RETAINED_DELETE_FILE),
                PARENT_SNAPSHOT_ID,
                PARENT_SEQUENCE_NUMBER,
            ),
        ],
    );
    let parent = snapshot(PARENT_SNAPSHOT_ID, None, PARENT_SEQUENCE_NUMBER, list);
    (table(vec![parent], Some(PARENT_SNAPSHOT_ID)), store)
}

/// A table with a starting snapshot and, where there are delete files, a
/// concurrent snapshot that added them.
fn table_with_concurrent_snapshot(
    concurrent_op: Operation,
    delete_files: Vec<(DataFile, i64)>,
) -> (Table, Store) {
    let starting_list = "memory:///test/location/metadata/manifest-list-starting.avro";
    let concurrent_list = "memory:///test/location/metadata/manifest-list-concurrent.avro";
    let path = "memory:///test/location/metadata/delete-manifest-concurrent.avro";
    let mut store = Store::default();
    store.lists.insert(starting_list.to_string(), vec![]);
    let mut snapshots = vec![snapshot(
        STARTING_SNAPSHOT_ID,
        None,
        STARTING_SEQUENCE_NUMBER,
        starting_list,
    )];
    if delete_files.is_empty() {
        return (table(snapshots, Some(STARTING_SNAPSHOT_ID)), store);
    }
    store.lists.insert(
        concurrent_list.to_string(),
        vec![manifest(
            path,
            ManifestContentType::Deletes,
            CONCURRENT_SNAPSHOT_ID,
        )],
    );
    store.manifests.insert(
        path.to_string(),
        delete_files
            .into_iter()
            .map(|(delete, sequence_number)| {
                added(delete, CONCURRENT_SNAPSHOT_ID, sequence_number)
            })
            .collect(),
    );
    snapshots.push(Snapshot {
        operation: concurrent_op,
        ..snapshot(
            CONCURRENT_SNAPSHOT_ID,
            Some(STARTING_SNAPSHOT_ID),
            CONCURRENT_SEQUENCE_NUMBER,
            concurrent_list,
        )
    });
    (table(snapshots, Some(CONCURRENT_SNAPSHOT_ID)), store)
}

/// The files that a snapshot removes.
struct Removal {
    properties: Properties,
    data: Vec<DataFile>,
    deletes: Vec<DataFile>,
}

impl Removal {
    fn producer(&self) -> SnapshotProducer<'_> {
        SnapshotProducer::new(
            CommitUuid::now_v7(),
            None,
            None,
            &self.properties,
            &[],
            &[],
            &self.data,
            &self.deletes,
        )
    }
}

fn removing(data: Vec<DataFile>, deletes: Vec<DataFile>) -> Removal {
    Removal {
        properties: Properties::new(),
        data,
        deletes,
    }
}

/// Goes through the manifests of the parent snapshot.
fn run_scan<M: ReplaceFilesMode>(
    operation: ReplaceFilesOperation<M>,
    producer: &SnapshotProducer<'_>,
    table: &Table,
    store: &mut Store,
) -> (Result<Vec<ManifestFile>, Error>, ReplaceFilesOperation<M>) {
    let (mut scan, mut command) = operation.existing_manifest(producer, &table.metadata);
    loop {
        let event = match command {
            ScanCommand::LoadManifestList(snapshot) => match store.list(&snapshot.manifest_list) {
                Ok(files) => ScanEvent::ManifestList(files),
                Err(error) => ScanEvent::Failed(error),
            },
            ScanCommand::LoadManifest(file) => match store.manifest(&file.manifest_path) {
                Ok(entries) => {
                    assert!(scan.accepts(&entries));
                    ScanEvent::Manifest(entries)
                }
                Err(error) => ScanEvent::Failed(error),
            },
            ScanCommand::WriteManifest(draft) => {
                let path = format!("memory:///written-{}.avro", store.manifests.len());
                store.manifests.insert(path.clone(), draft.entries);
                ScanEvent::Written(ManifestFile {
                    manifest_path: path,
                    content: draft.content,
                    partition_spec_id: draft.partition_spec_id,
                    added_snapshot_id: 0,
                })
            }
            ScanCommand::Return(result) => {
                assert_eq!(scan.phase(), ScanPhase::Finished);
                return (result, scan.into_operation());
            }
        };
        let next = scan.step(event);
        scan = next.0;
        command = next.1;
    }
}

/// What a commit comes to.
type Committed<'a, M> =
    Result<(SnapshotProducer<'a>, ReplaceFilesOperation<M>, ManifestProcess), Error>;

/// Runs a commit up to the point where the snapshot is committed.
fn run_commit<'a, M: ReplaceFilesMode>(
    action: &'a ReplaceFilesAction<M>,
    table: &Table,
    store: &mut Store,
) -> Committed<'a, M> {
    let (mut run, mut command) = action.commit(table);
    loop {
        let event = match command {
            CommitCommand::ValidateDataFileChanges => {
                assert_eq!(run.phase(), CommitPhase::DataFiles);
                if run
                    .producer()
                    .removed_data_files
                    .iter()
                    .any(|file| file.file_path.starts_with("missing"))
                {
                    CommitEvent::Failed(storage_error())
                } else {
                    CommitEvent::DataFilesValid
                }
            }
            CommitCommand::LoadManifestList(snapshot) => {
                match store.list(&snapshot.manifest_list) {
                    Ok(files) => CommitEvent::ManifestList(files),
                    Err(error) => CommitEvent::Failed(error),
                }
            }
            CommitCommand::LoadManifest(file) => match store.manifest(&file.manifest_path) {
                Ok(entries) => CommitEvent::Manifest(entries),
                Err(error) => CommitEvent::Failed(error),
            },
            CommitCommand::Commit(process) => {
                assert_eq!(run.phase(), CommitPhase::Ready);
                let (producer, operation) = run.into_parts();
                return Ok((producer, operation, process));
            }
            CommitCommand::Fail(error) => {
                assert_eq!(run.phase(), CommitPhase::Failed);
                return Err(error);
            }
        };
        let next = run.step(event);
        run = next.0;
        command = next.1;
    }
}

fn rewrite_action(removed: DataFile) -> RewriteFilesAction {
    RewriteFilesAction::new()
        .delete_files(vec![removed])
        .set_target_branch(MAIN_BRANCH.to_string())
}

fn expect_err<M: ReplaceFilesMode>(result: Committed<'_, M>) -> Error {
    match result {
        Err(error) => error,
        Ok(_) => panic!("expected commit to fail, but it succeeded"),
    }
}

fn has_conflict_marker(error: &Error) -> bool {
    error.context().contains(&(
        CONCURRENT_DELETE_CONFLICT_CONTEXT_KEY,
        CONCURRENT_DELETE_CONFLICT_CONTEXT_VALUE.to_string(),
    ))
}

fn paths(entries: &[ManifestEntry]) -> Vec<&str> {
    entries.iter().map(|entry| entry.file_path()).collect()
}

#[test]
fn test_modes_map_to_their_operations() {
    assert_eq!(Rewrite::OPERATION, Operation::Replace);
    assert_eq!(Overwrite::OPERATION, Operation::Overwrite);
    assert_eq!(
        ReplaceFilesOperation::<Rewrite>::new().operation(),
        Operation::Replace
    );
    assert_eq!(
        ReplaceFilesOperation::<Overwrite>::new().operation(),
        Operation::Overwrite
    );
}

fn assert_only_removed_delete_files_marked<M: ReplaceFilesMode>() {
    let (table, mut store) = table_with_delete_manifest();
    let removal = removing(vec![], vec![position_delete_file(REMOVED_DELETE_FILE)]);
    let producer = removal.producer();

    let (existing, mut operation) = run_scan(
        ReplaceFilesOperation::<M>::new(),
        &producer,
        &table,
        &mut store,
    );
    assert!(existing.is_ok());

    let deleted_entries = operation.delete_entries();
    assert_eq!(
        paths(&deleted_entries),
        vec![REMOVED_DELETE_FILE],
        "only the removed delete file should be marked deleted; \
         {RETAINED_DELETE_FILE} must stay live"
    );
    assert_eq!(deleted_entries[0].status, ManifestStatus::Deleted);
    assert_eq!(deleted_entries[0].snapshot_id, Some(PARENT_SNAPSHOT_ID));
    assert_eq!(
        deleted_entries[0].sequence_number,
        Some(PARENT_SEQUENCE_NUMBER)
    );

    assert!(operation.delete_entries().is_empty());
}

fn assert_delete_manifest_carried_forward_intact<M: ReplaceFilesMode>() {
    let (table, mut store) = table_with_delete_manifest();
    let removal = removing(vec![], vec![position_delete_file(REMOVED_DELETE_FILE)]);
    let producer = removal.producer();

    let (existing, _) = run_scan(
        ReplaceFilesOperation::<M>::new(),
        &producer,
        &table,
        &mut store,
    );
    let existing = existing.unwrap();

    assert_eq!(existing.len(), 1, "the delete manifest should be rewritten");
    assert_eq!(
        existing[0].content,
        ManifestContentType::Deletes,
        "a rewritten delete manifest must stay a Deletes manifest"
    );

    let entries = store.manifest(&existing[0].manifest_path).unwrap();
    assert_eq!(paths(&entries), vec![RETAINED_DELETE_FILE]);

    let retained = &entries[0];
    assert_eq!(retained.status, ManifestStatus::Existing);
    assert_eq!(retained.snapshot_id, Some(PARENT_SNAPSHOT_ID));
    assert_eq!(retained.sequence_number, Some(PARENT_SEQUENCE_NUMBER));
    assert_eq!(retained.file_sequence_number, Some(PARENT_SEQUENCE_NUMBER));
}

#[test]
fn test_delete_entries_without_prior_existing_manifest_call_is_empty() {
    let deleted_entries = ReplaceFilesOperation::<Rewrite>::new().delete_entries();

    assert!(
        deleted_entries.is_empty(),
        "delete_entries without a prior existing_manifest call should be \
         empty, not fabricate results: {deleted_entries:?}"
    );
}

#[test]
fn test_overwrite_only_marks_removed_delete_files() {
    assert_only_removed_delete_files_marked::<Overwrite>();
}

#[test]
fn test_rewrite_only_marks_removed_delete_files() {
    assert_only_removed_delete_files_marked::<Rewrite>();
}

#[test]
fn test_overwrite_preserves_delete_manifest_content_type() {
    assert_delete_manifest_carried_forward_intact::<Overwrite>();
}

#[test]
fn test_rewrite_preserves_delete_manifest_content_type() {
    assert_delete_manifest_carried_forward_intact::<Rewrite>();
}

#[test]
fn scan_without_snapshot_keeps_nothing() {
    let table = table(vec![], None);
    let mut store = Store::default();
    let removal = removing(vec![data_file("a")], vec![]);
    let producer = removal.producer();
    let (existing, mut operation) = run_scan(
        ReplaceFilesOperation::<Rewrite>::new(),
        &producer,
        &table,
        &mut store,
    );
    assert_eq!(existing, Ok(vec![]));
    assert_eq!(store.loads, 0);
    assert!(operation.delete_entries().is_empty());
}

/// Three data manifests: one without removed files, one that loses all its
/// files, and one that loses some.
fn table_with_data_manifests() -> (Table, Store) {
    let mut store = Store::default();
    let list: Vec<ManifestFile> = ["m0", "m1", "m2"]
        .iter()
        .map(|path| manifest(path, ManifestContentType::Data, 1))
        .collect();
    store.lists.insert("list".to_string(), list);
    store
        .manifests
        .insert("m0".to_string(), vec![added(data_file("kept"), 1, 1)]);
    store.manifests.insert(
        "m1".to_string(),
        vec![
            added(data_file("gone-1"), 1, 1),
            ManifestEntry {
                status: ManifestStatus::Deleted,
                ..added(data_file("dead"), 1, 1)
            },
        ],
    );
    store.manifests.insert(
        "m2".to_string(),
        vec![
            added(data_file("gone-2"), 1, 2),
            added(data_file("stays"), 1, 2),
            ManifestEntry {
                status: ManifestStatus::Deleted,
                ..added(data_file("dead-too"), 1, 2)
            },
        ],
    );
    (table(vec![snapshot(1, None, 2, "list")], Some(1)), store)
}

#[test]
fn manifests_are_kept_dropped_or_rewritten() {
    let (table, mut store) = table_with_data_manifests();
    let removal = removing(vec![data_file("gone-1"), data_file("gone-2")], vec![]);
    let producer = removal.producer();
    let (existing, mut operation) = run_scan(
        ReplaceFilesOperation::<Overwrite>::new(),
        &producer,
        &table,
        &mut store,
    );
    let existing = existing.unwrap();
    assert_eq!(existing.len(), 2);
    assert_eq!(existing[0].manifest_path, "m0");
    let rewritten = store.manifest(&existing[1].manifest_path).unwrap();
    assert_eq!(paths(&rewritten), vec!["stays"]);
    assert_eq!(rewritten[0].status, ManifestStatus::Existing);
    assert_eq!(
        paths(&operation.delete_entries()),
        vec!["gone-1", "gone-2"]
    );
}

#[test]
fn nothing_removed_keeps_every_manifest() {
    let (table, mut store) = table_with_data_manifests();
    let removal = removing(vec![], vec![]);
    let producer = removal.producer();
    let (existing, mut operation) = run_scan(
        ReplaceFilesOperation::<Rewrite>::new(),
        &producer,
        &table,
        &mut store,
    );
    assert_eq!(existing, Ok(store.list("list").unwrap()));
    assert!(operation.delete_entries().is_empty());
}

#[test]
fn failed_scan_puts_nothing_by() {
    let (table, mut store) = table_with_data_manifests();
    store.manifests.remove("m2");
    let removal = removing(vec![data_file("gone-1")], vec![]);
    let producer = removal.producer();
    let (existing, mut operation) = run_scan(
        ReplaceFilesOperation::<Rewrite>::new(),
        &producer,
        &table,
        &mut store,
    );
    assert_eq!(existing, Err(storage_error()));
    assert!(operation.delete_entries().is_empty());
}

#[test]
fn data_entry_under_a_removed_delete_path_goes_without_a_record() {
    let mut store = Store::default();
    store.lists.insert(
        "list".to_string(),
        vec![manifest("m", ManifestContentType::Data, 1)],
    );
    store.manifests.insert(
        "m".to_string(),
        vec![added(data_file("x"), 1, 1), added(data_file("y"), 1, 1)],
    );
    let table = table(vec![snapshot(1, None, 1, "list")], Some(1));
    let removal = removing(vec![], vec![position_delete_file("x")]);
    let producer = removal.producer();
    let (existing, mut operation) = run_scan(
        ReplaceFilesOperation::<Rewrite>::new(),
        &producer,
        &table,
        &mut store,
    );
    let rewritten = store
        .manifest(&existing.unwrap()[0].manifest_path)
        .unwrap();
    assert_eq!(paths(&rewritten), vec!["y"]);
    assert!(operation.delete_entries().is_empty());
}

#[test]
fn scan_does_not_accept_unnumbered_removed_entries() {
    let (table, _) = table_with_data_manifests();
    let removal = removing(vec![data_file("gone-1")], vec![]);
    let producer = removal.producer();
    let (scan, _) =
        ReplaceFilesOperation::<Rewrite>::new().existing_manifest(&producer, &table.metadata);
    let unnumbered = ManifestEntry {
        sequence_number: None,
        ..added(data_file("gone-1"), 1, 1)
    };
    let other = ManifestEntry {
        sequence_number: None,
        ..added(data_file("kept"), 1, 1)
    };
    assert!(!scan.accepts(&vec![unnumbered]));
    assert!(scan.accepts(&vec![other]));
}

#[test]
fn test_validate_from_snapshot_ok_when_tip_is_starting_snapshot() {
    let (table, mut store) = table_with_concurrent_snapshot(Operation::Append, vec![]);
    let removed = data_file(TARGET_DATA_FILE);

    let action = rewrite_action(removed).validate_from_snapshot(STARTING_SNAPSHOT_ID);
    assert!(run_commit(&action, &table, &mut store).is_ok());
}

#[test]
fn test_validate_from_snapshot_fails_on_new_delete_via_append_ancestor() {
    let new_delete = position_delete_referencing("test/del.parquet", TARGET_DATA_FILE, false);
    let (table, mut store) = table_with_concurrent_snapshot(
        Operation::Append,
        vec![(new_delete, CONCURRENT_SEQUENCE_NUMBER)],
    );
    let removed = data_file(TARGET_DATA_FILE);

    let action = rewrite_action(removed)
        .validate_from_snapshot(STARTING_SNAPSHOT_ID)
        .set_new_data_file_sequence_number(STARTING_SEQUENCE_NUMBER);

    let err = expect_err(run_commit(&action, &table, &mut store));
    assert_eq!(err.kind(), ErrorKind::DataInvalid);
    assert!(
        err.message().contains("found new position delete"),
        "unexpected message: {}",
        err.message()
    );
}

#[test]
fn test_validate_from_snapshot_fails_on_new_position_delete() {
    let new_delete = position_delete_referencing("test/del.parquet", TARGET_DATA_FILE, false);
    let (table, mut store) = table_with_concurrent_snapshot(
        Operation::Overwrite,
        vec![(new_delete, CONCURRENT_SEQUENCE_NUMBER)],
    );
    let removed = data_file(TARGET_DATA_FILE);

    let action = rewrite_action(removed)
        .validate_from_snapshot(STARTING_SNAPSHOT_ID)
        .set_new_data_file_sequence_number(STARTING_SEQUENCE_NUMBER);

    let err = expect_err(run_commit(&action, &table, &mut store));
    assert_eq!(err.kind(), ErrorKind::DataInvalid);
    assert!(
        err.message().contains("found new position delete"),
        "unexpected message: {}",
        err.message()
    );
    assert!(!err.retryable(), "conflict must not be retryable");
    assert!(
        has_conflict_marker(&err),
        "conflict must carry the stable context marker callers key off of: {:?}",
        err.context()
    );
    assert!(err
        .context()
        .contains(&("data-file", TARGET_DATA_FILE.to_string())));
}

#[test]
fn test_validate_from_snapshot_fails_on_new_deletion_vector() {
    let new_dv = position_delete_referencing("test/del.puffin", TARGET_DATA_FILE, true);
    let (table, mut store) = table_with_concurrent_snapshot(
        Operation::Overwrite,
        vec![(new_dv, CONCURRENT_SEQUENCE_NUMBER)],
    );
    let removed = data_file(TARGET_DATA_FILE);

    let action = rewrite_action(removed)
        .validate_from_snapshot(STARTING_SNAPSHOT_ID)
        .set_new_data_file_sequence_number(STARTING_SEQUENCE_NUMBER);

    let err = expect_err(run_commit(&action, &table, &mut store));
    assert_eq!(err.kind(), ErrorKind::DataInvalid);
    assert!(
        err.message().contains("found new position delete"),
        "a deletion vector must be caught the same way as a legacy position delete: {}",
        err.message()
    );
}

#[test]
fn test_validate_from_snapshot_ignores_new_equality_delete_with_seq_override() {
    let new_delete = equality_delete("test/eq-del.parquet");
    let (table, mut store) = table_with_concurrent_snapshot(
        Operation::Overwrite,
        vec![(new_delete, CONCURRENT_SEQUENCE_NUMBER)],
    );
    let removed = data_file(TARGET_DATA_FILE);

    let action = rewrite_action(removed)
        .validate_from_snapshot(STARTING_SNAPSHOT_ID)
        .set_new_data_file_sequence_number(STARTING_SEQUENCE_NUMBER);

    assert!(run_commit(&action, &table, &mut store).is_ok());
}

#[test]
fn test_validate_from_snapshot_fails_on_new_equality_delete_without_seq_override() {
    let new_delete = equality_delete("test/eq-del.parquet");
    let (table, mut store) = table_with_concurrent_snapshot(
        Operation::Overwrite,
        vec![(new_delete, CONCURRENT_SEQUENCE_NUMBER)],
    );
    let removed = data_file(TARGET_DATA_FILE);

    let action = rewrite_action(removed).validate_from_snapshot(STARTING_SNAPSHOT_ID);

    let err = expect_err(run_commit(&action, &table, &mut store));
    assert_eq!(err.kind(), ErrorKind::DataInvalid);
    assert!(
        err.message().contains("found new delete"),
        "unexpected message: {}",
        err.message()
    );
}

#[test]
fn test_validate_from_snapshot_ok_when_delete_targets_different_file() {
    let new_delete = position_delete_referencing("test/del.parquet", OTHER_DATA_FILE, false);
    let (table, mut store) = table_with_concurrent_snapshot(
        Operation::Overwrite,
        vec![(new_delete, CONCURRENT_SEQUENCE_NUMBER)],
    );
    let removed = data_file(TARGET_DATA_FILE);

    let action = rewrite_action(removed).validate_from_snapshot(STARTING_SNAPSHOT_ID);
    assert!(run_commit(&action, &table, &mut store).is_ok());
}

#[test]
fn test_validate_from_snapshot_not_called_skips_validation() {
    let new_delete = position_delete_referencing("test/del.parquet", TARGET_DATA_FILE, false);
    let (table, mut store) = table_with_concurrent_snapshot(
        Operation::Overwrite,
        vec![(new_delete, CONCURRENT_SEQUENCE_NUMBER)],
    );
    let removed = data_file(TARGET_DATA_FILE);

    let action = rewrite_action(removed);
    assert!(run_commit(&action, &table, &mut store).is_ok());
    assert_eq!(store.loads, 0);
}

#[test]
fn test_validate_from_snapshot_ok_when_delete_predates_starting_snapshot() {
    let stale_delete = position_delete_referencing("test/del.parquet", TARGET_DATA_FILE, false);
    let (table, mut store) = table_with_concurrent_snapshot(
        Operation::Overwrite,
        vec![(stale_delete, STARTING_SEQUENCE_NUMBER)],
    );
    let removed = data_file(TARGET_DATA_FILE);

    let action = rewrite_action(removed).validate_from_snapshot(STARTING_SNAPSHOT_ID);
    assert!(run_commit(&action, &table, &mut store).is_ok());
}

#[test]
fn test_validate_from_snapshot_fails_when_starting_snapshot_not_in_metadata() {
    let (table, mut store) = table_with_concurrent_snapshot(Operation::Append, vec![]);
    let removed = data_file(TARGET_DATA_FILE);

    const EXPIRED_SNAPSHOT_ID: i64 = 999_999;
    let action = rewrite_action(removed).validate_from_snapshot(EXPIRED_SNAPSHOT_ID);

    let err = expect_err(run_commit(&action, &table, &mut store));
    assert_eq!(err.kind(), ErrorKind::DataInvalid);
    assert!(
        err.message().contains("is not present in the table metadata"),
        "unexpected message: {}",
        err.message()
    );
    assert!(
        has_conflict_marker(&err),
        "must also carry the stable context marker: {:?}",
        err.context()
    );
}

#[test]
fn test_validate_from_snapshot_fails_when_starting_snapshot_not_an_ancestor() {
    let (mut table, mut store) = table_with_concurrent_snapshot(Operation::Append, vec![]);

    const DISCONNECTED_SNAPSHOT_ID: i64 = 12_345;
    table.metadata.snapshots.push(snapshot(
        DISCONNECTED_SNAPSHOT_ID,
        None,
        CONCURRENT_SEQUENCE_NUMBER + 1,
        "memory:///test/location/metadata/manifest-list-disconnected.avro",
    ));
    table.metadata_location = Some("s3://bucket/test/location/metadata/v3.json".to_string());

    let removed = data_file(TARGET_DATA_FILE);
    let action = rewrite_action(removed).validate_from_snapshot(DISCONNECTED_SNAPSHOT_ID);

    let err = expect_err(run_commit(&action, &table, &mut store));
    assert_eq!(err.kind(), ErrorKind::DataInvalid);
    assert!(
        err.message().contains("Cannot determine history"),
        "unexpected message: {}",
        err.message()
    );
    assert!(
        has_conflict_marker(&err),
        "broken ancestry must also carry the stable context marker: {:?}",
        err.context()
    );
}

#[test]
fn test_validate_from_snapshot_ok_when_equality_delete_in_different_partition() {
    let new_delete = equality_delete_in_partition("test/eq-del.parquet", 999);
    let (table, mut store) = table_with_concurrent_snapshot(
        Operation::Overwrite,
        vec![(new_delete, CONCURRENT_SEQUENCE_NUMBER)],
    );
    let removed = data_file(TARGET_DATA_FILE);

    let action = rewrite_action(removed).validate_from_snapshot(STARTING_SNAPSHOT_ID);
    assert!(run_commit(&action, &table, &mut store).is_ok());
}

#[test]
fn test_validate_from_snapshot_fails_on_multi_file_position_delete() {
    let new_delete = multi_file_position_delete("test/multi-del.parquet", None);
    let (table, mut store) = table_with_concurrent_snapshot(
        Operation::Overwrite,
        vec![(new_delete, CONCURRENT_SEQUENCE_NUMBER)],
    );
    let removed = data_file(TARGET_DATA_FILE);

    let action = rewrite_action(removed)
        .validate_from_snapshot(STARTING_SNAPSHOT_ID)
        .set_new_data_file_sequence_number(STARTING_SEQUENCE_NUMBER);

    let err = expect_err(run_commit(&action, &table, &mut store));
    assert_eq!(err.kind(), ErrorKind::DataInvalid);
    assert!(
        err.message().contains("found new position delete file"),
        "unexpected message: {}",
        err.message()
    );
}

#[test]
fn test_validate_from_snapshot_ok_when_multi_file_position_delete_bounds_exclude_target() {
    let new_delete = multi_file_position_delete(
        "test/multi-del.parquet",
        Some((OTHER_DATA_FILE, OTHER_DATA_FILE)),
    );
    let (table, mut store) = table_with_concurrent_snapshot(
        Operation::Overwrite,
        vec![(new_delete, CONCURRENT_SEQUENCE_NUMBER)],
    );
    let removed = data_file(TARGET_DATA_FILE);

    let action = rewrite_action(removed)
        .validate_from_snapshot(STARTING_SNAPSHOT_ID)
        .set_new_data_file_sequence_number(STARTING_SEQUENCE_NUMBER);
    assert!(run_commit(&action, &table, &mut store).is_ok());
}

#[test]
fn wide_bounds_fall_back_to_the_partition() {
    let new_delete = multi_file_position_delete(
        "test/multi-del.parquet",
        Some((OTHER_DATA_FILE, "test/zzz.parquet")),
    );
    let (table, mut store) = table_with_concurrent_snapshot(
        Operation::Overwrite,
        vec![(new_delete, CONCURRENT_SEQUENCE_NUMBER)],
    );
    let action =
        rewrite_action(data_file(TARGET_DATA_FILE)).validate_from_snapshot(STARTING_SNAPSHOT_ID);
    let err = expect_err(run_commit(&action, &table, &mut store));
    assert_eq!(
        err.message(),
        "Cannot commit, found new delete file for replaced data file"
    );
}

#[test]
fn removed_delete_entries_do_not_conflict() {
    let (table, mut store) = table_with_concurrent_snapshot(
        Operation::Overwrite,
        vec![(equality_delete("d"), CONCURRENT_SEQUENCE_NUMBER)],
    );
    for entries in store.manifests.values_mut() {
        entries[0].status = ManifestStatus::Deleted;
    }
    let action =
        rewrite_action(data_file(TARGET_DATA_FILE)).validate_from_snapshot(STARTING_SNAPSHOT_ID);
    assert!(run_commit(&action, &table, &mut store).is_ok());
    assert_eq!(store.loads, 2);
}

#[test]
fn only_delete_manifests_of_the_snapshot_itself_are_loaded() {
    let (table, mut store) = table_with_concurrent_snapshot(
        Operation::Append,
        vec![(equality_delete("d"), CONCURRENT_SEQUENCE_NUMBER)],
    );
    let list = store
        .lists
        .get_mut("memory:///test/location/metadata/manifest-list-concurrent.avro")
        .unwrap();
    list.clear();
    list.push(manifest(
        "data",
        ManifestContentType::Data,
        CONCURRENT_SNAPSHOT_ID,
    ));
    list.push(manifest(
        "earlier",
        ManifestContentType::Deletes,
        STARTING_SNAPSHOT_ID,
    ));
    let action =
        rewrite_action(data_file(TARGET_DATA_FILE)).validate_from_snapshot(STARTING_SNAPSHOT_ID);
    assert!(run_commit(&action, &table, &mut store).is_ok());
    assert_eq!(store.loads, 1);
}

#[test]
fn history_ends_where_snapshots_go_round() {
    let table = table(
        vec![
            snapshot(1, Some(2), 1, "l1"),
            snapshot(2, Some(1), 2, "l2"),
            snapshot(3, None, 3, "l3"),
        ],
        Some(1),
    );
    let mut store = Store::default();
    let action = rewrite_action(data_file("a")).validate_from_snapshot(3);
    let err = expect_err(run_commit(&action, &table, &mut store));
    assert!(err.message().contains("Cannot determine history"));
    assert_eq!(store.loads, 0);
}

#[test]
fn every_snapshot_since_the_starting_one_is_looked_at() {
    let mut store = Store::default();
    let mut snapshots = vec![snapshot(1, None, 1, "l1")];
    for id in 2..6 {
        snapshots.push(snapshot(id, Some(id - 1), id, &format!("l{id}")));
        store.lists.insert(
            format!("l{id}"),
            vec![manifest(&format!("m{id}"), ManifestContentType::Deletes, id)],
        );
        let path = if id == 2 { TARGET_DATA_FILE } else { "elsewhere" };
        store.manifests.insert(
            format!("m{id}"),
            vec![added(position_delete_referencing("d", path, false), id, id)],
        );
    }
    let table = table(snapshots, Some(5));

    let action = rewrite_action(data_file(TARGET_DATA_FILE)).validate_from_snapshot(1);
    assert!(run_commit(&action, &table, &mut store).is_err());
    assert_eq!(store.loads, 8);

    store.loads = 0;
    let action = rewrite_action(data_file(TARGET_DATA_FILE)).validate_from_snapshot(2);
    assert!(run_commit(&action, &table, &mut store).is_ok());
    assert_eq!(store.loads, 6);
}

#[test]
fn failure_of_the_storage_is_returned() {
    let (table, mut store) = table_with_concurrent_snapshot(
        Operation::Append,
        vec![(equality_delete("d"), CONCURRENT_SEQUENCE_NUMBER)],
    );
    store.manifests.clear();
    let action =
        rewrite_action(data_file(TARGET_DATA_FILE)).validate_from_snapshot(STARTING_SNAPSHOT_ID);
    let err = expect_err(run_commit(&action, &table, &mut store));
    assert_eq!(err, storage_error());
}

#[test]
fn files_are_looked_up_first() {
    let (table, mut store) = table_with_concurrent_snapshot(Operation::Append, vec![]);
    let action = rewrite_action(data_file("missing"))
        .set_check_file_existence(true)
        .validate_from_snapshot(999);
    let err = expect_err(run_commit(&action, &table, &mut store));
    assert_eq!(err, storage_error());

    let action = rewrite_action(data_file("there"))
        .set_check_file_existence(true)
        .validate_from_snapshot(999);
    let err = expect_err(run_commit(&action, &table, &mut store));
    assert!(err.message().contains("is not present in the table metadata"));

    let action = rewrite_action(data_file("missing")).set_check_file_existence(false);
    assert!(run_commit(&action, &table, &mut store).is_ok());
}

#[test]
fn commit_carries_every_choice() {
    let (table, mut store) = table_with_concurrent_snapshot(Operation::Append, vec![]);
    let commit_uuid = CommitUuid {
        bits: Uuid::from_u128(7).as_u128(),
    };
    let mut action = OverwriteFilesAction::default()
        .add_data_files(vec![
            data_file("a"),
            equality_delete("b"),
            data_file("c"),
            position_delete_file("d"),
        ])
        .add_data_files(vec![data_file("e")])
        .delete_files(vec![position_delete_file("f"), data_file("g")])
        .set_key_metadata(vec![1, 2, 3])
        .set_snapshot_id(77)
        .set_enable_delete_filter_manager(true)
        .set_target_branch("audit".to_string())
        .set_new_data_file_sequence_number(4);
    action
        .set_snapshot_properties(
            Properties::new()
                .insert("owner".to_string(), "me".to_string())
                .insert(MANIFEST_MERGE_ENABLED.to_string(), "true".to_string())
                .insert(MANIFEST_TARGET_SIZE_BYTES.to_string(), "1024".to_string())
                .insert(MANIFEST_MIN_MERGE_COUNT.to_string(), "+5".to_string()),
        )
        .set_commit_uuid(commit_uuid);

    let (producer, operation, process) = run_commit(&action, &table, &mut store).ok().unwrap();
    let names = |files: &[DataFile]| -> Vec<String> {
        files.iter().map(|file| file.file_path.clone()).collect()
    };
    assert_eq!(names(producer.added_data_files), vec!["a", "c", "e"]);
    assert_eq!(names(producer.added_delete_files), vec!["b", "d"]);
    assert_eq!(names(producer.removed_data_files), vec!["g"]);
    assert_eq!(names(producer.removed_delete_files), vec!["f"]);
    assert_eq!(producer.commit_uuid, commit_uuid);
    assert_eq!(producer.key_metadata, Some(&[1, 2, 3][..]));
    assert_eq!(producer.snapshot_id, Some(77));
    assert!(producer.delete_filter_manager_enabled);
    assert_eq!(producer.target_branch(), "audit");
    assert_eq!(producer.new_data_file_sequence_number, Some(4));
    assert_eq!(
        producer.snapshot_properties.get("owner"),
        Some(&"me".to_string())
    );
    assert_eq!(operation.operation(), Operation::Overwrite);
    assert_eq!(
        process,
        ManifestProcess::Merge {
            target_size_bytes: 1024,
            min_count_to_merge: 5,
        }
    );
}

fn process_for(properties: Properties) -> ManifestProcess {
    let (table, mut store) = table_with_concurrent_snapshot(Operation::Append, vec![]);
    let mut action = RewriteFilesAction::new();
    action.set_snapshot_properties(properties);
    let (_, _, process) = run_commit(&action, &table, &mut store).ok().unwrap();
    process
}

fn merging(name: &str, value: &str) -> Properties {
    Properties::new()
        .insert(MANIFEST_MERGE_ENABLED.to_string(), "true".to_string())
        .insert(name.to_string(), value.to_string())
}

#[test]
fn properties_that_cannot_be_read_give_defaults() {
    let defaults = ManifestProcess::Merge {
        target_size_bytes: MANIFEST_TARGET_SIZE_BYTES_DEFAULT,
        min_count_to_merge: MANIFEST_MIN_MERGE_COUNT_DEFAULT,
    };
    assert_eq!(MANIFEST_TARGET_SIZE_BYTES_DEFAULT, 8_388_608);
    for value in ["", "+", "-1", "1 ", "0x10", "1e3", "4294967296", "\u{0661}"] {
        assert_eq!(
            process_for(merging(MANIFEST_TARGET_SIZE_BYTES, value)),
            defaults
        );
        assert_eq!(
            process_for(merging(MANIFEST_MIN_MERGE_COUNT, value)),
            defaults
        );
    }
    assert_eq!(
        process_for(merging(MANIFEST_TARGET_SIZE_BYTES, "4294967295")),
        ManifestProcess::Merge {
            target_size_bytes: u32::MAX,
            min_count_to_merge: MANIFEST_MIN_MERGE_COUNT_DEFAULT,
        }
    );
    assert_eq!(
        process_for(merging(MANIFEST_MIN_MERGE_COUNT, "007")),
        ManifestProcess::Merge {
            target_size_bytes: MANIFEST_TARGET_SIZE_BYTES_DEFAULT,
            min_count_to_merge: 7,
        }
    );
    for value in ["", "TRUE", "1", "yes", "false", "true "] {
        assert_eq!(
            process_for(
                Properties::new().insert(MANIFEST_MERGE_ENABLED.to_string(), value.to_string())
            ),
            ManifestProcess::Default
        );
    }
    assert_eq!(process_for(Properties::new()), ManifestProcess::Default);
}

#[test]
fn later_properties_replace_earlier_ones() {
    let (table, mut store) = table_with_concurrent_snapshot(Operation::Append, vec![]);
    let mut action = RewriteFilesAction::new();
    action
        .set_snapshot_properties(merging(MANIFEST_MIN_MERGE_COUNT, "3"))
        .set_snapshot_properties(Properties::new());
    let (producer, _, process) = run_commit(&action, &table, &mut store).ok().unwrap();
    assert_eq!(process, ManifestProcess::Default);
    assert!(producer.snapshot_properties.entries().is_empty());
}

#[test]
fn commits_get_uuids_of_their_own() {
    let (table, mut store) = table_with_concurrent_snapshot(Operation::Append, vec![]);
    let action = RewriteFilesAction::new();
    let (first, _, _) = run_commit(&action, &table, &mut store).ok().unwrap();
    let (second, _, _) = run_commit(&action, &table, &mut store).ok().unwrap();
    assert_ne!(first.commit_uuid, second.commit_uuid);
    assert_eq!((first.commit_uuid.bits >> 76) & 0xf, 7);
    assert_eq!((first.commit_uuid.bits >> 62) & 0x3, 2);
    let uuid = Uuid::from_u128(first.commit_uuid.bits);
    assert_eq!(uuid.get_version_num(), 7);
    assert_eq!(uuid.get_variant(), uuid::Variant::RFC4122);
    assert_eq!(first.target_branch(), MAIN_BRANCH);
}

#[test]
fn an_action_can_be_committed_again() {
    let (table, mut store) = table_with_concurrent_snapshot(
        Operation::Append,
        vec![(equality_delete("d"), CONCURRENT_SEQUENCE_NUMBER)],
    );
    let action = std::sync::Arc::new(
        rewrite_action(data_file(TARGET_DATA_FILE)).validate_from_snapshot(STARTING_SNAPSHOT_ID),
    );
    let first = expect_err(run_commit(&action, &table, &mut store));
    assert_eq!(first, expect_err(run_commit(&action, &table, &mut store)));

    store.manifests.values_mut().for_each(Vec::clear);
    let (producer, _, _) = run_commit(&action, &table, &mut store).ok().unwrap();
    assert_eq!(producer.removed_data_files, &[data_file(TARGET_DATA_FILE)][..]);
}

#[test]
fn commit_under_a_given_uuid() {
    let (table, _) = table_with_concurrent_snapshot(Operation::Append, vec![]);
    let uuid = CommitUuid { bits: 9 };
    let action = RewriteFilesAction::new();
    let (run, command) = action.commit_as(uuid, &table);
    assert!(matches!(
        command,
        CommitCommand::Commit(ManifestProcess::Default)
    ));
    assert_eq!(run.producer().commit_uuid, uuid);
}

#[test]
fn properties_keep_one_value_for_each_name() {
    let properties = Properties::new()
        .insert("a".to_string(), "1".to_string())
        .insert("b".to_string(), "2".to_string())
        .insert("a".to_string(), "3".to_string());
    assert_eq!(properties.get("a"), Some(&"3".to_string()));
    assert_eq!(properties.get("b"), Some(&"2".to_string()));
    assert_eq!(properties.get("c"), None);
    assert_eq!(properties.entries().len(), 2);
}

#[test]
fn bounds_tell_the_only_target() {
    let target = |lower: Vec<(i32, Literal)>, upper: Vec<(i32, Literal)>| {
        DataFile {
            lower_bounds: lower,
            upper_bounds: upper,
            ..position_delete_file("d")
        }
        .find_only_target()
        .cloned()
    };
    assert_eq!(
        target(path_bound("a"), path_bound("a")),
        Some("a".to_string())
    );
    assert_eq!(target(path_bound("a"), path_bound("b")), None);
    assert_eq!(target(path_bound("a"), vec![]), None);
    let other = vec![(1, Literal::Text("a".to_string()))];
    assert_eq!(target(other.clone(), other), None);
    let referenced = DataFile {
        lower_bounds: path_bound("a"),
        upper_bounds: path_bound("a"),
        ..position_delete_referencing("d", "b", false)
    };
    assert_eq!(referenced.find_only_target(), Some(&"b".to_string()));
}

#[test]
fn partitions_are_compared_by_spec_and_values() {
    let left = data_file("a");
    assert!(left.in_partition_of(&data_file("b")));
    assert!(!left.in_partition_of(&DataFile {
        partition_spec_id: 1,
        ..data_file("b")
    }));
    assert!(!left.in_partition_of(&DataFile {
        partition: vec![None],
        ..data_file("b")
    }));
    assert!(!left.in_partition_of(&DataFile {
        partition: vec![Some(Literal::Int(300))],
        ..data_file("b")
    }));
    assert!(!left.in_partition_of(&DataFile {
        partition: vec![],
        ..data_file("b")
    }));
    let text = |value: &str| DataFile {
        partition: vec![Some(Literal::Text(value.to_string())), None],
        ..data_file("b")
    };
    let bytes = |value: &[u8]| DataFile {
        partition: vec![Some(Literal::Binary(value.to_vec()))],
        ..data_file("b")
    };
    assert!(bytes(&[1, 2]).in_partition_of(&bytes(&[1, 2])));
    assert!(!bytes(&[1, 2]).in_partition_of(&bytes(&[1, 3])));
    assert!(!bytes(&[1, 2]).in_partition_of(&bytes(&[1])));
    assert!(text("x").in_partition_of(&text("x")));
    assert!(!text("x").in_partition_of(&text("y")));
}

#[test]
fn files_of_two_calls_are_those_of_one() {
    let (table, _) = table_with_concurrent_snapshot(Operation::Append, vec![]);
    let uuid = CommitUuid { bits: 1 };
    let first = || vec![equality_delete("a"), data_file("b")];
    let second = || vec![data_file("c"), position_delete_file("d")];
    let both = || first().into_iter().chain(second()).collect::<Vec<_>>();
    let split = RewriteFilesAction::new()
        .add_data_files(first())
        .add_data_files(second())
        .delete_files(first())
        .delete_files(second());
    let whole = RewriteFilesAction::new()
        .add_data_files(both())
        .delete_files(both());
    let (split, _) = split.commit_as(uuid, &table);
    let (whole, _) = whole.commit_as(uuid, &table);
    let (split, whole) = (split.producer(), whole.producer());
    assert_eq!(split.added_data_files, whole.added_data_files);
    assert_eq!(split.added_delete_files, whole.added_delete_files);
    assert_eq!(split.removed_data_files, whole.removed_data_files);
    assert_eq!(split.removed_delete_files, whole.removed_delete_files);
    assert_eq!(
        whole.added_data_files.len() + whole.added_delete_files.len(),
        4
    );
}

#[test]
fn new_deletes_are_found_whatever_the_snapshot_did() {
    for operation in [
        Operation::Append,
        Operation::Replace,
        Operation::Overwrite,
        Operation::Delete,
    ] {
        let (table, mut store) = table_with_concurrent_snapshot(
            operation,
            vec![(equality_delete("d"), CONCURRENT_SEQUENCE_NUMBER)],
        );
        let action = rewrite_action(data_file(TARGET_DATA_FILE))
            .validate_from_snapshot(STARTING_SNAPSHOT_ID);
        assert!(run_commit(&action, &table, &mut store).is_err());
    }
}

#[test]
fn live_files_that_are_not_removed_stay_in_order() {
    let (table, mut store) = table_with_data_manifests();
    let live = |store: &mut Store, files: &[ManifestFile]| -> Vec<DataFile> {
        files
            .iter()
            .flat_map(|file| store.manifest(&file.manifest_path).unwrap())
            .filter(|entry| entry.is_alive())
            .map(|entry| entry.data_file)
            .collect()
    };
    let parent = store.list("list").unwrap();
    let expected: Vec<DataFile> = live(&mut store, &parent)
        .into_iter()
        .filter(|file| !file.file_path.starts_with("gone"))
        .collect();
    let removal = removing(vec![data_file("gone-1"), data_file("gone-2")], vec![]);
    let (existing, _) = run_scan(
        ReplaceFilesOperation::<Rewrite>::new(),
        &removal.producer(),
        &table,
        &mut store,
    );
    let existing = existing.unwrap();
    assert_eq!(live(&mut store, &existing), expected);
    assert_eq!(expected, vec![data_file("kept"), data_file("stays")]);
}

#[test]
fn conflict_names_the_endangered_file() {
    let (table, mut store) = table_with_concurrent_snapshot(
        Operation::Overwrite,
        vec![(
            position_delete_referencing("d", TARGET_DATA_FILE, false),
            CONCURRENT_SEQUENCE_NUMBER,
        )],
    );
    let action = RewriteFilesAction::new()
        .delete_files(vec![data_file(OTHER_DATA_FILE), data_file(TARGET_DATA_FILE)])
        .validate_from_snapshot(STARTING_SNAPSHOT_ID);
    let err = expect_err(run_commit(&action, &table, &mut store));
    assert!(err
        .context()
        .contains(&("data-file", TARGET_DATA_FILE.to_string())));
    assert!(!err
        .context()
        .contains(&("data-file", OTHER_DATA_FILE.to_string())));
}

use std::collections::BTreeMap;

use iceberg_actions::actions::orphan_file::{sort_by_path, OrphanFile};
use iceberg_actions::actions::orphan_run::{
    FileEntry, OrphanCommand, OrphanEvent, OrphanPhase, OrphanRun,
};
use iceberg_actions::actions::remove_orphan_files::{
    RemoveOrphanFilesAction, DEFAULT_LOAD_CONCURRENCY, DEFAULT_OLDER_THAN_MS,
};
use iceberg_actions::error::{Error, ErrorKind};
use iceberg_actions::metadata::data_file::{DataContentType, DataFile, DataFileFormat};
use iceberg_actions::metadata::manifest::{
    ManifestContentType, ManifestEntry, ManifestFile, ManifestStatus,
};
use iceberg_actions::metadata::table::{
    MetadataLog, Operation, Snapshot, StatisticsFile, Table, TableMetadata,
};
use iceberg_actions::time::{
    clamp_millis, now_ms, saturating_difference, unix_ms, Duration,
};

/// Files by path, with size and modification time, and manifests.
#[derive(Default)]
struct Store {
    files: BTreeMap<String, (u64, Option<i64>)>,
    dirs: Vec<String>,
    lists: BTreeMap<String, Vec<ManifestFile>>,
    manifests: BTreeMap<String, Vec<ManifestEntry>>,
    loaded: Vec<String>,
    deletions: usize,
    fails_to_delete: bool,
}

impl Store {
    fn write(&mut self, path: &str, content: &[u8]) {
        self.files
            .insert(path.to_string(), (content.len() as u64, Some(now_ms())));
    }

    fn holds(&self, path: &str) -> bool {
        self.files.contains_key(path)
    }
}

fn failure(message: &str) -> Error {
    Error {
        kind: ErrorKind::Unexpected,
        message: message.to_string(),
        context: vec![],
        retryable: false,
    }
}

fn next(state: (OrphanRun, OrphanCommand), event: OrphanEvent) -> (OrphanRun, OrphanCommand) {
    assert!(matches!(
        state.1,
        OrphanCommand::Continue
            | OrphanCommand::LoadManifestLists(..)
            | OrphanCommand::LoadManifests(..)
            | OrphanCommand::List(..)
            | OrphanCommand::Delete(..)
    ));
    state.0.step(event)
}

/// Runs the action against the store.
fn execute(
    action: RemoveOrphanFilesAction,
    store: &mut Store,
) -> Result<Vec<OrphanFile>, Error> {
    let (mut run, mut command) = action.execute();
    loop {
        match command {
            OrphanCommand::LoadManifestLists(snapshots, concurrency) => {
                assert!(concurrency >= 1);
                let mut state = (run, OrphanCommand::Continue);
                let mut failed = false;
                for snapshot in snapshots {
                    match store.lists.get(&snapshot.manifest_list) {
                        Some(list) => {
                            state = next(state, OrphanEvent::ManifestList(list.clone()));
                        }
                        None => {
                            state = next(state, OrphanEvent::Failed(failure("list")));
                            failed = true;
                            break;
                        }
                    }
                }
                if !failed {
                    state = next(state, OrphanEvent::ManifestListsLoaded);
                }
                run = state.0;
                command = state.1;
            }
            OrphanCommand::LoadManifests(manifests, concurrency) => {
                assert!(concurrency >= 1);
                let mut state = (run, OrphanCommand::Continue);
                for manifest in manifests {
                    store.loaded.push(manifest.manifest_path.clone());
                    let entries = store.manifests[&manifest.manifest_path].clone();
                    state = next(state, OrphanEvent::Manifest(entries));
                }
                state = next(state, OrphanEvent::ManifestsLoaded);
                run = state.0;
                command = state.1;
            }
            OrphanCommand::List(location, recursive) => {
                assert!(recursive);
                let mut state = (run, OrphanCommand::Continue);
                let prefix = format!("{location}/");
                for dir in &store.dirs {
                    state = next(
                        state,
                        OrphanEvent::Listed(FileEntry {
                            path: dir.clone(),
                            size: 0,
                            is_dir: true,
                            last_modified_ms: Some(0),
                        }),
                    );
                }
                for (path, (size, modified)) in store.files.iter().rev() {
                    if path.starts_with(&prefix) {
                        state = next(
                            state,
                            OrphanEvent::Listed(FileEntry {
                                path: path.clone(),
                                size: *size,
                                is_dir: false,
                                last_modified_ms: *modified,
                            }),
                        );
                    }
                }
                state = next(state, OrphanEvent::ListingLoaded);
                run = state.0;
                command = state.1;
            }
            OrphanCommand::Delete(paths) => {
                assert_eq!(run.phase(), OrphanPhase::Deleting);
                store.deletions += 1;
                let event = if store.fails_to_delete {
                    OrphanEvent::Failed(failure("delete"))
                } else {
                    for path in &paths {
                        store.files.remove(path);
                    }
                    OrphanEvent::Deleted
                };
                let state = run.step(event);
                run = state.0;
                command = state.1;
            }
            OrphanCommand::Continue => panic!("nothing to go on with"),
            OrphanCommand::Return(result) => {
                assert_eq!(run.phase(), OrphanPhase::Finished);
                return result;
            }
        }
    }
}

fn empty_memory_table() -> Table {
    Table {
        metadata: TableMetadata {
            location: "memory://warehouse/table".to_string(),
            metadata_log: vec![],
            statistics: vec![],
            partition_statistics: vec![],
            snapshots: vec![],
            refs: vec![],
        },
        metadata_location: Some("memory://warehouse/table/metadata/v1.json".to_string()),
    }
}

#[test]
fn removes_only_old_unreachable_files() {
    let table = empty_memory_table();
    let mut store = Store::default();
    let metadata_file = "memory://warehouse/table/metadata/v1.json";
    let orphan_file = "memory://warehouse/table/data/orphan.parquet";
    let outside_file = "memory://warehouse/other/outside.parquet";
    for path in [metadata_file, orphan_file, outside_file] {
        store.write(path, b"test");
    }

    let dry_run = execute(
        RemoveOrphanFilesAction::new(table.clone())
            .older_than_ms(i64::MAX)
            .dry_run(true),
        &mut store,
    )
    .unwrap();
    assert_eq!(
        dry_run,
        vec![OrphanFile {
            path: orphan_file.to_string(),
            size_bytes: 4,
        }]
    );
    assert!(store.holds(orphan_file));

    let deleted = execute(
        RemoveOrphanFilesAction::new(table.clone()).older_than_ms(i64::MAX),
        &mut store,
    )
    .unwrap();
    assert_eq!(
        deleted,
        vec![OrphanFile {
            path: orphan_file.to_string(),
            size_bytes: 4,
        }]
    );
    assert!(!store.holds(orphan_file));
    assert!(store.holds(metadata_file));
    assert!(store.holds(outside_file));
}

#[test]
fn execute_future_is_send() {
    fn assert_send<T: Send>(_: T) {}

    assert_send(
        RemoveOrphanFilesAction::new(empty_memory_table())
            .dry_run(true)
            .execute(),
    );
}

fn entry(path: &str, status: ManifestStatus) -> ManifestEntry {
    ManifestEntry {
        status,
        snapshot_id: Some(1),
        sequence_number: Some(1),
        file_sequence_number: Some(1),
        data_file: DataFile {
            content: DataContentType::Data,
            file_path: path.to_string(),
            file_format: DataFileFormat::Parquet,
            partition_spec_id: 0,
            partition: vec![],
            record_count: 1,
            file_size_in_bytes: 1,
            column_sizes: vec![],
            value_counts: vec![],
            null_value_counts: vec![],
            nan_value_counts: vec![],
            lower_bounds: vec![],
            upper_bounds: vec![],
            key_metadata: None,
            split_offsets: None,
            equality_ids: None,
            sort_order_id: None,
            referenced_data_file: None,
            content_offset: None,
            content_size_in_bytes: None,
        },
    }
}

fn manifest(path: &str, added_snapshot_id: i64) -> ManifestFile {
    ManifestFile {
        manifest_path: path.to_string(),
        content: ManifestContentType::Data,
        partition_spec_id: 0,
        added_snapshot_id,
    }
}

fn snapshot(id: i64, list: &str) -> Snapshot {
    Snapshot {
        snapshot_id: id,
        parent_snapshot_id: None,
        sequence_number: id,
        manifest_list: list.to_string(),
        operation: Operation::Append,
    }
}

/// A table that names one file of each kind, and a store that holds them all
/// with three files that nothing names.
fn full_table() -> (Table, Store) {
    let mut table = empty_memory_table();
    table.metadata.location = "t".to_string();
    table.metadata_location = Some("t/v2.json".to_string());
    table.metadata.metadata_log = vec![MetadataLog {
        metadata_file: "t/v1.json".to_string(),
        timestamp_ms: 1,
    }];
    table.metadata.statistics = vec![StatisticsFile {
        snapshot_id: 1,
        statistics_path: "t/stats".to_string(),
    }];
    table.metadata.partition_statistics = vec![StatisticsFile {
        snapshot_id: 1,
        statistics_path: "t/partition-stats".to_string(),
    }];
    table.metadata.snapshots = vec![snapshot(1, "t/l1"), snapshot(2, "t/l2"), snapshot(3, "")];

    let mut store = Store::default();
    store
        .lists
        .insert("t/l1".to_string(), vec![manifest("t/m1", 1)]);
    store.lists.insert(
        "t/l2".to_string(),
        vec![manifest("t/m1", 1), manifest("t/m2", 2)],
    );
    store.lists.insert(String::new(), vec![]);
    store.manifests.insert(
        "t/m1".to_string(),
        vec![
            entry("t/live", ManifestStatus::Added),
            entry("t/dead", ManifestStatus::Deleted),
        ],
    );
    store.manifests.insert(
        "t/m2".to_string(),
        vec![entry("t/other", ManifestStatus::Existing)],
    );
    for path in [
        "t/v1.json",
        "t/v2.json",
        "t/stats",
        "t/partition-stats",
        "t/l1",
        "t/l2",
        "t/m1",
        "t/m2",
        "t/live",
        "t/dead",
        "t/other",
        "t/orphan-b",
        "t/orphan-a",
        "t/orphan-B",
    ] {
        store.files.insert(path.to_string(), (path.len() as u64, Some(10)));
    }
    (table, store)
}

fn names(files: &[OrphanFile]) -> Vec<&str> {
    files.iter().map(|file| file.path.as_str()).collect()
}

#[test]
fn files_of_every_kind_are_reachable() {
    let (table, mut store) = full_table();
    let found = execute(
        RemoveOrphanFilesAction::new(table).older_than_ms(11),
        &mut store,
    )
    .unwrap();
    assert_eq!(names(&found), vec!["t/orphan-B", "t/orphan-a", "t/orphan-b"]);
    assert_eq!(found[0].size_bytes, 10);
    assert_eq!(store.files.len(), 11);
    assert_eq!(store.loaded, vec!["t/m1", "t/m2"]);
    assert_eq!(store.deletions, 1);
}

#[test]
fn threshold_is_exclusive_and_timestamps_are_needed() {
    let (table, mut store) = full_table();
    store.files.insert("t/orphan-a".to_string(), (1, None));
    store.files.insert("t/orphan-b".to_string(), (1, Some(9)));
    store.dirs.push("t/dir".to_string());
    let found = execute(
        RemoveOrphanFilesAction::new(table.clone())
            .older_than_ms(10)
            .dry_run(true),
        &mut store,
    )
    .unwrap();
    assert_eq!(names(&found), vec!["t/orphan-b"]);

    let found = execute(
        RemoveOrphanFilesAction::new(table)
            .older_than_ms(i64::MIN)
            .dry_run(true),
        &mut store,
    )
    .unwrap();
    assert!(found.is_empty());
    assert_eq!(store.deletions, 0);
}

#[test]
fn default_threshold_lies_seven_days_back() {
    assert_eq!(DEFAULT_OLDER_THAN_MS, 604_800_000);
    assert_eq!(DEFAULT_LOAD_CONCURRENCY, 16);
    let (table, mut store) = full_table();
    let now = 1_000_000_000_000;
    store.files.insert(
        "t/orphan-a".to_string(),
        (1, Some(now - DEFAULT_OLDER_THAN_MS - 1)),
    );
    store.files.insert(
        "t/orphan-b".to_string(),
        (1, Some(now - DEFAULT_OLDER_THAN_MS)),
    );
    store.files.remove("t/orphan-B");
    let found = execute(
        RemoveOrphanFilesAction::new_at(table.clone(), now).dry_run(true),
        &mut store,
    )
    .unwrap();
    assert_eq!(names(&found), vec!["t/orphan-a"]);

    store
        .files
        .insert("t/orphan-b".to_string(), (1, Some(now_ms())));
    let found = execute(
        RemoveOrphanFilesAction::new(table).dry_run(true),
        &mut store,
    )
    .unwrap();
    assert_eq!(names(&found), vec!["t/orphan-a"]);
}

#[test]
fn age_is_taken_off_the_time() {
    let (table, mut store) = full_table();
    store.files.insert("t/orphan-a".to_string(), (1, Some(499)));
    store.files.insert("t/orphan-b".to_string(), (1, Some(500)));
    store.files.insert("t/orphan-B".to_string(), (1, None));
    let age = Duration {
        secs: 1,
        nanos: 500_999_999,
    };
    let found = execute(
        RemoveOrphanFilesAction::new(table.clone())
            .older_than_at(age, 2_000)
            .dry_run(true),
        &mut store,
    )
    .unwrap();
    assert_eq!(names(&found), vec!["t/orphan-a"]);

    let forever = Duration {
        secs: u64::MAX,
        nanos: 0,
    };
    let found = execute(
        RemoveOrphanFilesAction::new(table.clone())
            .older_than(forever)
            .dry_run(true),
        &mut store,
    )
    .unwrap();
    assert!(found.is_empty());

    let found = execute(
        RemoveOrphanFilesAction::new(table)
            .older_than(Duration { secs: 60, nanos: 0 })
            .dry_run(true),
        &mut store,
    )
    .unwrap();
    assert_eq!(names(&found), vec!["t/orphan-a", "t/orphan-b"]);
}

#[test]
fn at_least_one_is_loaded_at_a_time() {
    for (asked, given) in [(0, 1), (1, 1), (5, 5)] {
        let (_, command) = RemoveOrphanFilesAction::new(empty_memory_table())
            .load_concurrency(asked)
            .execute();
        match command {
            OrphanCommand::LoadManifestLists(snapshots, concurrency) => {
                assert!(snapshots.is_empty());
                assert_eq!(concurrency, given);
            }
            other => panic!("unexpected command: {other:?}"),
        }
    }
}

#[test]
fn failure_to_load_deletes_nothing() {
    let (table, mut store) = full_table();
    store.lists.remove("t/l2");
    let result = execute(
        RemoveOrphanFilesAction::new(table).older_than_ms(i64::MAX),
        &mut store,
    );
    assert_eq!(result, Err(failure("list")));
    assert_eq!(store.deletions, 0);
    assert_eq!(store.files.len(), 14);
}

#[test]
fn failure_to_delete_is_returned() {
    let (table, mut store) = full_table();
    store.fails_to_delete = true;
    let result = execute(
        RemoveOrphanFilesAction::new(table).older_than_ms(i64::MAX),
        &mut store,
    );
    assert_eq!(result, Err(failure("delete")));
    assert_eq!(store.deletions, 1);
}

#[test]
fn first_of_two_manifests_of_one_path_is_loaded() {
    let mut table = empty_memory_table();
    table.metadata.snapshots = vec![snapshot(1, "l1")];
    let (run, _) = RemoveOrphanFilesAction::new(table).execute();
    let (run, _) = run.step(OrphanEvent::ManifestList(vec![
        manifest("m", 1),
        manifest("n", 1),
        manifest("m", 2),
    ]));
    let (_, command) = run.step(OrphanEvent::ManifestListsLoaded);
    match command {
        OrphanCommand::LoadManifests(manifests, _) => {
            assert_eq!(manifests, vec![manifest("m", 1), manifest("n", 1)]);
        }
        other => panic!("unexpected command: {other:?}"),
    }
}

#[test]
fn files_are_sorted_by_code_points() {
    let file = |path: &str| OrphanFile {
        path: path.to_string(),
        size_bytes: 0,
    };
    let sorted = sort_by_path(
        ["b", "", "\u{1F600}", "ab", "\u{FFFD}", "a", "B", "a"]
            .iter()
            .map(|path| file(path))
            .collect(),
    );
    assert_eq!(
        names(&sorted),
        vec!["", "B", "a", "a", "ab", "b", "\u{FFFD}", "\u{1F600}"]
    );
    assert!(sort_by_path(vec![]).is_empty());
}

#[test]
fn times_are_clamped() {
    assert_eq!(saturating_difference(i64::MIN, 1), i64::MIN);
    assert_eq!(saturating_difference(i64::MAX, -1), i64::MAX);
    assert_eq!(saturating_difference(5, 7), -2);
    assert_eq!(clamp_millis(u128::MAX), i64::MAX);
    assert_eq!(clamp_millis(12), 12);
    assert_eq!(
        Duration {
            secs: 2,
            nanos: 1_999_999
        }
        .as_millis(),
        2_001
    );
    assert_eq!(unix_ms(None), 0);
    assert_eq!(
        unix_ms(Some(Duration {
            secs: u64::MAX,
            nanos: 0
        })),
        i64::MAX
    );
    assert_eq!(
        unix_ms(Some(Duration {
            secs: 1,
            nanos: 2_000_000
        })),
        1_002
    );
    assert!(now_ms() > 1_500_000_000_000);
}

#[test]
fn order_of_what_is_loaded_does_not_matter() {
    let listed = |path: &str, size: u64| {
        OrphanEvent::Listed(FileEntry {
            path: path.to_string(),
            size,
            is_dir: false,
            last_modified_ms: Some(1),
        })
    };
    let returned = |turned: bool| {
        let (mut run, _) = RemoveOrphanFilesAction::new(empty_memory_table())
            .older_than_ms(2)
            .dry_run(true)
            .execute();
        let feed = |mut run: OrphanRun, mut events: Vec<OrphanEvent>, last: OrphanEvent| {
            if turned {
                events.reverse();
            }
            for event in events {
                run = run.step(event).0;
            }
            run.step(last)
        };
        let lists = vec![
            OrphanEvent::ManifestList(vec![manifest("m", 1)]),
            OrphanEvent::ManifestList(vec![manifest("n", 1), manifest("m", 1)]),
        ];
        run = feed(run, lists, OrphanEvent::ManifestListsLoaded).0;
        let contents = vec![
            OrphanEvent::Manifest(vec![entry("d", ManifestStatus::Added)]),
            OrphanEvent::Manifest(vec![entry("e", ManifestStatus::Deleted)]),
        ];
        run = feed(run, contents, OrphanEvent::ManifestsLoaded).0;
        let files = vec![
            listed("z", 1),
            listed("m", 2),
            listed("d", 3),
            listed("e", 4),
            listed("a", 5),
            listed("n", 6),
        ];
        match feed(run, files, OrphanEvent::ListingLoaded).1 {
            OrphanCommand::Return(result) => result.unwrap(),
            other => panic!("unexpected command: {other:?}"),
        }
    };
    assert_eq!(names(&returned(false)), vec!["a", "z"]);
    assert_eq!(returned(false), returned(true));
}

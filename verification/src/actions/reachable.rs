//! The files that can be reached from table metadata.

use vstd::hash_set::StringHashSet;
use vstd::prelude::*;

use crate::metadata::manifest::{ManifestEntry, ManifestFile};
use crate::metadata::table::{MetadataLog, Snapshot, StatisticsFile, Table};

verus! {

/// Paths of earlier metadata files.
pub open spec fn log_paths(log: Seq<MetadataLog>) -> Seq<Seq<char>> {
    log.map_values(|entry: MetadataLog| entry.metadata_file@)
}

/// Paths of statistics files.
pub open spec fn statistics_paths(files: Seq<StatisticsFile>) -> Seq<Seq<char>> {
    files.map_values(|file: StatisticsFile| file.statistics_path@)
}

/// Paths of manifest lists. A snapshot without a manifest list has none.
pub open spec fn manifest_list_paths(snapshots: Seq<Snapshot>) -> Seq<Seq<char>> {
    snapshots.map_values(|snapshot: Snapshot| snapshot.manifest_list@).filter(
        |path: Seq<char>| path.len() > 0,
    )
}

/// Paths of manifests.
pub open spec fn manifest_paths(files: Seq<ManifestFile>) -> Seq<Seq<char>> {
    files.map_values(|file: ManifestFile| file.path())
}

/// Paths of the files that manifest entries name, whatever their status.
pub open spec fn entry_paths(entries: Seq<ManifestEntry>) -> Seq<Seq<char>> {
    entries.map_values(|entry: ManifestEntry| entry.path())
}

/// The files that table metadata names itself: the current metadata file, the
/// earlier ones, the statistics of the table and of its partitions, and the
/// manifest lists of all snapshots.
pub open spec fn named_files(table: Table) -> Set<Seq<char>> {
    let current = match table.metadata_location {
        Some(location) => set![location@],
        None => Set::empty(),
    };
    current.union(log_paths(table.metadata.metadata_log@).to_set()).union(
        statistics_paths(table.metadata.statistics@).to_set(),
    ).union(statistics_paths(table.metadata.partition_statistics@).to_set()).union(
        manifest_list_paths(table.metadata.snapshots@).to_set(),
    )
}

/// Adds the paths of earlier metadata files.
fn add_log(reachable: &mut StringHashSet, log: &Vec<MetadataLog>)
    ensures
        final(reachable)@ == old(reachable)@.union(log_paths(log@).to_set()),
{
    let ghost paths = log_paths(log@);
    assert(reachable@ =~= old(reachable)@.union(paths.take(0).to_set()));
    for i in 0..log.len()
        invariant
            paths == log_paths(log@),
            reachable@ == old(reachable)@.union(paths.take(i as int).to_set()),
    {
        let _ = reachable.insert(log[i].metadata_file.clone());
        proof {
            add_path(old(reachable)@, paths, i as int);
        }
    }
    assert(paths.take(paths.len() as int) =~= paths);
}

/// Adds the paths of statistics files.
fn add_statistics(reachable: &mut StringHashSet, files: &Vec<StatisticsFile>)
    ensures
        final(reachable)@ == old(reachable)@.union(statistics_paths(files@).to_set()),
{
    let ghost paths = statistics_paths(files@);
    assert(reachable@ =~= old(reachable)@.union(paths.take(0).to_set()));
    for i in 0..files.len()
        invariant
            paths == statistics_paths(files@),
            reachable@ == old(reachable)@.union(paths.take(i as int).to_set()),
    {
        let _ = reachable.insert(files[i].statistics_path.clone());
        proof {
            add_path(old(reachable)@, paths, i as int);
        }
    }
    assert(paths.take(paths.len() as int) =~= paths);
}

/// Adds the paths of manifest lists.
fn add_manifest_lists(reachable: &mut StringHashSet, snapshots: &Vec<Snapshot>)
    ensures
        final(reachable)@ == old(reachable)@.union(manifest_list_paths(snapshots@).to_set()),
{
    let ghost paths = snapshots@.map_values(|snapshot: Snapshot| snapshot.manifest_list@);
    let ghost present = |path: Seq<char>| path.len() > 0;
    proof {
        reveal(Seq::filter);
        assert(reachable@ =~= old(reachable)@.union(paths.take(0).filter(present).to_set()));
    }
    for i in 0..snapshots.len()
        invariant
            paths == snapshots@.map_values(|snapshot: Snapshot| snapshot.manifest_list@),
            present == (|path: Seq<char>| path.len() > 0),
            reachable@ == old(reachable)@.union(paths.take(i as int).filter(present).to_set()),
    {
        proof {
            assert(paths.take(i + 1) =~= paths.take(i as int).push(paths[i as int]));
            paths.take(i as int).lemma_filter_push(paths[i as int], present);
            paths.take(i as int).filter(present).lemma_push_to_set_commute(paths[i as int]);
        }
        if !snapshots[i].manifest_list.as_str().is_empty() {
            let _ = reachable.insert(snapshots[i].manifest_list.clone());
        }
        assert(reachable@ =~= old(reachable)@.union(paths.take(i + 1).filter(present).to_set()));
    }
    assert(paths.take(paths.len() as int) =~= paths);
}

/// One more path taken in.
proof fn add_path(start: Set<Seq<char>>, paths: Seq<Seq<char>>, i: int)
    requires
        0 <= i < paths.len(),
    ensures
        start.union(paths.take(i).to_set()).insert(paths[i]) == start.union(
            paths.take(i + 1).to_set(),
        ),
{
    assert(paths.take(i + 1) =~= paths.take(i).push(paths[i]));
    paths.take(i).lemma_push_to_set_commute(paths[i]);
    assert(start.union(paths.take(i).to_set()).insert(paths[i]) =~= start.union(
        paths.take(i + 1).to_set(),
    ));
}

/// Collects the files that table metadata names itself.
pub(crate) fn collect_named_files(table: &Table) -> (reachable: StringHashSet)
    ensures
        reachable@ == named_files(*table),
{
    let mut reachable: StringHashSet = StringHashSet::new();
    if let Some(location) = &table.metadata_location {
        let _ = reachable.insert(location.clone());
        assert(reachable@ =~= set![location@]);
    }
    add_log(&mut reachable, &table.metadata.metadata_log);
    add_statistics(&mut reachable, &table.metadata.statistics);
    add_statistics(&mut reachable, &table.metadata.partition_statistics);
    add_manifest_lists(&mut reachable, &table.metadata.snapshots);
    reachable
}

/// One of the manifests has the given path.
pub open spec fn has_manifest(manifests: Seq<ManifestFile>, path: Seq<char>) -> bool {
    exists|i: int| 0 <= i < manifests.len() && (#[trigger] manifests[i]).path() == path
}

/// The manifests and then those of `files` whose paths have not come before.
pub open spec fn add_manifests(manifests: Seq<ManifestFile>, files: Seq<ManifestFile>) -> Seq<
    ManifestFile,
>
    decreases files.len(),
{
    if files.len() == 0 {
        manifests
    } else {
        let before = add_manifests(manifests, files.drop_last());
        if has_manifest(before, files.last().path()) {
            before
        } else {
            before.push(files.last())
        }
    }
}

/// The files found reachable so far and the manifests that are still to be read.
#[verifier::ext_equal]
pub struct ReachableView {
    /// Paths of reachable files.
    pub files: Set<Seq<char>>,
    /// Manifests to read, each path once.
    pub manifests: Seq<ManifestFile>,
}

/// Collects the files that can be reached from table metadata.
pub struct ReachableFiles {
    files: StringHashSet,
    manifests: Vec<ManifestFile>,
    seen: StringHashSet,
}

impl View for ReachableFiles {
    type V = ReachableView;

    closed spec fn view(&self) -> ReachableView {
        ReachableView { files: self.files@, manifests: self.manifests@ }
    }
}

impl ReachableFiles {
    #[verifier::type_invariant]
    spec fn well_formed(self) -> bool {
        forall|path: Seq<char>| #[trigger]
            self.seen@.contains(path) == has_manifest(self.manifests@, path)
    }

    /// Starts with the files that table metadata names itself.
    pub(crate) fn of_table(table: &Table) -> (reachable: Self)
        ensures
            reachable@ == (ReachableView { files: named_files(*table), manifests: Seq::empty() }),
    {
        ReachableFiles {
            files: collect_named_files(table),
            manifests: Vec::new(),
            seen: StringHashSet::new(),
        }
    }

    /// Tells whether a file can be reached, as far as is known.
    pub fn contains(&self, path: &str) -> (known: bool)
        ensures
            known == self@.files.contains(path@),
    {
        self.files.contains(path)
    }

    /// Takes in the manifests of a manifest list.
    pub(crate) fn with_manifest_list(self, list: Vec<ManifestFile>) -> (reachable: Self)
        ensures
            reachable@ == (ReachableView {
                files: self@.files.union(manifest_paths(list@).to_set()),
                manifests: add_manifests(self@.manifests, list@),
            }),
    {
        proof {
            use_type_invariant(&self);
        }
        let ghost start = self@;
        let ghost all = list@;
        let ghost paths = manifest_paths(all);
        let mut files: StringHashSet = self.files;
        let mut manifests: Vec<ManifestFile> = self.manifests;
        let mut seen: StringHashSet = self.seen;
        assert(files@ =~= start.files.union(paths.take(0).to_set()));
        assert(all.take(0) =~= Seq::empty());
        for file in it: list.into_iter()
            invariant
                it.seq() == all,
                paths == manifest_paths(all),
                files@ == start.files.union(paths.take(it.index() as int).to_set()),
                manifests@ == add_manifests(start.manifests, all.take(it.index() as int)),
                forall|path: Seq<char>| #[trigger]
                    seen@.contains(path) == has_manifest(manifests@, path),
        {
            let ghost i = it.index() as int;
            let ghost before = manifests@;
            proof {
                assert(file == all[i]);
                assert(paths[i] == file.path());
                add_path(start.files, paths, i);
                assert(all.take(i + 1).drop_last() =~= all.take(i));
                assert(all.take(i + 1).last() == file);
            }
            let _ = files.insert(file.manifest_path.clone());
            if seen.insert(file.manifest_path.clone()) {
                manifests.push(file);
                proof {
                    assert forall|path: Seq<char>| #[trigger]
                        seen@.contains(path) == has_manifest(manifests@, path) by {
                        if has_manifest(before, path) {
                            let j = choose|j: int|
                                0 <= j < before.len() && (#[trigger] before[j]).path() == path;
                            assert(manifests@[j].path() == path);
                        }
                        if path == file.path() {
                            assert(manifests@[before.len() as int].path() == path);
                        }
                        if has_manifest(manifests@, path) && path != file.path() {
                            let j = choose|j: int|
                                0 <= j < manifests@.len() && (#[trigger] manifests@[j]).path()
                                    == path;
                            assert(before[j].path() == path);
                        }
                    }
                }
            } else {
                assert(has_manifest(before, file.path()));
            }
        }
        assert(paths.take(paths.len() as int) =~= paths);
        assert(all.take(all.len() as int) =~= all);
        ReachableFiles { files, manifests, seen }
    }

    /// Hands over the manifests that are still to be read.
    pub(crate) fn take_manifests(self) -> (taken: (Self, Vec<ManifestFile>))
        ensures
            taken.0@ == (ReachableView { files: self@.files, manifests: Seq::empty() }),
            taken.1@ == self@.manifests,
    {
        (
            ReachableFiles {
                files: self.files,
                manifests: Vec::new(),
                seen: StringHashSet::new(),
            },
            self.manifests,
        )
    }

    /// Takes in the files that the entries of a manifest name.
    pub(crate) fn with_manifest(self, entries: &Vec<ManifestEntry>) -> (reachable: Self)
        ensures
            reachable@ == (ReachableView {
                files: self@.files.union(entry_paths(entries@).to_set()),
                manifests: self@.manifests,
            }),
    {
        proof {
            use_type_invariant(&self);
        }
        let ghost start = self@;
        let ghost paths = entry_paths(entries@);
        let mut files: StringHashSet = self.files;
        assert(files@ =~= start.files.union(paths.take(0).to_set()));
        for i in 0..entries.len()
            invariant
                paths == entry_paths(entries@),
                files@ == start.files.union(paths.take(i as int).to_set()),
        {
            let _ = files.insert(entries[i].data_file.file_path.clone());
            proof {
                add_path(start.files, paths, i as int);
            }
        }
        assert(paths.take(paths.len() as int) =~= paths);
        ReachableFiles { files, manifests: self.manifests, seen: self.seen }
    }
}

} // verus!

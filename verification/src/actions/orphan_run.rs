//! Discovering orphan files, one step at a time.
//!
//! An [`OrphanRun`] asks for the manifest lists of all snapshots, then for the
//! manifests that they name, then for a listing of the table location, and at
//! last for the deletion of the orphans. It is told what came of it and answers
//! with what to do next.

use vstd::prelude::*;

use crate::actions::orphan_file::{ordered_by_path, sort_by_path, OrphanFile};
use crate::actions::reachable::{
    add_manifests, entry_paths, manifest_paths, named_files, ReachableFiles, ReachableView,
};
use crate::actions::remove_orphan_files::OrphanSettings;
use crate::error::Error;
use crate::metadata::manifest::{ManifestEntry, ManifestFile};
use crate::metadata::table::{Snapshot, TableMetadata};

verus! {

/// A file or directory that the storage lists.
#[derive(Debug, Clone, PartialEq, Eq)]
pub struct FileEntry {
    /// Absolute path.
    pub path: String,
    /// Size in bytes.
    pub size: u64,
    /// This is a directory.
    pub is_dir: bool,
    /// When the file was last modified, as a Unix timestamp in milliseconds,
    /// where the storage reports it.
    pub last_modified_ms: Option<i64>,
}

impl FileEntry {
    /// The orphan file that this entry stands for, where it is one.
    pub open spec fn as_orphan(self) -> OrphanFile {
        OrphanFile { path: self.path, size_bytes: self.size }
    }

    /// The entry is a file that was last modified before the given time.
    pub open spec fn is_old_file(self, older_than_ms: i64) -> bool {
        !self.is_dir && (self.last_modified_ms matches Some(timestamp) && timestamp < older_than_ms)
    }
}

/// What a run waits for.
#[derive(Debug, Clone, Copy, PartialEq, Eq, Structural)]
pub enum OrphanPhase {
    /// The manifest lists.
    ManifestLists,
    /// The manifests.
    Manifests,
    /// The listing of the table location.
    Listing,
    /// The deletion of the orphans.
    Deleting,
    /// Nothing: the run has ended.
    Finished,
}

/// What came of a command.
#[derive(Debug)]
pub enum OrphanEvent {
    /// One manifest list was loaded.
    ManifestList(Vec<ManifestFile>),
    /// All manifest lists have been loaded.
    ManifestListsLoaded,
    /// One manifest was loaded.
    Manifest(Vec<ManifestEntry>),
    /// All manifests have been loaded.
    ManifestsLoaded,
    /// One entry was listed.
    Listed(FileEntry),
    /// All entries have been listed.
    ListingLoaded,
    /// The files have been deleted.
    Deleted,
    /// The command failed.
    Failed(Error),
}

/// The mathematical value of an [`OrphanEvent`].
#[verifier::ext_equal]
pub enum OrphanEventView {
    /// One manifest list was loaded.
    ManifestList(Seq<ManifestFile>),
    /// All manifest lists have been loaded.
    ManifestListsLoaded,
    /// One manifest was loaded.
    Manifest(Seq<ManifestEntry>),
    /// All manifests have been loaded.
    ManifestsLoaded,
    /// One entry was listed.
    Listed(FileEntry),
    /// All entries have been listed.
    ListingLoaded,
    /// The files have been deleted.
    Deleted,
    /// The command failed.
    Failed(Error),
}

impl View for OrphanEvent {
    type V = OrphanEventView;

    open spec fn view(&self) -> OrphanEventView {
        match *self {
            OrphanEvent::ManifestList(list) => OrphanEventView::ManifestList(list@),
            OrphanEvent::ManifestListsLoaded => OrphanEventView::ManifestListsLoaded,
            OrphanEvent::Manifest(entries) => OrphanEventView::Manifest(entries@),
            OrphanEvent::ManifestsLoaded => OrphanEventView::ManifestsLoaded,
            OrphanEvent::Listed(entry) => OrphanEventView::Listed(entry),
            OrphanEvent::ListingLoaded => OrphanEventView::ListingLoaded,
            OrphanEvent::Deleted => OrphanEventView::Deleted,
            OrphanEvent::Failed(error) => OrphanEventView::Failed(error),
        }
    }
}

/// What to do next.
#[derive(Debug)]
pub enum OrphanCommand {
    /// Load the manifest lists of the snapshots, at most so many at a time.
    LoadManifestLists(Vec<Snapshot>, usize),
    /// Load the manifests, at most so many at a time.
    LoadManifests(Vec<ManifestFile>, usize),
    /// List a location, with all that lies below it where the flag is set.
    List(String, bool),
    /// Delete the files.
    Delete(Vec<String>),
    /// Go on with the last command.
    Continue,
    /// Return the orphan files, or the failure.
    Return(Result<Vec<OrphanFile>, Error>),
}

/// The mathematical value of an [`OrphanCommand`].
#[verifier::ext_equal]
pub enum OrphanCommandView {
    /// Load the manifest lists of the snapshots, at most so many at a time.
    LoadManifestLists(Seq<Snapshot>, usize),
    /// Load the manifests, at most so many at a time.
    LoadManifests(Seq<ManifestFile>, usize),
    /// List a location, with all that lies below it where the flag is set.
    List(Seq<char>, bool),
    /// Delete the files.
    Delete(Seq<Seq<char>>),
    /// Go on with the last command.
    Continue,
    /// Return the orphan files.
    Return(Seq<OrphanFile>),
    /// Return the failure.
    Fail(Error),
}

impl View for OrphanCommand {
    type V = OrphanCommandView;

    open spec fn view(&self) -> OrphanCommandView {
        match *self {
            OrphanCommand::LoadManifestLists(snapshots, concurrency) => {
                OrphanCommandView::LoadManifestLists(snapshots@, concurrency)
            },
            OrphanCommand::LoadManifests(manifests, concurrency) => {
                OrphanCommandView::LoadManifests(manifests@, concurrency)
            },
            OrphanCommand::List(location, recursive) => OrphanCommandView::List(
                location@,
                recursive,
            ),
            OrphanCommand::Delete(paths) => OrphanCommandView::Delete(
                paths@.map_values(|path: String| path@),
            ),
            OrphanCommand::Continue => OrphanCommandView::Continue,
            OrphanCommand::Return(Ok(files)) => OrphanCommandView::Return(files@),
            OrphanCommand::Return(Err(error)) => OrphanCommandView::Fail(error),
        }
    }
}

/// The paths of orphan files.
pub open spec fn orphan_paths(files: Seq<OrphanFile>) -> Seq<Seq<char>> {
    files.map_values(|file: OrphanFile| file.path@)
}

/// The same files, in the order of their paths.
pub open spec fn sorts(found: Seq<OrphanFile>, sorted: Seq<OrphanFile>) -> bool {
    ordered_by_path(sorted) && sorted.to_multiset() == found.to_multiset()
}

/// The state of a run.
#[verifier::ext_equal]
pub struct OrphanRunView {
    /// What the run waits for.
    pub phase: OrphanPhase,
    /// Directory of the table.
    pub location: Seq<char>,
    /// Only files last modified before this Unix timestamp are orphans.
    pub older_than_ms: i64,
    /// Orphan files are only reported.
    pub dry_run: bool,
    /// How many manifest lists or manifests are loaded at a time.
    pub load_concurrency: usize,
    /// What is known of the reachable files.
    pub reachable: ReachableView,
    /// The orphans, so far.
    pub orphans: Seq<OrphanFile>,
}

impl OrphanRunView {
    /// A listed entry is an orphan: a file, not known to be reachable, and last
    /// modified before the threshold.
    pub open spec fn is_orphan(self, entry: FileEntry) -> bool {
        entry.is_old_file(self.older_than_ms) && !self.reachable.files.contains(entry.path@)
    }

    /// The event is one that the run waits for.
    pub open spec fn expects(self, event: OrphanEventView) -> bool {
        match event {
            OrphanEventView::ManifestList(list) => self.phase == OrphanPhase::ManifestLists,
            OrphanEventView::ManifestListsLoaded => self.phase == OrphanPhase::ManifestLists,
            OrphanEventView::Manifest(entries) => self.phase == OrphanPhase::Manifests,
            OrphanEventView::ManifestsLoaded => self.phase == OrphanPhase::Manifests,
            OrphanEventView::Listed(entry) => self.phase == OrphanPhase::Listing,
            OrphanEventView::ListingLoaded => self.phase == OrphanPhase::Listing,
            OrphanEventView::Deleted => self.phase == OrphanPhase::Deleting,
            OrphanEventView::Failed(error) => self.phase != OrphanPhase::Finished,
        }
    }

    /// An event leads from this state to the next one and to what to do then.
    pub open spec fn leads_to(
        self,
        event: OrphanEventView,
        next: OrphanRunView,
        command: OrphanCommandView,
    ) -> bool {
        match event {
            OrphanEventView::ManifestList(list) => {
                &&& next == OrphanRunView {
                    reachable: ReachableView {
                        files: self.reachable.files.union(manifest_paths(list).to_set()),
                        manifests: add_manifests(self.reachable.manifests, list),
                    },
                    ..self
                }
                &&& command == OrphanCommandView::Continue
            },
            OrphanEventView::ManifestListsLoaded => {
                &&& next == OrphanRunView {
                    phase: OrphanPhase::Manifests,
                    reachable: ReachableView { manifests: Seq::empty(), ..self.reachable },
                    ..self
                }
                &&& command == OrphanCommandView::LoadManifests(
                    self.reachable.manifests,
                    self.load_concurrency,
                )
            },
            OrphanEventView::Manifest(entries) => {
                &&& next == OrphanRunView {
                    reachable: ReachableView {
                        files: self.reachable.files.union(entry_paths(entries).to_set()),
                        ..self.reachable
                    },
                    ..self
                }
                &&& command == OrphanCommandView::Continue
            },
            OrphanEventView::ManifestsLoaded => {
                &&& next == OrphanRunView { phase: OrphanPhase::Listing, ..self }
                &&& command == OrphanCommandView::List(self.location, true)
            },
            OrphanEventView::Listed(entry) => {
                &&& next == OrphanRunView {
                    orphans: if self.is_orphan(entry) {
                        self.orphans.push(entry.as_orphan())
                    } else {
                        self.orphans
                    },
                    ..self
                }
                &&& command == OrphanCommandView::Continue
            },
            OrphanEventView::ListingLoaded => {
                if self.dry_run {
                    &&& next == OrphanRunView {
                        phase: OrphanPhase::Finished,
                        orphans: Seq::empty(),
                        ..self
                    }
                    &&& command is Return
                    &&& sorts(self.orphans, command->Return_0)
                } else {
                    &&& next == OrphanRunView {
                        phase: OrphanPhase::Deleting,
                        orphans: next.orphans,
                        ..self
                    }
                    &&& sorts(self.orphans, next.orphans)
                    &&& command == OrphanCommandView::Delete(orphan_paths(next.orphans))
                }
            },
            OrphanEventView::Deleted => {
                &&& next == OrphanRunView {
                    phase: OrphanPhase::Finished,
                    orphans: Seq::empty(),
                    ..self
                }
                &&& command == OrphanCommandView::Return(self.orphans)
            },
            OrphanEventView::Failed(error) => {
                &&& next == OrphanRunView { phase: OrphanPhase::Finished, ..self }
                &&& command == OrphanCommandView::Fail(error)
            },
        }
    }
}

/// The first state of a run and what to do first.
pub open spec fn run_start(settings: OrphanSettings) -> (OrphanRunView, OrphanCommandView) {
    (
        OrphanRunView {
            phase: OrphanPhase::ManifestLists,
            location: settings.table.metadata.location@,
            older_than_ms: settings.older_than_ms,
            dry_run: settings.dry_run,
            load_concurrency: settings.load_concurrency,
            reachable: ReachableView {
                files: named_files(settings.table),
                manifests: Seq::empty(),
            },
            orphans: Seq::empty(),
        },
        OrphanCommandView::LoadManifestLists(
            settings.table.metadata.snapshots@,
            settings.load_concurrency,
        ),
    )
}

/// An execution of the orphan-file action.
pub struct OrphanRun {
    phase: OrphanPhase,
    location: String,
    older_than_ms: i64,
    dry_run: bool,
    load_concurrency: usize,
    reachable: ReachableFiles,
    orphans: Vec<OrphanFile>,
}

impl View for OrphanRun {
    type V = OrphanRunView;

    closed spec fn view(&self) -> OrphanRunView {
        OrphanRunView {
            phase: self.phase,
            location: self.location@,
            older_than_ms: self.older_than_ms,
            dry_run: self.dry_run,
            load_concurrency: self.load_concurrency,
            reachable: self.reachable@,
            orphans: self.orphans@,
        }
    }
}

/// Copies the paths of orphan files.
fn copy_paths(files: &Vec<OrphanFile>) -> (paths: Vec<String>)
    ensures
        paths@.map_values(|path: String| path@) == orphan_paths(files@),
{
    let mut paths: Vec<String> = Vec::new();
    for i in 0..files.len()
        invariant
            paths@.len() == i,
            forall|j: int| 0 <= j < i ==> #[trigger] paths@[j] == files@[j].path,
    {
        paths.push(files[i].path.clone());
    }
    assert(paths@.map_values(|path: String| path@) =~= orphan_paths(files@));
    paths
}

impl OrphanRun {
    #[verifier::type_invariant]
    spec fn well_formed(self) -> bool {
        self.load_concurrency >= 1
    }

    /// Starts a run with the files that are known to be reachable.
    pub(crate) fn start(
        reachable: ReachableFiles,
        metadata: TableMetadata,
        older_than_ms: i64,
        dry_run: bool,
        load_concurrency: usize,
    ) -> (started: (Self, OrphanCommand))
        requires
            load_concurrency >= 1,
        ensures
            started.0@ == (OrphanRunView {
                phase: OrphanPhase::ManifestLists,
                location: metadata.location@,
                older_than_ms,
                dry_run,
                load_concurrency,
                reachable: reachable@,
                orphans: Seq::empty(),
            }),
            started.1@ == OrphanCommandView::LoadManifestLists(
                metadata.snapshots@,
                load_concurrency,
            ),
    {
        (
            OrphanRun {
                phase: OrphanPhase::ManifestLists,
                location: metadata.location,
                older_than_ms,
                dry_run,
                load_concurrency,
                reachable,
                orphans: Vec::new(),
            },
            OrphanCommand::LoadManifestLists(metadata.snapshots, load_concurrency),
        )
    }

    /// Returns what the run waits for.
    pub fn phase(&self) -> (phase: OrphanPhase)
        ensures
            phase == self@.phase,
    {
        self.phase
    }

    /// Tells whether a listed entry is an orphan.
    pub fn is_orphan(&self, entry: &FileEntry) -> (orphan: bool)
        ensures
            orphan == self@.is_orphan(*entry),
    {
        let old: bool = match entry.last_modified_ms {
            Some(timestamp) => timestamp < self.older_than_ms,
            None => false,
        };
        !entry.is_dir && !self.reachable.contains(entry.path.as_str()) && old
    }

    /// Takes in what came of the last command and returns the run with what to do
    /// next. The event must be one that the run waits for. Manifests are loaded at
    /// least one at a time.
    pub fn step(self, event: OrphanEvent) -> (next: (Self, OrphanCommand))
        requires
            self@.expects(event@),
        ensures
            self@.leads_to(event@, next.0@, next.1@),
            next.1@ matches OrphanCommandView::LoadManifests(manifests, concurrency) ==> concurrency
                >= 1,
    {
        proof {
            use_type_invariant(&self);
        }
        match event {
            OrphanEvent::ManifestList(list) => {
                let reachable: ReachableFiles = self.reachable.with_manifest_list(list);
                (OrphanRun { reachable, ..self }, OrphanCommand::Continue)
            },
            OrphanEvent::ManifestListsLoaded => {
                let (reachable, manifests) = self.reachable.take_manifests();
                (
                    OrphanRun { phase: OrphanPhase::Manifests, reachable, ..self },
                    OrphanCommand::LoadManifests(manifests, self.load_concurrency),
                )
            },
            OrphanEvent::Manifest(entries) => {
                let reachable: ReachableFiles = self.reachable.with_manifest(&entries);
                (OrphanRun { reachable, ..self }, OrphanCommand::Continue)
            },
            OrphanEvent::ManifestsLoaded => {
                let location: String = self.location.clone();
                (
                    OrphanRun { phase: OrphanPhase::Listing, ..self },
                    OrphanCommand::List(location, true),
                )
            },
            OrphanEvent::Listed(entry) => {
                if self.is_orphan(&entry) {
                    let mut orphans: Vec<OrphanFile> = self.orphans;
                    orphans.push(OrphanFile { path: entry.path, size_bytes: entry.size });
                    (OrphanRun { orphans, ..self }, OrphanCommand::Continue)
                } else {
                    (self, OrphanCommand::Continue)
                }
            },
            OrphanEvent::ListingLoaded => {
                let sorted: Vec<OrphanFile> = sort_by_path(self.orphans);
                if self.dry_run {
                    (
                        OrphanRun { phase: OrphanPhase::Finished, orphans: Vec::new(), ..self },
                        OrphanCommand::Return(Ok(sorted)),
                    )
                } else {
                    let paths: Vec<String> = copy_paths(&sorted);
                    (
                        OrphanRun { phase: OrphanPhase::Deleting, orphans: sorted, ..self },
                        OrphanCommand::Delete(paths),
                    )
                }
            },
            OrphanEvent::Deleted => {
                (
                    OrphanRun {
                        phase: OrphanPhase::Finished,
                        location: self.location,
                        older_than_ms: self.older_than_ms,
                        dry_run: self.dry_run,
                        load_concurrency: self.load_concurrency,
                        reachable: self.reachable,
                        orphans: Vec::new(),
                    },
                    OrphanCommand::Return(Ok(self.orphans)),
                )
            },
            OrphanEvent::Failed(error) => {
                (
                    OrphanRun { phase: OrphanPhase::Finished, ..self },
                    OrphanCommand::Return(Err(error)),
                )
            },
        }
    }
}

} // verus!

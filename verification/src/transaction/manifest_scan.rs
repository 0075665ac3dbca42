//! Going through the manifests of the parent snapshot, one at a time.
//!
//! A [`ManifestScan`] asks for one thing after the other: the manifest list,
//! then each manifest in turn, and each manifest that has to be written anew. It
//! is told what came of it and answers with what to do next.

use vstd::prelude::*;

use crate::error::Error;
use crate::metadata::manifest::{ManifestEntry, ManifestFile};
use crate::metadata::table::Snapshot;
use crate::transaction::existing_manifest::{
    disposition_of, is_marked, is_numbered, marked_entries, marks, marks_numbered, numbered,
    sort_out_manifest, Disposition, DispositionView, DraftView, ManifestDraft,
};
use crate::transaction::replace_files::{ReplaceFilesMode, ReplaceFilesOperation};
use crate::transaction::snapshot::{RemovedPaths, RemovedView};

verus! {

/// What a scan waits for.
#[derive(Debug, Clone, Copy, PartialEq, Eq, Structural)]
pub enum ScanPhase {
    /// The manifest list.
    List,
    /// The entries of a manifest.
    Manifest,
    /// A manifest that is written anew.
    Write,
    /// Nothing: the scan has ended.
    Finished,
}

/// What came of a command.
#[derive(Debug)]
pub enum ScanEvent {
    /// The manifest list was loaded.
    ManifestList(Vec<ManifestFile>),
    /// A manifest was loaded.
    Manifest(Vec<ManifestEntry>),
    /// A manifest was written.
    Written(ManifestFile),
    /// The command failed.
    Failed(Error),
}

/// The mathematical value of a [`ScanEvent`].
#[verifier::ext_equal]
pub enum ScanEventView {
    /// The manifest list was loaded.
    ManifestList(Seq<ManifestFile>),
    /// A manifest was loaded.
    Manifest(Seq<ManifestEntry>),
    /// A manifest was written.
    Written(ManifestFile),
    /// The command failed.
    Failed(Error),
}

impl View for ScanEvent {
    type V = ScanEventView;

    open spec fn view(&self) -> ScanEventView {
        match *self {
            ScanEvent::ManifestList(files) => ScanEventView::ManifestList(files@),
            ScanEvent::Manifest(entries) => ScanEventView::Manifest(entries@),
            ScanEvent::Written(file) => ScanEventView::Written(file),
            ScanEvent::Failed(error) => ScanEventView::Failed(error),
        }
    }
}

/// What to do next.
#[derive(Debug)]
pub enum ScanCommand {
    /// Load the manifest list of a snapshot.
    LoadManifestList(Snapshot),
    /// Load a manifest.
    LoadManifest(ManifestFile),
    /// Write a manifest.
    WriteManifest(ManifestDraft),
    /// Return the manifests that stay, or the failure.
    Return(Result<Vec<ManifestFile>, Error>),
}

/// The mathematical value of a [`ScanCommand`].
#[verifier::ext_equal]
pub enum ScanCommandView {
    /// Load the manifest list of a snapshot.
    LoadManifestList(Snapshot),
    /// Load a manifest.
    LoadManifest(ManifestFile),
    /// Write a manifest.
    WriteManifest(DraftView),
    /// Return the manifests that stay.
    Return(Seq<ManifestFile>),
    /// Return the failure.
    Fail(Error),
}

impl View for ScanCommand {
    type V = ScanCommandView;

    open spec fn view(&self) -> ScanCommandView {
        match *self {
            ScanCommand::LoadManifestList(snapshot) => ScanCommandView::LoadManifestList(snapshot),
            ScanCommand::LoadManifest(file) => ScanCommandView::LoadManifest(file),
            ScanCommand::WriteManifest(draft) => ScanCommandView::WriteManifest(draft@),
            ScanCommand::Return(Ok(files)) => ScanCommandView::Return(files@),
            ScanCommand::Return(Err(error)) => ScanCommandView::Fail(error),
        }
    }
}

/// The state of a scan.
#[verifier::ext_equal]
pub struct ScanView {
    /// What the scan waits for.
    pub phase: ScanPhase,
    /// The paths of the files that the snapshot removes.
    pub removed: RemovedView,
    /// The manifests of the parent snapshot.
    pub manifests: Seq<ManifestFile>,
    /// How many of them are done.
    pub next: int,
    /// The manifests that stay, so far.
    pub existing: Seq<ManifestFile>,
    /// The entries to record as deleted, so far.
    pub deleted: Seq<ManifestEntry>,
    /// The entries that the operation has put by.
    pub pending: Option<Seq<ManifestEntry>>,
}

impl ScanView {
    /// The event is one that the scan waits for. The entries of a manifest that
    /// are to be recorded as deleted must be numbered.
    pub open spec fn expects(self, event: ScanEventView) -> bool {
        match event {
            ScanEventView::ManifestList(files) => self.phase == ScanPhase::List,
            ScanEventView::Manifest(entries) => self.phase == ScanPhase::Manifest
                && marks_numbered(self.removed, entries),
            ScanEventView::Written(file) => self.phase == ScanPhase::Write,
            ScanEventView::Failed(error) => self.phase != ScanPhase::Finished,
        }
    }

    /// The next manifest is asked for. After the last one the scan ends: the
    /// entries to record as deleted are put by and the manifests that stay returned.
    pub open spec fn proceed(self) -> (ScanView, ScanCommandView) {
        if self.next < self.manifests.len() {
            (
                ScanView { phase: ScanPhase::Manifest, ..self },
                ScanCommandView::LoadManifest(self.manifests[self.next]),
            )
        } else {
            (
                ScanView {
                    phase: ScanPhase::Finished,
                    existing: Seq::empty(),
                    deleted: Seq::empty(),
                    pending: Some(self.deleted),
                    ..self
                },
                ScanCommandView::Return(self.existing),
            )
        }
    }

    /// The state after an event and what to do next.
    pub open spec fn after(self, event: ScanEventView) -> (ScanView, ScanCommandView) {
        match event {
            ScanEventView::ManifestList(files) => ScanView {
                manifests: files,
                next: 0,
                ..self
            }.proceed(),
            ScanEventView::Manifest(entries) => {
                let manifest = self.manifests[self.next];
                let marked = ScanView {
                    deleted: self.deleted + marked_entries(self.removed, entries),
                    ..self
                };
                match disposition_of(self.removed, manifest, entries) {
                    DispositionView::Keep => ScanView {
                        next: self.next + 1,
                        existing: self.existing.push(manifest),
                        ..marked
                    }.proceed(),
                    DispositionView::Drop => ScanView { next: self.next + 1, ..marked }.proceed(),
                    DispositionView::Rewrite(draft) => (
                        ScanView { phase: ScanPhase::Write, ..marked },
                        ScanCommandView::WriteManifest(draft),
                    ),
                }
            },
            ScanEventView::Written(file) => ScanView {
                next: self.next + 1,
                existing: self.existing.push(file),
                ..self
            }.proceed(),
            ScanEventView::Failed(error) => (
                ScanView { phase: ScanPhase::Finished, ..self },
                ScanCommandView::Fail(error),
            ),
        }
    }
}

/// The first state of a scan and what to do first, given what the operation has
/// put by, the removed files and the snapshot at the tip of the branch. Without
/// a snapshot there is nothing to go through.
pub open spec fn scan_start(
    pending: Option<Seq<ManifestEntry>>,
    removed: RemovedView,
    tip: Option<Snapshot>,
) -> (ScanView, ScanCommandView) {
    let state = ScanView {
        phase: ScanPhase::Finished,
        removed,
        manifests: Seq::empty(),
        next: 0,
        existing: Seq::empty(),
        deleted: Seq::empty(),
        pending,
    };
    match tip {
        Some(snapshot) => (
            ScanView { phase: ScanPhase::List, ..state },
            ScanCommandView::LoadManifestList(snapshot),
        ),
        None => (state, ScanCommandView::Return(Seq::empty())),
    }
}

/// A pass over the manifests of the parent snapshot.
pub struct ManifestScan<M: ReplaceFilesMode> {
    phase: ScanPhase,
    operation: ReplaceFilesOperation<M>,
    removed: RemovedPaths,
    manifests: Vec<ManifestFile>,
    next: usize,
    existing: Vec<ManifestFile>,
    deleted: Vec<ManifestEntry>,
}

impl<M: ReplaceFilesMode> View for ManifestScan<M> {
    type V = ScanView;

    closed spec fn view(&self) -> ScanView {
        ScanView {
            phase: self.phase,
            removed: self.removed@,
            manifests: self.manifests@,
            next: self.next as int,
            existing: self.existing@,
            deleted: self.deleted@,
            pending: self.operation.pending(),
        }
    }
}

impl<M: ReplaceFilesMode> ManifestScan<M> {
    #[verifier::type_invariant]
    spec fn well_formed(self) -> bool {
        self.phase == ScanPhase::Manifest || self.phase == ScanPhase::Write ==> self.next
            < self.manifests@.len()
    }

    /// Starts a scan of the manifests of a snapshot.
    pub(crate) fn start(
        operation: ReplaceFilesOperation<M>,
        removed: RemovedPaths,
        snapshot: Snapshot,
    ) -> (started: (Self, ScanCommand))
        ensures
            (started.0@, started.1@) == scan_start(operation.pending(), removed@, Some(snapshot)),
    {
        (
            ManifestScan {
                phase: ScanPhase::List,
                operation,
                removed,
                manifests: Vec::new(),
                next: 0,
                existing: Vec::new(),
                deleted: Vec::new(),
            },
            ScanCommand::LoadManifestList(snapshot),
        )
    }

    /// Returns a scan that has nothing to go through.
    pub(crate) fn nothing(operation: ReplaceFilesOperation<M>, removed: RemovedPaths) -> (started: (
        Self,
        ScanCommand,
    ))
        ensures
            (started.0@, started.1@) == scan_start(operation.pending(), removed@, None),
    {
        (
            ManifestScan {
                phase: ScanPhase::Finished,
                operation,
                removed,
                manifests: Vec::new(),
                next: 0,
                existing: Vec::new(),
                deleted: Vec::new(),
            },
            ScanCommand::Return(Ok(Vec::new())),
        )
    }

    /// Returns what the scan waits for.
    pub fn phase(&self) -> (phase: ScanPhase)
        ensures
            phase == self@.phase,
    {
        self.phase
    }

    /// Tells whether every entry that is to be recorded as deleted is numbered,
    /// so that the scan can take in the manifest.
    pub fn accepts(&self, entries: &Vec<ManifestEntry>) -> (accepted: bool)
        ensures
            accepted == marks_numbered(self@.removed, entries@),
    {
        for i in 0..entries.len()
            invariant
                forall|j: int|
                    0 <= j < i && is_marked(self@.removed, #[trigger] entries@[j]) ==> is_numbered(
                        entries@[j],
                    ),
        {
            if marks(&self.removed, &entries[i]) && !numbered(&entries[i]) {
                return false;
            }
        }
        true
    }

    /// Asks for the next manifest, or ends the scan after the last one.
    fn proceed(self) -> (next: (Self, ScanCommand))
        ensures
            (next.0@, next.1@) == self@.proceed(),
    {
        if self.next < self.manifests.len() {
            let manifest: ManifestFile = self.manifests[self.next].clone();
            (
                ManifestScan { phase: ScanPhase::Manifest, ..self },
                ScanCommand::LoadManifest(manifest),
            )
        } else {
            (
                ManifestScan {
                    phase: ScanPhase::Finished,
                    operation: self.operation.with_deleted_entries(self.deleted),
                    removed: self.removed,
                    manifests: self.manifests,
                    next: self.next,
                    existing: Vec::new(),
                    deleted: Vec::new(),
                },
                ScanCommand::Return(Ok(self.existing)),
            )
        }
    }

    /// Takes in what came of the last command and returns the scan with what to
    /// do next. The event must be one that the scan waits for.
    pub fn step(self, event: ScanEvent) -> (next: (Self, ScanCommand))
        requires
            self@.expects(event@),
        ensures
            (next.0@, next.1@) == self@.after(event@),
    {
        proof {
            use_type_invariant(&self);
        }
        match event {
            ScanEvent::ManifestList(files) => {
                let listed = ManifestScan {
                    phase: ScanPhase::Finished,
                    manifests: files,
                    next: 0,
                    ..self
                };
                listed.proceed()
            },
            ScanEvent::Manifest(entries) => {
                assert(self.next < self.manifests.len());
                let manifest: ManifestFile = self.manifests[self.next].clone();
                let (mut marked, disposition) = sort_out_manifest(
                    &self.removed,
                    &manifest,
                    entries,
                );
                let mut deleted: Vec<ManifestEntry> = self.deleted;
                deleted.append(&mut marked);
                match disposition {
                    Disposition::Keep => {
                        let mut existing: Vec<ManifestFile> = self.existing;
                        existing.push(manifest);
                        let kept = ManifestScan {
                            phase: ScanPhase::Finished,
                            next: self.next + 1,
                            existing,
                            deleted,
                            ..self
                        };
                        kept.proceed()
                    },
                    Disposition::Drop => {
                        let dropped = ManifestScan {
                            phase: ScanPhase::Finished,
                            next: self.next + 1,
                            deleted,
                            ..self
                        };
                        dropped.proceed()
                    },
                    Disposition::Rewrite(draft) => {
                        (
                            ManifestScan { phase: ScanPhase::Write, deleted, ..self },
                            ScanCommand::WriteManifest(draft),
                        )
                    },
                }
            },
            ScanEvent::Written(file) => {
                assert(self.next < self.manifests.len());
                let mut existing: Vec<ManifestFile> = self.existing;
                existing.push(file);
                let written = ManifestScan {
                    phase: ScanPhase::Finished,
                    next: self.next + 1,
                    existing,
                    ..self
                };
                written.proceed()
            },
            ScanEvent::Failed(error) => {
                (
                    ManifestScan { phase: ScanPhase::Finished, ..self },
                    ScanCommand::Return(Err(error)),
                )
            },
        }
    }

    /// Returns the operation, which has put by the entries to record as deleted
    /// where the scan ended without a failure.
    pub fn into_operation(self) -> (operation: ReplaceFilesOperation<M>)
        ensures
            operation.pending() == self@.pending,
    {
        self.operation
    }
}

} // verus!

//! Looking for new delete files, one manifest at a time.
//!
//! A [`DeleteCheck`] asks for the manifest list of each snapshot since the
//! starting one and for the delete manifests that the snapshot added. It is told
//! what came of it and answers with what to do next.

use vstd::prelude::*;

use crate::error::{Error, ErrorView};
use crate::metadata::data_file::DataFile;
use crate::metadata::manifest::{ManifestEntry, ManifestFile};
use crate::metadata::table::{find_snapshot, Snapshot, TableMetadata};
use crate::transaction::validation::{
    collect_history, conflict, conflict_error, find_endangered, first_endangered, history_since,
    missing_snapshot_error, new_delete_manifests, pick_delete_manifests, refusal,
    unknown_history_error, MISSING_SNAPSHOT_MESSAGE, UNKNOWN_HISTORY_MESSAGE,
};

verus! {

/// What a check waits for.
#[derive(Debug, Clone, Copy, PartialEq, Eq, Structural)]
pub enum CheckPhase {
    /// A manifest list.
    List,
    /// The entries of a manifest.
    Manifest,
    /// Nothing: the check has not begun or has ended.
    Idle,
}

/// What to do next.
#[derive(Debug)]
pub enum CheckCommand {
    /// Load the manifest list of a snapshot.
    LoadManifestList(Snapshot),
    /// Load a manifest.
    LoadManifest(ManifestFile),
    /// Go ahead: there is no conflict.
    Accept,
    /// Stop with a failure.
    Reject(Error),
}

/// The mathematical value of a [`CheckCommand`].
#[verifier::ext_equal]
pub enum CheckCommandView {
    /// Load the manifest list of a snapshot.
    LoadManifestList(Snapshot),
    /// Load a manifest.
    LoadManifest(ManifestFile),
    /// Go ahead: there is no conflict.
    Accept,
    /// Stop with a failure.
    Reject(ErrorView),
}

impl View for CheckCommand {
    type V = CheckCommandView;

    open spec fn view(&self) -> CheckCommandView {
        match *self {
            CheckCommand::LoadManifestList(snapshot) => CheckCommandView::LoadManifestList(
                snapshot,
            ),
            CheckCommand::LoadManifest(file) => CheckCommandView::LoadManifest(file),
            CheckCommand::Accept => CheckCommandView::Accept,
            CheckCommand::Reject(error) => CheckCommandView::Reject(error@),
        }
    }
}

/// The state of a check.
#[verifier::ext_equal]
pub struct CheckView {
    /// What the check waits for.
    pub phase: CheckPhase,
    /// Delete files with a sequence number above this are new.
    pub since: i64,
    /// Equality deletes are left out of account.
    pub ignore_equality: bool,
    /// The snapshots since the starting one, latest first.
    pub snapshots: Seq<Snapshot>,
    /// How many of their manifest lists are loaded.
    pub next_snapshot: int,
    /// The new delete manifests of the list that was loaded last.
    pub manifests: Seq<ManifestFile>,
    /// How many of them are done.
    pub next_manifest: int,
}

/// A check that has not begun.
pub open spec fn new_check(since: i64, ignore_equality: bool, snapshots: Seq<Snapshot>) -> CheckView {
    CheckView {
        phase: CheckPhase::Idle,
        since,
        ignore_equality,
        snapshots,
        next_snapshot: 0,
        manifests: Seq::empty(),
        next_manifest: 0,
    }
}

impl CheckView {
    /// The next manifest is asked for, or the next manifest list after the last
    /// manifest. After the last list the check ends without a conflict.
    pub open spec fn proceed(self) -> (CheckView, CheckCommandView) {
        if self.next_manifest < self.manifests.len() {
            (
                CheckView { phase: CheckPhase::Manifest, ..self },
                CheckCommandView::LoadManifest(self.manifests[self.next_manifest]),
            )
        } else if self.next_snapshot < self.snapshots.len() {
            (
                CheckView { phase: CheckPhase::List, ..self },
                CheckCommandView::LoadManifestList(self.snapshots[self.next_snapshot]),
            )
        } else {
            (CheckView { phase: CheckPhase::Idle, ..self }, CheckCommandView::Accept)
        }
    }

    /// The state after a manifest list was loaded and what to do next.
    pub open spec fn after_list(self, list: Seq<ManifestFile>) -> (CheckView, CheckCommandView) {
        CheckView {
            manifests: new_delete_manifests(self.snapshots[self.next_snapshot], list),
            next_manifest: 0,
            next_snapshot: self.next_snapshot + 1,
            ..self
        }.proceed()
    }

    /// The state after a manifest was loaded and what to do next, where the given
    /// data files are to be removed. A conflict ends the check.
    pub open spec fn after_manifest(
        self,
        entries: Seq<ManifestEntry>,
        files: Seq<DataFile>,
    ) -> (CheckView, CheckCommandView) {
        match first_endangered(files, entries, self.since, self.ignore_equality) {
            Some(file) => (
                CheckView { phase: CheckPhase::Idle, ..self },
                CheckCommandView::Reject(conflict_error(file.path(), self.ignore_equality)),
            ),
            None => CheckView { next_manifest: self.next_manifest + 1, ..self }.proceed(),
        }
    }
}

/// Looks for new delete files.
#[derive(Debug)]
pub struct DeleteCheck {
    phase: CheckPhase,
    since: i64,
    ignore_equality: bool,
    snapshots: Vec<Snapshot>,
    next_snapshot: usize,
    manifests: Vec<ManifestFile>,
    next_manifest: usize,
}

impl View for DeleteCheck {
    type V = CheckView;

    closed spec fn view(&self) -> CheckView {
        CheckView {
            phase: self.phase,
            since: self.since,
            ignore_equality: self.ignore_equality,
            snapshots: self.snapshots@,
            next_snapshot: self.next_snapshot as int,
            manifests: self.manifests@,
            next_manifest: self.next_manifest as int,
        }
    }
}

impl DeleteCheck {
    #[verifier::type_invariant]
    spec fn well_formed(self) -> bool {
        &&& self.phase == CheckPhase::List ==> self.next_snapshot < self.snapshots@.len()
        &&& self.phase == CheckPhase::Manifest ==> self.next_manifest < self.manifests@.len()
    }

    /// Returns a check that has not begun.
    pub fn new(since: i64, ignore_equality: bool, snapshots: Vec<Snapshot>) -> (check: Self)
        ensures
            check@ == new_check(since, ignore_equality, snapshots@),
    {
        DeleteCheck {
            phase: CheckPhase::Idle,
            since,
            ignore_equality,
            snapshots,
            next_snapshot: 0,
            manifests: Vec::new(),
            next_manifest: 0,
        }
    }

    /// Returns what the check waits for.
    pub fn phase(&self) -> (phase: CheckPhase)
        ensures
            phase == self@.phase,
    {
        self.phase
    }

    /// Asks for the next manifest or manifest list, or ends the check.
    pub fn proceed(self) -> (next: (Self, CheckCommand))
        ensures
            (next.0@, next.1@) == self@.proceed(),
    {
        if self.next_manifest < self.manifests.len() {
            let manifest: ManifestFile = self.manifests[self.next_manifest].clone();
            (
                DeleteCheck { phase: CheckPhase::Manifest, ..self },
                CheckCommand::LoadManifest(manifest),
            )
        } else if self.next_snapshot < self.snapshots.len() {
            let snapshot: Snapshot = self.snapshots[self.next_snapshot].clone();
            (
                DeleteCheck { phase: CheckPhase::List, ..self },
                CheckCommand::LoadManifestList(snapshot),
            )
        } else {
            (DeleteCheck { phase: CheckPhase::Idle, ..self }, CheckCommand::Accept)
        }
    }

    /// Takes in a manifest list and returns the check with what to do next.
    pub fn with_manifest_list(self, list: Vec<ManifestFile>) -> (next: (Self, CheckCommand))
        requires
            self@.phase == CheckPhase::List,
        ensures
            (next.0@, next.1@) == self@.after_list(list@),
    {
        proof {
            use_type_invariant(&self);
        }
        assert(self.next_snapshot < self.snapshots.len());
        let manifests: Vec<ManifestFile> = pick_delete_manifests(
            &self.snapshots[self.next_snapshot],
            list,
        );
        let listed = DeleteCheck {
            phase: CheckPhase::Idle,
            manifests,
            next_manifest: 0,
            next_snapshot: self.next_snapshot + 1,
            ..self
        };
        listed.proceed()
    }

    /// Takes in the entries of a manifest, given the data files to be removed, and
    /// returns the check with what to do next.
    pub fn with_manifest(self, entries: &Vec<ManifestEntry>, files: &[DataFile]) -> (next: (
        Self,
        CheckCommand,
    ))
        requires
            self@.phase == CheckPhase::Manifest,
        ensures
            (next.0@, next.1@) == self@.after_manifest(entries@, files@),
    {
        proof {
            use_type_invariant(&self);
        }
        assert(self.next_manifest < self.manifests.len());
        match find_endangered(files, entries, self.since, self.ignore_equality) {
            Some(file) => {
                let error: Error = conflict(file, self.ignore_equality);
                (DeleteCheck { phase: CheckPhase::Idle, ..self }, CheckCommand::Reject(error))
            },
            None => {
                let seen = DeleteCheck {
                    phase: CheckPhase::Idle,
                    next_manifest: self.next_manifest + 1,
                    ..self
                };
                seen.proceed()
            },
        }
    }
}

/// How new delete files are looked for.
#[derive(Debug)]
pub enum CheckPlan {
    /// Not at all.
    Skip,
    /// They cannot be: the commit fails.
    Refuse(Error),
    /// Through a check.
    Check(DeleteCheck),
}

/// The mathematical value of a [`CheckPlan`].
#[verifier::ext_equal]
pub enum CheckPlanView {
    /// Not at all.
    Skip,
    /// They cannot be: the commit fails.
    Refuse(ErrorView),
    /// Through a check.
    Check(CheckView),
}

impl View for CheckPlan {
    type V = CheckPlanView;

    open spec fn view(&self) -> CheckPlanView {
        match *self {
            CheckPlan::Skip => CheckPlanView::Skip,
            CheckPlan::Refuse(error) => CheckPlanView::Refuse(error@),
            CheckPlan::Check(check) => CheckPlanView::Check(check@),
        }
    }
}

/// How delete files that were added to a branch since a snapshot are looked for.
/// Without a starting snapshot they are not. A starting snapshot that is not in
/// the table metadata, or that the branch does not follow, makes the commit fail.
pub open spec fn plan_of(
    metadata: TableMetadata,
    branch: Seq<char>,
    start: Option<i64>,
    ignore_equality: bool,
) -> CheckPlanView {
    match start {
        None => CheckPlanView::Skip,
        Some(id) => match find_snapshot(metadata.snapshots@, id) {
            None => CheckPlanView::Refuse(missing_snapshot_error()),
            Some(snapshot) => match history_since(metadata, branch, id) {
                None => CheckPlanView::Refuse(unknown_history_error()),
                Some(history) => CheckPlanView::Check(
                    new_check(snapshot.sequence_number, ignore_equality, history),
                ),
            },
        },
    }
}

/// Plans how delete files that were added to a branch since a snapshot are looked for.
pub fn plan_check(
    metadata: &TableMetadata,
    branch: &str,
    start: Option<i64>,
    ignore_equality: bool,
) -> (plan: CheckPlan)
    ensures
        plan@ == plan_of(*metadata, branch@, start, ignore_equality),
{
    match start {
        None => CheckPlan::Skip,
        Some(id) => match metadata.snapshot_by_id(id) {
            None => CheckPlan::Refuse(refusal(MISSING_SNAPSHOT_MESSAGE)),
            Some(snapshot) => match collect_history(metadata, branch, id) {
                None => CheckPlan::Refuse(refusal(UNKNOWN_HISTORY_MESSAGE)),
                Some(history) => CheckPlan::Check(
                    DeleteCheck::new(snapshot.sequence_number, ignore_equality, history),
                ),
            },
        },
    }
}

} // verus!

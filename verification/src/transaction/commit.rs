//! Committing a replacement of files, one step at a time.
//!
//! A [`CommitRun`] asks for what has to be looked up before the commit, is told
//! what came of it, and at last asks for the commit itself.

use std::marker::PhantomData;

use vstd::pervasive::unreached;
use vstd::prelude::*;

use crate::error::{Error, ErrorView};
use crate::metadata::manifest::{ManifestEntry, ManifestFile};
use crate::metadata::table::{Snapshot, TableMetadata};
use crate::transaction::delete_check::{
    plan_check, plan_of, CheckCommand, CheckCommandView, CheckPhase, CheckPlan, CheckPlanView,
};
use crate::transaction::replace_files::{
    ReplaceFilesMode, ReplaceFilesOperation, ReplaceFilesView,
};
use crate::transaction::snapshot::{branch_or_main, CommitUuid, ProducerView, SnapshotProducer};

verus! {

/// What becomes of the manifests of a new snapshot.
#[derive(Debug, Clone, Copy, PartialEq, Eq, Structural)]
pub enum ManifestProcess {
    /// They are kept as they are.
    Default,
    /// They are merged.
    Merge {
        /// The size that merged manifests are meant to have.
        target_size_bytes: u32,
        /// The number of manifests from which on they are merged.
        min_count_to_merge: u32,
    },
}

/// What a commit waits for.
#[derive(Debug, Clone, Copy, PartialEq, Eq, Structural)]
pub enum CommitPhase {
    /// The lookup of the files.
    DataFiles,
    /// The search for new delete files.
    Deletes,
    /// Nothing: the snapshot can be committed.
    Ready,
    /// Nothing: the commit has failed.
    Failed,
}

/// What came of a command.
#[derive(Debug)]
pub enum CommitEvent {
    /// The files have been looked up and are as they should be.
    DataFilesValid,
    /// A manifest list was loaded.
    ManifestList(Vec<ManifestFile>),
    /// A manifest was loaded.
    Manifest(Vec<ManifestEntry>),
    /// The command failed.
    Failed(Error),
}

/// The mathematical value of a [`CommitEvent`].
#[verifier::ext_equal]
pub enum CommitEventView {
    /// The files have been looked up and are as they should be.
    DataFilesValid,
    /// A manifest list was loaded.
    ManifestList(Seq<ManifestFile>),
    /// A manifest was loaded.
    Manifest(Seq<ManifestEntry>),
    /// The command failed.
    Failed(ErrorView),
}

impl View for CommitEvent {
    type V = CommitEventView;

    open spec fn view(&self) -> CommitEventView {
        match *self {
            CommitEvent::DataFilesValid => CommitEventView::DataFilesValid,
            CommitEvent::ManifestList(list) => CommitEventView::ManifestList(list@),
            CommitEvent::Manifest(entries) => CommitEventView::Manifest(entries@),
            CommitEvent::Failed(error) => CommitEventView::Failed(error@),
        }
    }
}

/// What to do next.
#[derive(Debug)]
pub enum CommitCommand {
    /// Look up the files that are added and removed.
    ValidateDataFileChanges,
    /// Load the manifest list of a snapshot.
    LoadManifestList(Snapshot),
    /// Load a manifest.
    LoadManifest(ManifestFile),
    /// Commit the snapshot.
    Commit(ManifestProcess),
    /// Return the failure.
    Fail(Error),
}

/// The mathematical value of a [`CommitCommand`].
#[verifier::ext_equal]
pub enum CommitCommandView {
    /// Look up the files that are added and removed.
    ValidateDataFileChanges,
    /// Load the manifest list of a snapshot.
    LoadManifestList(Snapshot),
    /// Load a manifest.
    LoadManifest(ManifestFile),
    /// Commit the snapshot.
    Commit(ManifestProcess),
    /// Return the failure.
    Fail(ErrorView),
}

impl View for CommitCommand {
    type V = CommitCommandView;

    open spec fn view(&self) -> CommitCommandView {
        match *self {
            CommitCommand::ValidateDataFileChanges => CommitCommandView::ValidateDataFileChanges,
            CommitCommand::LoadManifestList(snapshot) => CommitCommandView::LoadManifestList(
                snapshot,
            ),
            CommitCommand::LoadManifest(file) => CommitCommandView::LoadManifest(file),
            CommitCommand::Commit(process) => CommitCommandView::Commit(process),
            CommitCommand::Fail(error) => CommitCommandView::Fail(error@),
        }
    }
}

/// The state of a commit.
#[verifier::ext_equal]
pub struct CommitView {
    /// What the commit waits for.
    pub phase: CommitPhase,
    /// What the snapshot is made of.
    pub producer: ProducerView,
    /// How new delete files are looked for.
    pub plan: CheckPlanView,
    /// What becomes of the manifests.
    pub process: ManifestProcess,
}

impl CommitView {
    /// The state and what to do next after the search for new delete files has
    /// answered.
    pub open spec fn checked(self, command: CheckCommandView) -> (CommitView, CommitCommandView) {
        match command {
            CheckCommandView::LoadManifestList(snapshot) => (
                CommitView { phase: CommitPhase::Deletes, ..self },
                CommitCommandView::LoadManifestList(snapshot),
            ),
            CheckCommandView::LoadManifest(file) => (
                CommitView { phase: CommitPhase::Deletes, ..self },
                CommitCommandView::LoadManifest(file),
            ),
            CheckCommandView::Accept => (
                CommitView { phase: CommitPhase::Ready, ..self },
                CommitCommandView::Commit(self.process),
            ),
            CheckCommandView::Reject(error) => (
                CommitView { phase: CommitPhase::Failed, ..self },
                CommitCommandView::Fail(error),
            ),
        }
    }

    /// The search for new delete files begins, where there is one.
    pub open spec fn begin_check(self) -> (CommitView, CommitCommandView) {
        match self.plan {
            CheckPlanView::Skip => self.checked(CheckCommandView::Accept),
            CheckPlanView::Refuse(error) => CommitView {
                plan: CheckPlanView::Skip,
                ..self
            }.checked(CheckCommandView::Reject(error)),
            CheckPlanView::Check(check) => {
                let (begun, command) = check.proceed();
                CommitView { plan: CheckPlanView::Check(begun), ..self }.checked(command)
            },
        }
    }

    /// The event is one that the commit waits for.
    pub open spec fn expects(self, event: CommitEventView) -> bool {
        match event {
            CommitEventView::DataFilesValid => self.phase == CommitPhase::DataFiles,
            CommitEventView::ManifestList(list) => self.phase == CommitPhase::Deletes
                && self.plan is Check && self.plan->Check_0.phase == CheckPhase::List,
            CommitEventView::Manifest(entries) => self.phase == CommitPhase::Deletes
                && self.plan is Check && self.plan->Check_0.phase == CheckPhase::Manifest,
            CommitEventView::Failed(error) => self.phase == CommitPhase::DataFiles || self.phase
                == CommitPhase::Deletes,
        }
    }

    /// The state after an event and what to do next.
    pub open spec fn after(self, event: CommitEventView) -> (CommitView, CommitCommandView) {
        match event {
            CommitEventView::DataFilesValid => self.begin_check(),
            CommitEventView::ManifestList(list) => {
                let (next, command) = self.plan->Check_0.after_list(list);
                CommitView { plan: CheckPlanView::Check(next), ..self }.checked(command)
            },
            CommitEventView::Manifest(entries) => {
                let (next, command) = self.plan->Check_0.after_manifest(
                    entries,
                    self.producer.removed_data_files,
                );
                CommitView { plan: CheckPlanView::Check(next), ..self }.checked(command)
            },
            CommitEventView::Failed(error) => self.checked(CheckCommandView::Reject(error)),
        }
    }
}

/// What a snapshot is made of that replaces files with the given choices.
pub open spec fn producer_of(choices: ReplaceFilesView, commit_uuid: CommitUuid) -> ProducerView {
    ProducerView {
        commit_uuid,
        key_metadata: choices.key_metadata,
        snapshot_id: choices.snapshot_id,
        snapshot_properties: choices.snapshot_properties,
        added_data_files: choices.added_data_files,
        added_delete_files: choices.added_delete_files,
        removed_data_files: choices.removed_data_files,
        removed_delete_files: choices.removed_delete_files,
        new_data_file_sequence_number: choices.new_data_file_sequence_number,
        target_branch: choices.target_branch,
        delete_filter_manager_enabled: choices.enable_delete_filter_manager,
    }
}

/// What becomes of the manifests with the given choices.
pub open spec fn process_of(choices: ReplaceFilesView) -> ManifestProcess {
    if choices.merge_enabled {
        ManifestProcess::Merge {
            target_size_bytes: choices.target_size_bytes,
            min_count_to_merge: choices.min_count_to_merge,
        }
    } else {
        ManifestProcess::Default
    }
}

/// The first state of a commit and what to do first. The files are looked up
/// first where that is wanted; new delete files are looked for after that.
/// Equality deletes are left out of account where added data files keep a
/// sequence number of their own, as such deletes still apply to them.
pub open spec fn commit_start(
    choices: ReplaceFilesView,
    commit_uuid: CommitUuid,
    metadata: TableMetadata,
) -> (CommitView, CommitCommandView) {
    let state = CommitView {
        phase: CommitPhase::DataFiles,
        producer: producer_of(choices, commit_uuid),
        plan: plan_of(
            metadata,
            branch_or_main(choices.target_branch),
            choices.validate_from_snapshot_id,
            choices.new_data_file_sequence_number is Some,
        ),
        process: process_of(choices),
    };
    if choices.check_file_existence {
        (state, CommitCommandView::ValidateDataFileChanges)
    } else {
        state.begin_check()
    }
}

/// A commit of a replacement of files.
pub struct CommitRun<'a, M: ReplaceFilesMode> {
    phase: CommitPhase,
    producer: SnapshotProducer<'a>,
    plan: CheckPlan,
    process: ManifestProcess,
    mode: PhantomData<M>,
}

impl<'a, M: ReplaceFilesMode> View for CommitRun<'a, M> {
    type V = CommitView;

    closed spec fn view(&self) -> CommitView {
        CommitView {
            phase: self.phase,
            producer: self.producer@,
            plan: self.plan@,
            process: self.process,
        }
    }
}

impl<'a, M: ReplaceFilesMode> CommitRun<'a, M> {
    /// Starts a commit.
    pub(crate) fn start(
        producer: SnapshotProducer<'a>,
        metadata: &TableMetadata,
        validate_from_snapshot_id: Option<i64>,
        check_file_existence: bool,
        process: ManifestProcess,
    ) -> (started: (Self, CommitCommand))
        ensures
            (started.0@, started.1@) == ({
                let state = CommitView {
                    phase: CommitPhase::DataFiles,
                    producer: producer@,
                    plan: plan_of(
                        *metadata,
                        producer.branch(),
                        validate_from_snapshot_id,
                        producer.new_data_file_sequence_number is Some,
                    ),
                    process,
                };
                if check_file_existence {
                    (state, CommitCommandView::ValidateDataFileChanges)
                } else {
                    state.begin_check()
                }
            }),
    {
        let plan: CheckPlan = plan_check(
            metadata,
            producer.target_branch(),
            validate_from_snapshot_id,
            producer.new_data_file_sequence_number.is_some(),
        );
        let run = CommitRun {
            phase: CommitPhase::DataFiles,
            producer,
            plan,
            process,
            mode: PhantomData,
        };
        if check_file_existence {
            (run, CommitCommand::ValidateDataFileChanges)
        } else {
            run.begin_check()
        }
    }

    /// Returns what the commit waits for.
    pub fn phase(&self) -> (phase: CommitPhase)
        ensures
            phase == self@.phase,
    {
        self.phase
    }

    /// Returns what the snapshot is made of.
    pub fn producer(&self) -> (producer: &SnapshotProducer<'a>)
        ensures
            producer@ == self@.producer,
    {
        &self.producer
    }

    /// Turns the answer of the search for new delete files into what to do next.
    fn checked(self, command: CheckCommand) -> (next: (Self, CommitCommand))
        ensures
            (next.0@, next.1@) == self@.checked(command@),
    {
        match command {
            CheckCommand::LoadManifestList(snapshot) => (
                CommitRun { phase: CommitPhase::Deletes, ..self },
                CommitCommand::LoadManifestList(snapshot),
            ),
            CheckCommand::LoadManifest(file) => (
                CommitRun { phase: CommitPhase::Deletes, ..self },
                CommitCommand::LoadManifest(file),
            ),
            CheckCommand::Accept => (
                CommitRun { phase: CommitPhase::Ready, ..self },
                CommitCommand::Commit(self.process),
            ),
            CheckCommand::Reject(error) => (
                CommitRun { phase: CommitPhase::Failed, ..self },
                CommitCommand::Fail(error),
            ),
        }
    }

    /// Begins the search for new delete files, where there is one.
    fn begin_check(self) -> (next: (Self, CommitCommand))
        ensures
            (next.0@, next.1@) == self@.begin_check(),
    {
        match self.plan {
            CheckPlan::Skip => CommitRun { plan: CheckPlan::Skip, ..self }.checked(
                CheckCommand::Accept,
            ),
            CheckPlan::Refuse(error) => {
                let failed = CommitRun { plan: CheckPlan::Skip, ..self };
                failed.checked(CheckCommand::Reject(error))
            },
            CheckPlan::Check(check) => {
                let (begun, command) = check.proceed();
                CommitRun { plan: CheckPlan::Check(begun), ..self }.checked(command)
            },
        }
    }

    /// Takes in what came of the last command and returns the commit with what to
    /// do next. The event must be one that the commit waits for.
    pub fn step(self, event: CommitEvent) -> (next: (Self, CommitCommand))
        requires
            self@.expects(event@),
        ensures
            (next.0@, next.1@) == self@.after(event@),
    {
        match event {
            CommitEvent::DataFilesValid => self.begin_check(),
            CommitEvent::ManifestList(list) => match self.plan {
                CheckPlan::Check(check) => {
                    let (next, command) = check.with_manifest_list(list);
                    CommitRun { plan: CheckPlan::Check(next), ..self }.checked(command)
                },
                _ => unreached(),
            },
            CommitEvent::Manifest(entries) => match self.plan {
                CheckPlan::Check(check) => {
                    let (next, command) = check.with_manifest(
                        &entries,
                        self.producer.removed_data_files,
                    );
                    CommitRun { plan: CheckPlan::Check(next), ..self }.checked(command)
                },
                _ => unreached(),
            },
            CommitEvent::Failed(error) => self.checked(CheckCommand::Reject(error)),
        }
    }

    /// Returns what the snapshot is made of, with an operation that has not gone
    /// through any manifests, for the commit itself.
    pub fn into_parts(self) -> (parts: (SnapshotProducer<'a>, ReplaceFilesOperation<M>))
        requires
            self@.phase == CommitPhase::Ready,
        ensures
            parts.0@ == self@.producer,
            parts.1.pending() is None,
    {
        (self.producer, ReplaceFilesOperation::new())
    }
}

} // verus!

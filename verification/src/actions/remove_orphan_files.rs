//! Removing files that no snapshot and no table metadata refers to.

use vstd::prelude::*;

use crate::actions::orphan_run::{run_start, OrphanCommand, OrphanRun};
use crate::actions::reachable::{named_files, ReachableFiles, ReachableView};
use crate::metadata::table::Table;
use crate::time::{clamp_millis, clamp_to_i64, now_ms, saturating_difference, Duration};

verus! {

/// How old an orphan file has to be by default: seven days.
pub const DEFAULT_OLDER_THAN_MS: i64 = 7 * 24 * 60 * 60 * 1000;

/// How many manifest lists or manifests are loaded at a time by default.
pub const DEFAULT_LOAD_CONCURRENCY: usize = 16;

/// The choices of a [`RemoveOrphanFilesAction`].
pub struct OrphanSettings {
    /// The table to clean up.
    pub table: Table,
    /// Only files last modified before this Unix timestamp are orphans.
    pub older_than_ms: i64,
    /// Orphan files are only reported.
    pub dry_run: bool,
    /// How many manifest lists or manifests are loaded at a time.
    pub load_concurrency: usize,
}

/// The choices of a new action at a given time.
pub open spec fn default_settings(table: Table, now: i64) -> OrphanSettings {
    OrphanSettings {
        table,
        older_than_ms: clamp_to_i64(now - DEFAULT_OLDER_THAN_MS),
        dry_run: false,
        load_concurrency: DEFAULT_LOAD_CONCURRENCY,
    }
}

impl OrphanSettings {
    /// The same choices but for the threshold, which lies the given span before a given time.
    pub open spec fn with_age(self, duration: Duration, now: i64) -> OrphanSettings {
        OrphanSettings {
            older_than_ms: clamp_to_i64(now - clamp_to_i64(duration.millis())),
            ..self
        }
    }
}

/// Deletes files below a table location that are not reachable from table metadata.
///
/// Files whose last-modified timestamp is unavailable are retained. This protects
/// in-progress writes on storage backends that cannot report timestamps.
#[derive(Debug)]
pub struct RemoveOrphanFilesAction {
    table: Table,
    older_than_ms: i64,
    dry_run: bool,
    load_concurrency: usize,
}

impl View for RemoveOrphanFilesAction {
    type V = OrphanSettings;

    closed spec fn view(&self) -> OrphanSettings {
        OrphanSettings {
            table: self.table,
            older_than_ms: self.older_than_ms,
            dry_run: self.dry_run,
            load_concurrency: self.load_concurrency,
        }
    }
}

impl RemoveOrphanFilesAction {
    #[verifier::type_invariant]
    spec fn well_formed(self) -> bool {
        self.load_concurrency >= 1
    }

    /// Creates an orphan-file action with a seven-day retention threshold.
    pub fn new(table: Table) -> (action: Self)
        ensures
            exists|now: i64| now >= 0 && action@ == #[trigger] default_settings(table, now),
    {
        let now: i64 = now_ms();
        let action: Self = Self::new_at(table, now);
        assert(action@ == default_settings(table, now));
        action
    }

    /// Creates an orphan-file action with a threshold seven days before the given
    /// Unix timestamp in milliseconds.
    pub fn new_at(table: Table, now: i64) -> (action: Self)
        ensures
            action@ == default_settings(table, now),
    {
        RemoveOrphanFilesAction {
            table,
            older_than_ms: saturating_difference(now, DEFAULT_OLDER_THAN_MS),
            dry_run: false,
            load_concurrency: DEFAULT_LOAD_CONCURRENCY,
        }
    }

    /// Deletes only files last modified before this Unix timestamp in milliseconds.
    pub fn older_than_ms(self, timestamp_ms: i64) -> (action: Self)
        ensures
            action@ == (OrphanSettings { older_than_ms: timestamp_ms, ..self@ }),
    {
        proof {
            use_type_invariant(&self);
        }
        RemoveOrphanFilesAction { older_than_ms: timestamp_ms, ..self }
    }

    /// Deletes only files older than this duration relative to now.
    pub fn older_than(self, duration: Duration) -> (action: Self)
        ensures
            exists|now: i64| now >= 0 && action@ == #[trigger] self@.with_age(duration, now),
    {
        let ghost before = self@;
        let now: i64 = now_ms();
        let action: Self = self.older_than_at(duration, now);
        assert(action@ == before.with_age(duration, now));
        action
    }

    /// Deletes only files older than this duration relative to the given Unix
    /// timestamp in milliseconds.
    pub fn older_than_at(self, duration: Duration, now: i64) -> (action: Self)
        ensures
            action@ == self@.with_age(duration, now),
    {
        proof {
            use_type_invariant(&self);
        }
        let duration_ms: i64 = clamp_millis(duration.as_millis());
        RemoveOrphanFilesAction {
            older_than_ms: saturating_difference(now, duration_ms),
            ..self
        }
    }

    /// Selects whether execution reports orphan files without deleting them.
    pub fn dry_run(self, dry_run: bool) -> (action: Self)
        ensures
            action@ == (OrphanSettings { dry_run, ..self@ }),
    {
        proof {
            use_type_invariant(&self);
        }
        RemoveOrphanFilesAction { dry_run, ..self }
    }

    /// Sets the maximum number of manifest lists or manifests loaded concurrently,
    /// which is at least one.
    pub fn load_concurrency(self, concurrency: usize) -> (action: Self)
        ensures
            action@ == (OrphanSettings {
                load_concurrency: if concurrency < 1 { 1 } else { concurrency },
                ..self@
            }),
    {
        let load_concurrency: usize = if concurrency < 1 { 1 } else { concurrency };
        RemoveOrphanFilesAction { load_concurrency, ..self }
    }

    /// Starts to discover orphan files: they are deleted unless this is a dry run,
    /// and each is reported with its listed size.
    ///
    /// The run asks for what it needs from the storage, and for at least one
    /// manifest list or manifest at a time.
    pub fn execute(self) -> (started: (OrphanRun, OrphanCommand))
        ensures
            (started.0@, started.1@) == run_start(self@),
            self@.load_concurrency >= 1,
    {
        proof {
            use_type_invariant(&self);
        }
        let reachable: ReachableFiles = self.collect_reachable_files();
        OrphanRun::start(
            reachable,
            self.table.metadata,
            self.older_than_ms,
            self.dry_run,
            self.load_concurrency,
        )
    }

    /// Starts to collect the reachable files with those that the table metadata
    /// names itself. The run adds what manifest lists and manifests name.
    fn collect_reachable_files(&self) -> (reachable: ReachableFiles)
        ensures
            reachable@ == (ReachableView {
                files: named_files(self@.table),
                manifests: Seq::empty(),
            }),
    {
        ReachableFiles::of_table(&self.table)
    }
}

} // verus!

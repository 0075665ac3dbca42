//! Looking for delete files that were added while a replacement was prepared.
//!
//! A replacement that was planned against one snapshot and is committed on top
//! of a later one must not remove data files for which delete files have been
//! added in between: the deletes would be lost.

use vstd::prelude::*;

use crate::error::{Error, ErrorKind, ErrorView};
use crate::metadata::data_file::{DataContentType, DataFile};
use crate::metadata::manifest::{ManifestContentType, ManifestEntry, ManifestFile};
use crate::metadata::table::{find_snapshot, Snapshot, TableMetadata};
use crate::transaction::{
    CONCURRENT_DELETE_CONFLICT_CONTEXT_KEY, CONCURRENT_DELETE_CONFLICT_CONTEXT_VALUE,
};

verus! {

/// The name under which a conflict tells of the data file.
pub const DATA_FILE_CONTEXT_KEY: &'static str = "data-file";

/// Tells of a snapshot that has gone.
pub const MISSING_SNAPSHOT_MESSAGE: &'static str =
    "Cannot validate: the starting snapshot is not present in the table metadata";

/// Tells of a snapshot that the branch does not follow.
pub const UNKNOWN_HISTORY_MESSAGE: &'static str =
    "Cannot determine history between the starting snapshot and the tip of the branch";

/// Tells of a new delete file of any kind.
pub const NEW_DELETE_MESSAGE: &'static str =
    "Cannot commit, found new delete file for replaced data file";

/// Tells of a new position delete file.
pub const NEW_POSITION_DELETE_MESSAGE: &'static str =
    "Cannot commit, found new position delete file for replaced data file";

/// The snapshot that a snapshot follows, where it is still known.
pub open spec fn parent_of(snapshots: Seq<Snapshot>, snapshot: Snapshot) -> Option<Snapshot> {
    match snapshot.parent_snapshot_id {
        Some(id) => find_snapshot(snapshots, id),
        None => None,
    }
}

/// The snapshots from one back to another, the other left out, in no more than
/// the given number of steps; `None` where the other is not met.
pub open spec fn walk_back(
    snapshots: Seq<Snapshot>,
    from: Option<Snapshot>,
    to: i64,
    steps: nat,
) -> Option<Seq<Snapshot>>
    decreases steps,
{
    match from {
        None => None,
        Some(snapshot) => if snapshot.snapshot_id == to {
            Some(Seq::empty())
        } else if steps == 0 {
            None
        } else {
            match walk_back(snapshots, parent_of(snapshots, snapshot), to, (steps - 1) as nat) {
                None => None,
                Some(earlier) => Some(seq![snapshot] + earlier),
            }
        },
    }
}

/// The snapshots of a branch since the given one, latest first; `None` where the
/// branch does not follow it.
pub open spec fn history_since(metadata: TableMetadata, branch: Seq<char>, start: i64) -> Option<
    Seq<Snapshot>,
> {
    walk_back(
        metadata.snapshots@,
        metadata.tip(branch),
        start,
        metadata.snapshots@.len(),
    )
}

/// Some snapshots in front of others, where there are any.
spec fn in_front(first: Seq<Snapshot>, rest: Option<Seq<Snapshot>>) -> Option<Seq<Snapshot>> {
    match rest {
        None => None,
        Some(snapshots) => Some(first + snapshots),
    }
}

/// Returns the snapshots of a branch since the given one, latest first, or
/// `None` where the branch does not follow it.
pub fn collect_history(metadata: &TableMetadata, branch: &str, start: i64) -> (history: Option<
    Vec<Snapshot>,
>)
    ensures
        history is Some == history_since(*metadata, branch@, start) is Some,
        history matches Some(snapshots) ==> history_since(*metadata, branch@, start) == Some(
            snapshots@,
        ),
{
    let ghost wanted = history_since(*metadata, branch@, start);
    let mut history: Vec<Snapshot> = Vec::new();
    let mut current: Option<&Snapshot> = metadata.snapshot_for_ref(branch);
    let mut steps: usize = metadata.snapshots.len();
    proof {
        let rest = walk_back(metadata.snapshots@, metadata.tip(branch@), start, steps as nat);
        assert(rest matches Some(snapshots) ==> history@ + snapshots =~= snapshots);
    }
    loop
        invariant
            wanted == history_since(*metadata, branch@, start),
            wanted == in_front(
                history@,
                walk_back(
                    metadata.snapshots@,
                    match current {
                        Some(at) => Some(*at),
                        None => None,
                    },
                    start,
                    steps as nat,
                ),
            ),
        decreases steps,
    {
        let snapshot: &Snapshot = match current {
            Some(snapshot) => snapshot,
            None => {
                return None;
            },
        };
        if snapshot.snapshot_id == start {
            assert(history@ + Seq::empty() =~= history@);
            return Some(history);
        }
        if steps == 0 {
            return None;
        }
        let ghost before = history@;
        history.push(snapshot.clone());
        current = match snapshot.parent_snapshot_id {
            Some(id) => metadata.snapshot_by_id(id),
            None => None,
        };
        steps = steps - 1;
        proof {
            let rest = walk_back(
                metadata.snapshots@,
                parent_of(metadata.snapshots@, *snapshot),
                start,
                steps as nat,
            );
            assert(rest matches Some(earlier) ==> before + (seq![*snapshot] + earlier) =~= history@
                + earlier);
        }
    }
}

/// A delete file may hold deletes for rows of a data file: a position delete
/// file that tells its one data file, through a reference or through equal
/// bounds, for that file only; any other for the data files of its partition.
pub open spec fn may_affect(delete: DataFile, file: DataFile) -> bool {
    match delete.content {
        DataContentType::Data => false,
        DataContentType::PositionDeletes => match delete.only_target() {
            Some(path) => path == file.path(),
            None => delete.shares_partition(file),
        },
        DataContentType::EqualityDeletes => delete.shares_partition(file),
    }
}

/// What new delete files are: part of the table, with a sequence number above
/// the given one. Equality deletes may be left out of account.
pub open spec fn is_new_delete(entry: ManifestEntry, since: i64, ignore_equality: bool) -> bool {
    &&& entry.alive()
    &&& entry.data_file.holds_deletes()
    &&& !(ignore_equality && entry.data_file.content == DataContentType::EqualityDeletes)
    &&& entry.sequence_number matches Some(number)
    &&& number > since
}

/// An entry is a new delete file that may hold deletes for a data file.
pub open spec fn conflicts(
    entry: ManifestEntry,
    file: DataFile,
    since: i64,
    ignore_equality: bool,
) -> bool {
    is_new_delete(entry, since, ignore_equality) && may_affect(entry.data_file, file)
}

/// One of the entries is a new delete file that may hold deletes for a data file.
pub open spec fn endangers(
    entries: Seq<ManifestEntry>,
    file: DataFile,
    since: i64,
    ignore_equality: bool,
) -> bool {
    exists|i: int|
        0 <= i < entries.len() && conflicts(#[trigger] entries[i], file, since, ignore_equality)
}

/// The first data file for which one of the entries is a new delete file.
pub open spec fn first_endangered(
    files: Seq<DataFile>,
    entries: Seq<ManifestEntry>,
    since: i64,
    ignore_equality: bool,
) -> Option<DataFile>
    decreases files.len(),
{
    if files.len() == 0 {
        None
    } else if endangers(entries, files[0], since, ignore_equality) {
        Some(files[0])
    } else {
        first_endangered(files.drop_first(), entries, since, ignore_equality)
    }
}

/// Tells whether a delete file may hold deletes for rows of a data file.
pub fn affects(delete: &DataFile, file: &DataFile) -> (affected: bool)
    ensures
        affected == may_affect(*delete, *file),
{
    match delete.content_type() {
        DataContentType::Data => false,
        DataContentType::PositionDeletes => match delete.find_only_target() {
            Some(path) => *path == file.file_path,
            None => delete.in_partition_of(file),
        },
        DataContentType::EqualityDeletes => delete.in_partition_of(file),
    }
}

/// Tells whether an entry is a new delete file that may hold deletes for a data file.
pub fn in_conflict(
    entry: &ManifestEntry,
    file: &DataFile,
    since: i64,
    ignore_equality: bool,
) -> (conflict: bool)
    ensures
        conflict == conflicts(*entry, *file, since, ignore_equality),
{
    let counted: bool = match entry.content_type() {
        DataContentType::Data => false,
        DataContentType::PositionDeletes => true,
        DataContentType::EqualityDeletes => !ignore_equality,
    };
    let newer: bool = match entry.sequence_number {
        Some(number) => number > since,
        None => false,
    };
    counted && newer && entry.is_alive() && affects(&entry.data_file, file)
}

/// Returns the first data file for which one of the entries is a new delete file.
pub fn find_endangered<'a>(
    files: &'a [DataFile],
    entries: &Vec<ManifestEntry>,
    since: i64,
    ignore_equality: bool,
) -> (endangered: Option<&'a DataFile>)
    ensures
        endangered is Some == first_endangered(files@, entries@, since, ignore_equality) is Some,
        endangered matches Some(file) ==> first_endangered(
            files@,
            entries@,
            since,
            ignore_equality,
        ) == Some(*file),
{
    assert(files@.skip(0) =~= files@);
    for i in 0..files.len()
        invariant
            first_endangered(files@, entries@, since, ignore_equality) == first_endangered(
                files@.skip(i as int),
                entries@,
                since,
                ignore_equality,
            ),
    {
        for j in 0..entries.len()
            invariant
                i < files@.len(),
                first_endangered(files@, entries@, since, ignore_equality) == first_endangered(
                    files@.skip(i as int),
                    entries@,
                    since,
                    ignore_equality,
                ),
                forall|k: int|
                    0 <= k < j ==> !conflicts(
                        #[trigger] entries@[k],
                        files@[i as int],
                        since,
                        ignore_equality,
                    ),
        {
            if in_conflict(&entries[j], &files[i], since, ignore_equality) {
                assert(files@.skip(i as int)[0] == files@[i as int]);
                assert(endangers(entries@, files@[i as int], since, ignore_equality));
                return Some(&files[i]);
            }
        }
        assert(files@.skip(i as int).drop_first() =~= files@.skip(i + 1));
    }
    None
}

/// The failure of a commit that starts from a snapshot that has gone.
pub open spec fn missing_snapshot_error() -> ErrorView {
    ErrorView {
        kind: ErrorKind::DataInvalid,
        message: MISSING_SNAPSHOT_MESSAGE@,
        context: seq![
            (CONCURRENT_DELETE_CONFLICT_CONTEXT_KEY@, CONCURRENT_DELETE_CONFLICT_CONTEXT_VALUE@),
        ],
        retryable: false,
    }
}

/// The failure of a commit that starts from a snapshot that the branch does not follow.
pub open spec fn unknown_history_error() -> ErrorView {
    ErrorView { message: UNKNOWN_HISTORY_MESSAGE@, ..missing_snapshot_error() }
}

/// The failure of a commit that removes a data file for which delete files were added.
pub open spec fn conflict_error(path: Seq<char>, ignore_equality: bool) -> ErrorView {
    ErrorView {
        kind: ErrorKind::DataInvalid,
        message: if ignore_equality {
            NEW_POSITION_DELETE_MESSAGE@
        } else {
            NEW_DELETE_MESSAGE@
        },
        context: seq![
            (CONCURRENT_DELETE_CONFLICT_CONTEXT_KEY@, CONCURRENT_DELETE_CONFLICT_CONTEXT_VALUE@),
            (DATA_FILE_CONTEXT_KEY@, path),
        ],
        retryable: false,
    }
}

/// Makes the failure of a commit whose starting snapshot cannot be used.
pub(crate) fn refusal(message: &str) -> (error: Error)
    ensures
        error@ == (ErrorView { message: message@, ..missing_snapshot_error() }),
{
    let error = Error {
        kind: ErrorKind::DataInvalid,
        message: message.to_owned(),
        context: vec![
            (
                CONCURRENT_DELETE_CONFLICT_CONTEXT_KEY,
                CONCURRENT_DELETE_CONFLICT_CONTEXT_VALUE.to_owned(),
            ),
        ],
        retryable: false,
    };
    assert(error@.context =~= missing_snapshot_error().context);
    error
}

/// Makes the failure of a commit that removes a data file for which delete
/// files were added.
pub(crate) fn conflict(file: &DataFile, ignore_equality: bool) -> (error: Error)
    ensures
        error@ == conflict_error(file.path(), ignore_equality),
{
    let message: &str = if ignore_equality {
        NEW_POSITION_DELETE_MESSAGE
    } else {
        NEW_DELETE_MESSAGE
    };
    let error = Error {
        kind: ErrorKind::DataInvalid,
        message: message.to_owned(),
        context: vec![
            (
                CONCURRENT_DELETE_CONFLICT_CONTEXT_KEY,
                CONCURRENT_DELETE_CONFLICT_CONTEXT_VALUE.to_owned(),
            ),
            (DATA_FILE_CONTEXT_KEY, file.file_path.clone()),
        ],
        retryable: false,
    };
    assert(error@.context =~= conflict_error(file.path(), ignore_equality).context);
    error
}

/// The delete manifests of a list that a snapshot added itself.
pub open spec fn new_delete_manifests(snapshot: Snapshot, list: Seq<ManifestFile>) -> Seq<
    ManifestFile,
> {
    list.filter(
        |file: ManifestFile|
            file.content == ManifestContentType::Deletes && file.added_snapshot_id
                == snapshot.snapshot_id,
    )
}

/// Picks the delete manifests of a list that a snapshot added itself.
pub(crate) fn pick_delete_manifests(snapshot: &Snapshot, list: Vec<ManifestFile>) -> (picked: Vec<
    ManifestFile,
>)
    ensures
        picked@ == new_delete_manifests(*snapshot, list@),
{
    let ghost all = list@;
    let ghost is_new = |file: ManifestFile|
        file.content == ManifestContentType::Deletes && file.added_snapshot_id
            == snapshot.snapshot_id;
    let mut picked: Vec<ManifestFile> = Vec::new();
    proof {
        reveal(Seq::filter);
        assert(all.take(0).filter(is_new) =~= Seq::empty());
    }
    for file in it: list.into_iter()
        invariant
            it.seq() == all,
            is_new == (|file: ManifestFile|
                file.content == ManifestContentType::Deletes && file.added_snapshot_id
                    == snapshot.snapshot_id),
            picked@ == all.take(it.index() as int).filter(is_new),
    {
        proof {
            let i = it.index() as int;
            assert(all.take(i + 1) =~= all.take(i).push(file));
            all.take(i).lemma_filter_push(file, is_new);
        }
        if file.content == ManifestContentType::Deletes && file.added_snapshot_id
            == snapshot.snapshot_id {
            picked.push(file);
        }
    }
    assert(all.take(all.len() as int) =~= all);
    picked
}

} // verus!

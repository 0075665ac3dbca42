//! What holds of every commit of a replacement of files.

use vstd::prelude::*;

use crate::error::ErrorView;
use crate::metadata::data_file::{DataContentType, DataFile};
use crate::metadata::manifest::{ManifestEntry, ManifestFile};
use crate::metadata::storage::Storage;
use crate::metadata::table::{
    find_ref, find_snapshot, found_snapshot_is_listed, Snapshot, TableMetadata,
};
use crate::transaction::commit::{
    commit_start, process_of, producer_of, CommitCommandView, CommitEventView, CommitPhase,
    CommitView,
};
use crate::transaction::delete_check::{plan_of, CheckPlanView, CheckView};
use crate::transaction::replace_files::{only_data, only_deletes, ReplaceFilesView};
use crate::transaction::snapshot::{branch_or_main, CommitUuid};
use crate::transaction::validation::{
    conflict_error, conflicts, endangers, first_endangered, history_since,
    missing_snapshot_error, new_delete_manifests, parent_of, unknown_history_error, walk_back,
};

verus! {

/// The snapshot that lies `n` steps back from another one.
pub open spec fn ancestor(snapshots: Seq<Snapshot>, from: Option<Snapshot>, n: nat) -> Option<
    Snapshot,
>
    decreases n,
{
    if n == 0 {
        from
    } else {
        match ancestor(snapshots, from, (n - 1) as nat) {
            Some(snapshot) => parent_of(snapshots, snapshot),
            None => None,
        }
    }
}

/// The snapshot `n` steps back from another one has the given id.
pub open spec fn lies_back(
    snapshots: Seq<Snapshot>,
    from: Option<Snapshot>,
    id: i64,
    n: nat,
) -> bool {
    ancestor(snapshots, from, n) matches Some(snapshot) && snapshot.snapshot_id == id
}

/// The way back from a snapshot starts with its parent.
proof fn ancestor_of_parent(snapshots: Seq<Snapshot>, from: Snapshot, n: nat)
    ensures
        ancestor(snapshots, parent_of(snapshots, from), n) == ancestor(
            snapshots,
            Some(from),
            n + 1,
        ),
    decreases n,
{
    if n > 0 {
        ancestor_of_parent(snapshots, from, (n - 1) as nat);
    } else {
        assert(ancestor(snapshots, Some(from), 0) == Some(from));
    }
}

/// Walking back finds the snapshots up to the first one with the given id.
proof fn walk_back_finds(
    snapshots: Seq<Snapshot>,
    from: Option<Snapshot>,
    to: i64,
    steps: nat,
)
    ensures
        walk_back(snapshots, from, to, steps) matches Some(history) ==> lies_back(
            snapshots,
            from,
            to,
            history.len(),
        ) && forall|i: int|
            0 <= i < history.len() ==> ancestor(snapshots, from, i as nat) == Some(
                #[trigger] history[i],
            ) && history[i].snapshot_id != to,
    decreases steps,
{
    if let Some(snapshot) = from {
        if snapshot.snapshot_id != to && steps > 0 {
            let parent = parent_of(snapshots, snapshot);
            walk_back_finds(snapshots, parent, to, (steps - 1) as nat);
            if let Some(earlier) = walk_back(snapshots, parent, to, (steps - 1) as nat) {
                let history = seq![snapshot] + earlier;
                ancestor_of_parent(snapshots, snapshot, earlier.len());
                assert forall|i: int| 0 <= i < history.len() implies ancestor(
                    snapshots,
                    from,
                    i as nat,
                ) == Some(#[trigger] history[i]) && history[i].snapshot_id != to by {
                    if i > 0 {
                        ancestor_of_parent(snapshots, snapshot, (i - 1) as nat);
                        assert(history[i] == earlier[i - 1]);
                    }
                }
            }
        }
    }
}

/// Walking back far enough finds a snapshot that lies back.
proof fn walk_back_succeeds(
    snapshots: Seq<Snapshot>,
    from: Option<Snapshot>,
    to: i64,
    steps: nat,
    n: nat,
)
    requires
        lies_back(snapshots, from, to, n),
        n <= steps,
    ensures
        walk_back(snapshots, from, to, steps) is Some,
    decreases n,
{
    match from {
        Some(snapshot) => {
            if snapshot.snapshot_id != to {
                assert(n > 0);
                ancestor_of_parent(snapshots, snapshot, (n - 1) as nat);
                walk_back_succeeds(
                    snapshots,
                    parent_of(snapshots, snapshot),
                    to,
                    (steps - 1) as nat,
                    (n - 1) as nat,
                );
            }
        },
        None => {
            nothing_lies_back(snapshots, n);
        },
    }
}

/// From nothing there is no way back.
proof fn nothing_lies_back(snapshots: Seq<Snapshot>, n: nat)
    ensures
        ancestor(snapshots, None, n) is None,
    decreases n,
{
    if n > 0 {
        nothing_lies_back(snapshots, (n - 1) as nat);
    }
}

/// Ways back that meet go on together.
proof fn ways_back_meet(
    snapshots: Seq<Snapshot>,
    from: Option<Snapshot>,
    i: nat,
    j: nat,
    further: nat,
)
    requires
        ancestor(snapshots, from, i) == ancestor(snapshots, from, j),
    ensures
        ancestor(snapshots, from, i + further) == ancestor(snapshots, from, j + further),
    decreases further,
{
    if further > 0 {
        ways_back_meet(snapshots, from, i, j, (further - 1) as nat);
    }
}

/// Snapshots on the way back are listed.
proof fn ancestors_are_listed(snapshots: Seq<Snapshot>, from: Snapshot, n: nat)
    requires
        snapshots.contains(from),
    ensures
        ancestor(snapshots, Some(from), n) matches Some(snapshot) ==> snapshots.contains(snapshot),
    decreases n,
{
    if n > 0 {
        if let Some(later) = ancestor(snapshots, Some(from), (n - 1) as nat) {
            if let Some(id) = later.parent_snapshot_id {
                found_snapshot_is_listed(snapshots, id);
            }
        }
    }
}

/// Nothing lies beyond the end of the way back.
proof fn way_back_has_no_gaps(
    snapshots: Seq<Snapshot>,
    from: Option<Snapshot>,
    i: nat,
    n: nat,
)
    requires
        i <= n,
        ancestor(snapshots, from, n) is Some,
    ensures
        ancestor(snapshots, from, i) is Some,
    decreases n - i,
{
    if i < n {
        way_back_has_no_gaps(snapshots, from, i + 1, n);
    }
}

/// A snapshot that lies back at all lies back within as many steps as there are
/// snapshots, or fewer.
proof fn lies_back_soon(snapshots: Seq<Snapshot>, from: Snapshot, to: i64, n: nat) -> (soon: nat)
    requires
        snapshots.contains(from),
        lies_back(snapshots, Some(from), to, n),
    ensures
        soon <= snapshots.len(),
        lies_back(snapshots, Some(from), to, soon),
    decreases n,
{
    let start = Some(from);
    if exists|i: nat| i < n && #[trigger] lies_back(snapshots, start, to, i) {
        let i = choose|i: nat| i < n && #[trigger] lies_back(snapshots, start, to, i);
        lies_back_soon(snapshots, from, to, i)
    } else {
        let way = Seq::new(n + 1, |i: int| ancestor(snapshots, start, i as nat)->Some_0);
        assert forall|i: int, j: int| 0 <= i < way.len() && 0 <= j < way.len() && i != j implies way[i]
            != way[j] by {
            let (low, high) = if i < j {
                (i, j)
            } else {
                (j, i)
            };
            if way[i] == way[j] {
                way_back_has_no_gaps(snapshots, start, low as nat, n);
                way_back_has_no_gaps(snapshots, start, high as nat, n);
                ways_back_meet(snapshots, start, low as nat, high as nat, (n - high) as nat);
                assert(lies_back(snapshots, start, to, (low + (n - high)) as nat));
            }
        }
        way.unique_seq_to_set();
        assert(way.to_set().subset_of(snapshots.to_set())) by {
            assert forall|snapshot: Snapshot| way.to_set().contains(
                snapshot,
            ) implies snapshots.to_set().contains(snapshot) by {
                let i = choose|i: int| 0 <= i < way.len() && way[i] == snapshot;
                way_back_has_no_gaps(snapshots, start, i as nat, n);
                ancestors_are_listed(snapshots, from, i as nat);
            }
        }
        vstd::set_lib::lemma_len_subset(way.to_set(), snapshots.to_set());
        snapshots.lemma_cardinality_of_set();
        n
    }
}

/// The history of a branch since a snapshot is known exactly where the snapshot
/// lies back from the tip, however far; it holds the snapshots on the way, from
/// the tip down to but without that snapshot.
pub proof fn history_is_complete(metadata: TableMetadata, branch: Seq<char>, start: i64)
    ensures
        history_since(metadata, branch, start) is Some <==> exists|n: nat| #[trigger]
            lies_back(metadata.snapshots@, metadata.tip(branch), start, n),
        history_since(metadata, branch, start) matches Some(history) ==> lies_back(
            metadata.snapshots@,
            metadata.tip(branch),
            start,
            history.len(),
        ) && forall|i: int|
            0 <= i < history.len() ==> ancestor(
                metadata.snapshots@,
                metadata.tip(branch),
                i as nat,
            ) == Some(#[trigger] history[i]) && history[i].snapshot_id != start,
{
    let snapshots = metadata.snapshots@;
    let tip = metadata.tip(branch);
    walk_back_finds(snapshots, tip, start, snapshots.len());
    if exists|n: nat| #[trigger] lies_back(snapshots, tip, start, n) {
        let n = choose|n: nat| #[trigger] lies_back(snapshots, tip, start, n);
        match tip {
            Some(latest) => {
                tip_is_listed(metadata, branch);
                let soon = lies_back_soon(snapshots, latest, start, n);
                walk_back_succeeds(snapshots, tip, start, snapshots.len(), soon);
            },
            None => {
                nothing_lies_back(snapshots, n);
            },
        }
    }
}

/// The tip of a branch is one of the snapshots.
proof fn tip_is_listed(metadata: TableMetadata, branch: Seq<char>)
    ensures
        metadata.tip(branch) matches Some(tip) ==> metadata.snapshots@.contains(tip),
{
    if let Some(id) = find_ref(metadata.refs@, branch) {
        found_snapshot_is_listed(metadata.snapshots@, id);
    }
}

/// Two lists of snapshots differ at most in what the snapshots did.
pub open spec fn same_but_for_operations(left: Seq<Snapshot>, right: Seq<Snapshot>) -> bool {
    &&& left.len() == right.len()
    &&& forall|i: int|
        0 <= i < left.len() ==> same_but_for_operation(#[trigger] left[i], #[trigger] right[i])
}

/// Two snapshots differ at most in what they did.
pub open spec fn same_but_for_operation(left: Snapshot, right: Snapshot) -> bool {
    left == (Snapshot { operation: left.operation, ..right })
}

/// The search for a snapshot by its id does not ask what the snapshots did.
proof fn find_ignores_operations(left: Seq<Snapshot>, right: Seq<Snapshot>, id: i64)
    requires
        same_but_for_operations(left, right),
    ensures
        find_snapshot(left, id) is Some == find_snapshot(right, id) is Some,
        find_snapshot(left, id) is Some ==> same_but_for_operation(
            find_snapshot(left, id)->Some_0,
            find_snapshot(right, id)->Some_0,
        ),
    decreases left.len(),
{
    if left.len() > 0 {
        assert(same_but_for_operation(left[0], right[0]));
        assert(same_but_for_operations(left.drop_first(), right.drop_first())) by {
            assert forall|i: int|
                0 <= i < left.drop_first().len() implies same_but_for_operation(
                #[trigger] left.drop_first()[i],
                #[trigger] right.drop_first()[i],
            ) by {
                assert(same_but_for_operation(left[i + 1], right[i + 1]));
            }
        }
        find_ignores_operations(left.drop_first(), right.drop_first(), id);
    }
}

/// The walk back does not ask what the snapshots did.
proof fn walk_ignores_operations(
    left: Seq<Snapshot>,
    right: Seq<Snapshot>,
    left_from: Option<Snapshot>,
    right_from: Option<Snapshot>,
    to: i64,
    steps: nat,
)
    requires
        same_but_for_operations(left, right),
        left_from is Some == right_from is Some,
        left_from is Some ==> same_but_for_operation(left_from->Some_0, right_from->Some_0),
    ensures
        walk_back(left, left_from, to, steps) is Some == walk_back(right, right_from, to, steps)
            is Some,
        walk_back(left, left_from, to, steps) is Some ==> same_but_for_operations(
            walk_back(left, left_from, to, steps)->Some_0,
            walk_back(right, right_from, to, steps)->Some_0,
        ),
    decreases steps,
{
    if left_from is Some && left_from->Some_0.snapshot_id != to && steps > 0 {
        let mine = left_from->Some_0;
        let theirs = right_from->Some_0;
        if let Some(id) = mine.parent_snapshot_id {
            find_ignores_operations(left, right, id);
        }
        walk_ignores_operations(
            left,
            right,
            parent_of(left, mine),
            parent_of(right, theirs),
            to,
            (steps - 1) as nat,
        );
        if walk_back(left, left_from, to, steps) is Some {
            let mine_earlier = walk_back(
                left,
                parent_of(left, mine),
                to,
                (steps - 1) as nat,
            )->Some_0;
            let theirs_earlier = walk_back(
                right,
                parent_of(right, theirs),
                to,
                (steps - 1) as nat,
            )->Some_0;
            let all_mine = seq![mine] + mine_earlier;
            let all_theirs = seq![theirs] + theirs_earlier;
            assert forall|i: int| 0 <= i < all_mine.len() implies same_but_for_operation(
                #[trigger] all_mine[i],
                #[trigger] all_theirs[i],
            ) by {
                if i > 0 {
                    assert(same_but_for_operation(mine_earlier[i - 1], theirs_earlier[i - 1]));
                }
            }
        }
    }
}

/// The history of a branch does not depend on what the snapshots did: an append
/// is looked at like any other.
pub proof fn history_ignores_operations(
    left: TableMetadata,
    right: TableMetadata,
    branch: Seq<char>,
    start: i64,
)
    requires
        left.refs@ == right.refs@,
        same_but_for_operations(left.snapshots@, right.snapshots@),
    ensures
        history_since(left, branch, start) is Some == history_since(right, branch, start) is Some,
        history_since(left, branch, start) is Some ==> same_but_for_operations(
            history_since(left, branch, start)->Some_0,
            history_since(right, branch, start)->Some_0,
        ),
{
    if let Some(id) = find_ref(left.refs@, branch) {
        find_ignores_operations(left.snapshots@, right.snapshots@, id);
    }
    walk_ignores_operations(
        left.snapshots@,
        right.snapshots@,
        left.tip(branch),
        right.tip(branch),
        start,
        left.snapshots@.len(),
    );
}

/// Equality deletes that are left out of account conflict with nothing; of
/// position deletes it makes no difference.
pub proof fn only_equality_deletes_are_ignored(entry: ManifestEntry, file: DataFile, since: i64)
    ensures
        entry.data_file.content == DataContentType::EqualityDeletes ==> !conflicts(
            entry,
            file,
            since,
            true,
        ),
        entry.data_file.content == DataContentType::PositionDeletes ==> conflicts(
            entry,
            file,
            since,
            true,
        ) == conflicts(entry, file, since, false),
{
}

/// A delete file that the starting snapshot knew already conflicts with nothing.
pub proof fn earlier_deletes_do_not_conflict(
    entry: ManifestEntry,
    file: DataFile,
    since: i64,
    ignore_equality: bool,
)
    requires
        entry.sequence_number matches Some(number) && number <= since,
    ensures
        !conflicts(entry, file, since, ignore_equality),
{
}

/// Data files conflict with nothing.
pub proof fn data_files_do_not_conflict(
    entry: ManifestEntry,
    file: DataFile,
    since: i64,
    ignore_equality: bool,
)
    requires
        entry.data_file.content == DataContentType::Data,
    ensures
        !conflicts(entry, file, since, ignore_equality),
{
}

/// A file is found endangered exactly where one is.
proof fn what_is_endangered(
    files: Seq<DataFile>,
    entries: Seq<ManifestEntry>,
    since: i64,
    ignore_equality: bool,
)
    ensures
        first_endangered(files, entries, since, ignore_equality) is None ==> forall|i: int|
            0 <= i < files.len() ==> !endangers(
                entries,
                #[trigger] files[i],
                since,
                ignore_equality,
            ),
        first_endangered(files, entries, since, ignore_equality) matches Some(file)
            ==> files.contains(file) && endangers(entries, file, since, ignore_equality),
    decreases files.len(),
{
    if files.len() > 0 {
        if endangers(entries, files[0], since, ignore_equality) {
            assert(files.contains(files[0]));
        } else {
            let rest = files.drop_first();
            what_is_endangered(rest, entries, since, ignore_equality);
            match first_endangered(rest, entries, since, ignore_equality) {
                None => {
                    assert forall|i: int| 0 <= i < files.len() implies !endangers(
                        entries,
                        #[trigger] files[i],
                        since,
                        ignore_equality,
                    ) by {
                        if i > 0 {
                            assert(files[i] == rest[i - 1]);
                        }
                    }
                },
                Some(file) => {
                    let i = choose|i: int| 0 <= i < rest.len() && rest[i] == file;
                    assert(files[i + 1] == file);
                },
            }
        }
    }
}

/// A snapshot added a delete manifest with a delete file that may affect a data
/// file.
pub open spec fn snapshot_endangers(
    storage: Storage,
    snapshot: Snapshot,
    file: DataFile,
    since: i64,
    ignore_equality: bool,
) -> bool {
    let manifests = new_delete_manifests(snapshot, (storage.lists)(snapshot));
    exists|i: int|
        0 <= i < manifests.len() && endangers(
            storage.entries_of(#[trigger] manifests[i]),
            file,
            since,
            ignore_equality,
        )
}

/// One of the snapshots added a delete manifest with a delete file that may
/// affect a data file.
pub open spec fn history_endangers(
    storage: Storage,
    history: Seq<Snapshot>,
    file: DataFile,
    since: i64,
    ignore_equality: bool,
) -> bool {
    exists|i: int|
        0 <= i < history.len() && snapshot_endangers(
            storage,
            #[trigger] history[i],
            file,
            since,
            ignore_equality,
        )
}

/// One of the data files is endangered by the history.
pub open spec fn any_endangered(
    storage: Storage,
    history: Seq<Snapshot>,
    files: Seq<DataFile>,
    since: i64,
    ignore_equality: bool,
) -> bool {
    exists|i: int|
        0 <= i < files.len() && history_endangers(
            storage,
            history,
            #[trigger] files[i],
            since,
            ignore_equality,
        )
}

/// A commit fails and names a data file that is endangered by the history.
pub open spec fn fails_for_an_endangered_file(
    command: CommitCommandView,
    storage: Storage,
    history: Seq<Snapshot>,
    files: Seq<DataFile>,
    since: i64,
    ignore_equality: bool,
) -> bool {
    exists|i: int|
        0 <= i < files.len() && history_endangers(
            storage,
            history,
            #[trigger] files[i],
            since,
            ignore_equality,
        ) && command == CommitCommandView::Fail(conflict_error(files[i].path(), ignore_equality))
}

/// What a commit comes to when it is told what the storage holds until it asks
/// for nothing more. The files are taken to be as they should be.
pub open spec fn outcome(state: CommitView, command: CommitCommandView, storage: Storage) -> (
    CommitCommandView)
    decreases
            (if state.phase == CommitPhase::DataFiles {
                1int
            } else {
                0
            }),
            state.plan->Check_0.snapshots.len() - state.plan->Check_0.next_snapshot,
            state.plan->Check_0.manifests.len() - state.plan->Check_0.next_manifest,
{
    match command {
        CommitCommandView::ValidateDataFileChanges => if state.phase == CommitPhase::DataFiles {
            let (next, then) = state.after(CommitEventView::DataFilesValid);
            outcome(next, then, storage)
        } else {
            command
        },
        CommitCommandView::LoadManifestList(snapshot) => if state.plan is Check
            && state.plan->Check_0.next_snapshot < state.plan->Check_0.snapshots.len() && state.phase
            == CommitPhase::Deletes {
            let (next, then) = state.after(
                CommitEventView::ManifestList((storage.lists)(snapshot)),
            );
            outcome(next, then, storage)
        } else {
            command
        },
        CommitCommandView::LoadManifest(file) => if state.plan is Check
            && state.plan->Check_0.next_manifest < state.plan->Check_0.manifests.len()
            && state.phase == CommitPhase::Deletes {
            let (next, then) = state.after(CommitEventView::Manifest(storage.entries_of(file)));
            if then is Fail {
                then
            } else {
                outcome(next, then, storage)
            }
        } else {
            command
        },
        _ => command,
    }
}

/// The part of a history that a check has not seen yet endangers a data file.
spec fn rest_endangers(check: CheckView, file: DataFile, storage: Storage) -> bool {
    ||| exists|i: int|
        check.next_manifest <= i < check.manifests.len() && endangers(
            storage.entries_of(#[trigger] check.manifests[i]),
            file,
            check.since,
            check.ignore_equality,
        )
    ||| exists|i: int|
        check.next_snapshot <= i < check.snapshots.len() && snapshot_endangers(
            storage,
            #[trigger] check.snapshots[i],
            file,
            check.since,
            check.ignore_equality,
        )
}

/// What a commit comes to is what the rest of its check leads to.
spec fn fits_the_rest(
    result: CommitCommandView,
    state: CommitView,
    check: CheckView,
    storage: Storage,
) -> bool {
    let files = state.producer.removed_data_files;
    if exists|i: int| 0 <= i < files.len() && rest_endangers(check, #[trigger] files[i], storage) {
        exists|i: int|
            0 <= i < files.len() && rest_endangers(check, #[trigger] files[i], storage) && result
                == CommitCommandView::Fail(conflict_error(files[i].path(), check.ignore_equality))
    } else {
        result == CommitCommandView::Commit(state.process)
    }
}

/// What a commit comes to from a state in which its check goes on.
proof fn check_outcome(state: CommitView, check: CheckView, storage: Storage)
    requires
        0 <= check.next_manifest <= check.manifests.len(),
        0 <= check.next_snapshot <= check.snapshots.len(),
    ensures
        ({
            let (begun, answer) = check.proceed();
            let (next, command) = CommitView {
                plan: CheckPlanView::Check(begun),
                ..state
            }.checked(answer);
            fits_the_rest(outcome(next, command, storage), state, check, storage)
        }),
    decreases
            check.snapshots.len() - check.next_snapshot,
            check.manifests.len() - check.next_manifest,
{
    let files = state.producer.removed_data_files;
    if check.next_manifest < check.manifests.len() {
        let manifest = check.manifests[check.next_manifest];
        let entries = storage.entries_of(manifest);
        what_is_endangered(files, entries, check.since, check.ignore_equality);
        match first_endangered(files, entries, check.since, check.ignore_equality) {
            Some(file) => {
                let i = choose|i: int| 0 <= i < files.len() && files[i] == file;
                assert(endangers(
                    storage.entries_of(check.manifests[check.next_manifest]),
                    files[i],
                    check.since,
                    check.ignore_equality,
                ));
                assert(rest_endangers(check, files[i], storage));
            },
            None => {
                let seen = CheckView { next_manifest: check.next_manifest + 1, ..check };
                check_outcome(state, seen, storage);
                assert forall|i: int| 0 <= i < files.len() implies rest_endangers(
                    seen,
                    #[trigger] files[i],
                    storage,
                ) == rest_endangers(check, files[i], storage) by {
                    assert(!endangers(entries, files[i], check.since, check.ignore_equality));
                }
            },
        }
    } else if check.next_snapshot < check.snapshots.len() {
        let snapshot = check.snapshots[check.next_snapshot];
        let listed = CheckView {
            manifests: new_delete_manifests(snapshot, (storage.lists)(snapshot)),
            next_manifest: 0,
            next_snapshot: check.next_snapshot + 1,
            ..check
        };
        check_outcome(state, listed, storage);
        assert forall|i: int| 0 <= i < files.len() implies rest_endangers(
            listed,
            #[trigger] files[i],
            storage,
        ) == rest_endangers(check, files[i], storage) by {
            if snapshot_endangers(
                storage,
                snapshot,
                files[i],
                check.since,
                check.ignore_equality,
            ) {
                assert(snapshot_endangers(
                    storage,
                    check.snapshots[check.next_snapshot],
                    files[i],
                    check.since,
                    check.ignore_equality,
                ));
            }
        }
    }
}

/// What a commit comes to. Without a starting snapshot it goes ahead. With one
/// it fails where the snapshot is gone from the table metadata or does not lie
/// back from the tip of the branch; and it fails where a snapshot since has
/// added a delete file that may hold deletes for a removed data file, whatever
/// that snapshot did otherwise, and names such a data file. In all other cases
/// it goes ahead.
pub proof fn commit_outcome(
    choices: ReplaceFilesView,
    commit_uuid: CommitUuid,
    metadata: TableMetadata,
    storage: Storage,
)
    ensures
        ({
            let (state, command) = commit_start(choices, commit_uuid, metadata);
            let result = outcome(state, command, storage);
            let branch = branch_or_main(choices.target_branch);
            let ignore_equality = choices.new_data_file_sequence_number is Some;
            match choices.validate_from_snapshot_id {
                None => result == CommitCommandView::Commit(process_of(choices)),
                Some(start) => match find_snapshot(metadata.snapshots@, start) {
                    None => result == CommitCommandView::Fail(missing_snapshot_error()),
                    Some(snapshot) => match history_since(metadata, branch, start) {
                        None => result == CommitCommandView::Fail(unknown_history_error()),
                        Some(history) => if any_endangered(
                            storage,
                            history,
                            choices.removed_data_files,
                            snapshot.sequence_number,
                            ignore_equality,
                        ) {
                            fails_for_an_endangered_file(
                                result,
                                storage,
                                history,
                                choices.removed_data_files,
                                snapshot.sequence_number,
                                ignore_equality,
                            )
                        } else {
                            result == CommitCommandView::Commit(process_of(choices))
                        },
                    },
                },
            }
        }),
{
    reveal_with_fuel(outcome, 2);
    let planned = CommitView {
        phase: CommitPhase::DataFiles,
        producer: producer_of(choices, commit_uuid),
        plan: plan_of(
            metadata,
            branch_or_main(choices.target_branch),
            choices.validate_from_snapshot_id,
            choices.new_data_file_sequence_number is Some,
        ),
        process: process_of(choices),
    };
    if let CheckPlanView::Check(check) = planned.plan {
        check_outcome(planned, check, storage);
        let files = choices.removed_data_files;
        assert forall|i: int| 0 <= i < files.len() implies rest_endangers(
            check,
            #[trigger] files[i],
            storage,
        ) == history_endangers(
            storage,
            check.snapshots,
            files[i],
            check.since,
            check.ignore_equality,
        ) by {}
    }
}

/// What a command asks for is what the commit waits for, with a failure as the
/// other answer; after the last command nothing is waited for.
pub open spec fn can_be_answered(state: CommitView, command: CommitCommandView) -> bool {
    match command {
        CommitCommandView::ValidateDataFileChanges => state.expects(
            CommitEventView::DataFilesValid,
        ) && forall|error: ErrorView| #[trigger] state.expects(CommitEventView::Failed(error)),
        CommitCommandView::LoadManifestList(snapshot) => (forall|list: Seq<ManifestFile>| #[trigger]
            state.expects(CommitEventView::ManifestList(list))) && forall|error: ErrorView|
         #[trigger] state.expects(CommitEventView::Failed(error)),
        CommitCommandView::LoadManifest(file) => (forall|entries: Seq<ManifestEntry>| #[trigger]
            state.expects(CommitEventView::Manifest(entries))) && forall|error: ErrorView|
         #[trigger] state.expects(CommitEventView::Failed(error)),
        CommitCommandView::Commit(process) => state.phase == CommitPhase::Ready && forall|
            event: CommitEventView,
        |
            !#[trigger] state.expects(event),
        CommitCommandView::Fail(error) => state.phase == CommitPhase::Failed && forall|
            event: CommitEventView,
        |
            !#[trigger] state.expects(event),
    }
}

/// The first command of a commit can be answered, and so can each command that
/// follows an answer.
pub proof fn commands_can_be_answered(
    choices: ReplaceFilesView,
    commit_uuid: CommitUuid,
    metadata: TableMetadata,
    state: CommitView,
    event: CommitEventView,
)
    ensures
        can_be_answered(
            commit_start(choices, commit_uuid, metadata).0,
            commit_start(choices, commit_uuid, metadata).1,
        ),
        state.expects(event) ==> can_be_answered(state.after(event).0, state.after(event).1),
{
}

/// A failure is returned as it is, and no snapshot is committed.
pub proof fn failure_ends_the_commit(state: CommitView, error: ErrorView)
    ensures
        state.after(CommitEventView::Failed(error)).1 == CommitCommandView::Fail(error),
        state.after(CommitEventView::Failed(error)).0.phase == CommitPhase::Failed,
{
}

/// A commit hands on what the snapshot is made of unchanged.
pub proof fn commit_keeps_the_snapshot(
    choices: ReplaceFilesView,
    commit_uuid: CommitUuid,
    metadata: TableMetadata,
    state: CommitView,
    event: CommitEventView,
)
    ensures
        commit_start(choices, commit_uuid, metadata).0.producer == producer_of(
            choices,
            commit_uuid,
        ),
        state.expects(event) ==> state.after(event).0.producer == state.producer,
{
}

/// Each file counts either as a data file or as a delete file, and none is lost.
pub proof fn every_file_is_sorted(files: Seq<DataFile>, file: DataFile)
    ensures
        only_data(files).contains(file) <==> files.contains(file) && !file.holds_deletes(),
        only_deletes(files).contains(file) <==> files.contains(file) && file.holds_deletes(),
        only_data(files).len() + only_deletes(files).len() == files.len(),
    decreases files.len(),
{
    reveal(Seq::filter);
    if files.len() > 0 {
        let rest = files.drop_last();
        every_file_is_sorted(rest, file);
        assert(files =~= rest.push(files.last()));
        rest.lemma_filter_push(files.last(), |file: DataFile| !file.holds_deletes());
        rest.lemma_filter_push(files.last(), |file: DataFile| file.holds_deletes());
        broadcast use vstd::seq_lib::group_seq_properties;

        assert(files.contains(file) <==> rest.contains(file) || files.last() == file);
    }
}

/// Files added in two calls are those added in one call.
pub proof fn files_add_up(choices: ReplaceFilesView, first: Seq<DataFile>, second: Seq<DataFile>)
    ensures
        choices.adding(first).adding(second) == choices.adding(first + second),
        choices.removing(first).removing(second) == choices.removing(first + second),
{
    Seq::filter_distributes_over_add(first, second, |file: DataFile| !file.holds_deletes());
    Seq::filter_distributes_over_add(first, second, |file: DataFile| file.holds_deletes());
    assert(choices.adding(first).adding(second) =~= choices.adding(first + second));
    assert(choices.removing(first).removing(second) =~= choices.removing(first + second));
}

} // verus!

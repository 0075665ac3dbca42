//! What replacing files does, told through the files, the manifests and the
//! snapshots of a table.

use vstd::prelude::*;

use crate::error::{Error, ErrorKind};
use crate::metadata::data_file::{DataContentType, DataFile};
use crate::metadata::laws::{
    each_snapshot_is_found, is_about_only, only_target_is_referenced_or_bounded,
    partitions_are_compared_field_by_field, path_is_bounded_by, refs_are_found_by_name,
    same_partition, snapshots_are_found_by_id, tip_is_that_of_the_branch,
};
use crate::metadata::manifest::{
    ManifestContentType, ManifestEntry, ManifestFile, ManifestStatus,
};
use crate::metadata::storage::Storage;
use crate::metadata::table::{find_ref, find_snapshot, Snapshot, TableMetadata};
use crate::text::{bool_of, u32_of};
use crate::transaction::commit::{
    commit_start, process_of, CommitCommand, CommitCommandView, CommitEvent, CommitEventView,
    ManifestProcess,
};
use crate::transaction::commit_laws::{
    ancestor, any_endangered, commit_outcome, fails_for_an_endangered_file, history_endangers,
    history_is_complete, lies_back, outcome, snapshot_endangers,
};
use crate::transaction::delete_check::{
    CheckCommand, CheckCommandView, CheckPlan, CheckPlanView, DeleteCheck,
};
use crate::transaction::existing_manifest::{
    any_removed, carried_entries, disposition_of, is_marked, is_removed, marked_entries,
    marks_numbered, survives, with_status, Disposition, DispositionView, DraftView, ManifestDraft,
};
use crate::transaction::laws::{
    contents_of, live_among, live_entries, manifest_events, not_removed, recorded_entries,
    scan_keeps_the_live_files, scan_outcome, scan_run, staying_manifests, written_as_asked,
};
use crate::transaction::manifest_scan::{
    scan_start, ScanCommand, ScanCommandView, ScanEvent, ScanEventView, ScanPhase, ScanView,
};
use crate::transaction::replace_files::{default_choices, ReplaceFilesView};
use crate::transaction::snapshot::{
    branch_or_main, paths_of, CommitUuid, RemovedView, SnapshotProducer,
};
use crate::transaction::validation::{
    conflict_error, conflicts, endangers, first_endangered, history_since, new_delete_manifests,
    parent_of,
};

verus! {

/// The file of an entry is to be removed, by its path.
pub open spec fn goes(removed: RemovedView, entry: ManifestEntry) -> bool {
    removed.data.contains(entry.data_file.file_path@) || removed.deletes.contains(
        entry.data_file.file_path@,
    )
}

/// An entry is to be recorded as deleted: a data file by the paths of removed data
/// files, a position or equality delete file by those of removed delete files.
pub open spec fn is_to_be_recorded(removed: RemovedView, entry: ManifestEntry) -> bool {
    ||| entry.data_file.content == DataContentType::Data && removed.data.contains(
        entry.data_file.file_path@,
    )
    ||| entry.data_file.content == DataContentType::PositionDeletes && removed.deletes.contains(
        entry.data_file.file_path@,
    )
    ||| entry.data_file.content == DataContentType::EqualityDeletes && removed.deletes.contains(
        entry.data_file.file_path@,
    )
}

/// An entry is to be carried forward: added or existing, and not removed.
pub open spec fn is_to_be_carried(removed: RemovedView, entry: ManifestEntry) -> bool {
    (entry.status == ManifestStatus::Added || entry.status == ManifestStatus::Existing) && !goes(
        removed,
        entry,
    )
}

/// The records of some entries: those that are to be recorded, as deleted ones
/// and otherwise unchanged, in their order.
pub open spec fn records(removed: RemovedView, entries: Seq<ManifestEntry>) -> Seq<ManifestEntry> {
    entries.filter(|entry: ManifestEntry| is_to_be_recorded(removed, entry)).map_values(
        |entry: ManifestEntry| ManifestEntry { status: ManifestStatus::Deleted, ..entry },
    )
}

/// What some entries leave: those that are to be carried forward, as existing ones
/// and otherwise unchanged, in their order.
pub open spec fn remains(removed: RemovedView, entries: Seq<ManifestEntry>) -> Seq<ManifestEntry> {
    entries.filter(|entry: ManifestEntry| is_to_be_carried(removed, entry)).map_values(
        |entry: ManifestEntry| ManifestEntry { status: ManifestStatus::Existing, ..entry },
    )
}

/// The predicates on entries mean what their fields say.
proof fn entries_are_judged_by_their_fields(removed: RemovedView)
    ensures
        forall|entry: ManifestEntry| #[trigger] is_removed(removed, entry) == goes(removed, entry),
        forall|entry: ManifestEntry| #[trigger]
            is_marked(removed, entry) == is_to_be_recorded(removed, entry),
        forall|entry: ManifestEntry| #[trigger]
            survives(removed, entry) == is_to_be_carried(removed, entry),
{
}

/// What is recorded of one manifest are the records of its entries; what is
/// carried forward is what they leave.
pub proof fn entries_are_recorded_or_carried(removed: RemovedView, entries: Seq<ManifestEntry>)
    ensures
        marked_entries(removed, entries) == records(removed, entries),
        carried_entries(removed, entries) == remains(removed, entries),
{
    entries_are_judged_by_their_fields(removed);
    assert((|entry: ManifestEntry| is_marked(removed, entry)) =~= (|entry: ManifestEntry|
        is_to_be_recorded(removed, entry)));
    assert((|entry: ManifestEntry| survives(removed, entry)) =~= (|entry: ManifestEntry|
        is_to_be_carried(removed, entry)));
    assert((|entry: ManifestEntry| with_status(entry, ManifestStatus::Deleted)) =~= (|
        entry: ManifestEntry,
    | ManifestEntry { status: ManifestStatus::Deleted, ..entry }));
    assert((|entry: ManifestEntry| with_status(entry, ManifestStatus::Existing)) =~= (|
        entry: ManifestEntry,
    | ManifestEntry { status: ManifestStatus::Existing, ..entry }));
}

/// Every entry of a manifest whose path is among the removed files of its kind of
/// content is recorded as deleted, and no other is.
pub proof fn removed_entries_are_recorded(
    removed: RemovedView,
    entries: Seq<ManifestEntry>,
    entry: ManifestEntry,
)
    requires
        entries.contains(entry),
    ensures
        is_to_be_recorded(removed, entry) ==> marked_entries(removed, entries).contains(
            (ManifestEntry { status: ManifestStatus::Deleted, ..entry }),
        ),
        forall|record: ManifestEntry| #[trigger]
            marked_entries(removed, entries).contains(record) ==> record.status
                == ManifestStatus::Deleted && is_to_be_recorded(removed, record),
{
    entries_are_recorded_or_carried(removed, entries);
    let wanted = |entry: ManifestEntry| is_to_be_recorded(removed, entry);
    let chosen = entries.filter(wanted);
    let all = records(removed, entries);
    if is_to_be_recorded(removed, entry) {
        let i = choose|i: int| 0 <= i < entries.len() && entries[i] == entry;
        entries.lemma_filter_contains(wanted, i);
        let j = choose|j: int| 0 <= j < chosen.len() && chosen[j] == entry;
        assert(all[j] == (ManifestEntry { status: ManifestStatus::Deleted, ..entry }));
    }
    assert forall|record: ManifestEntry| #[trigger] all.contains(record) implies record.status
        == ManifestStatus::Deleted && is_to_be_recorded(removed, record) by {
        let j = choose|j: int| 0 <= j < all.len() && all[j] == record;
        entries.lemma_filter_pred(wanted, j);
        assert(wanted(chosen[j]));
    }
}

/// What becomes of a manifest: where none of its files is to be removed it stays
/// as it is; where some are and something remains, it is written anew with just
/// what remains, with its kind of content and partition spec; else it goes.
pub proof fn what_becomes_of_a_manifest(
    removed: RemovedView,
    manifest: ManifestFile,
    entries: Seq<ManifestEntry>,
)
    ensures
        disposition_of(removed, manifest, entries) is Keep <==> forall|i: int|
            0 <= i < entries.len() ==> !goes(removed, #[trigger] entries[i]),
        disposition_of(removed, manifest, entries) is Drop <==> (exists|i: int|
            0 <= i < entries.len() && goes(removed, #[trigger] entries[i])) && forall|i: int|
            0 <= i < entries.len() ==> !is_to_be_carried(removed, #[trigger] entries[i]),
        disposition_of(removed, manifest, entries) matches DispositionView::Rewrite(draft)
            ==> draft.content == manifest.content && draft.partition_spec_id
            == manifest.partition_spec_id && draft.entries == remains(removed, entries),
{
    entries_are_recorded_or_carried(removed, entries);
    entries_are_judged_by_their_fields(removed);
    let wanted = |entry: ManifestEntry| is_to_be_carried(removed, entry);
    if any_removed(removed, entries) {
        let i = choose|i: int| 0 <= i < entries.len() && is_removed(removed, #[trigger] entries[i]);
        assert(goes(removed, entries[i]));
    }
    if exists|i: int| 0 <= i < entries.len() && goes(removed, #[trigger] entries[i]) {
        let i = choose|i: int| 0 <= i < entries.len() && goes(removed, #[trigger] entries[i]);
        assert(is_removed(removed, entries[i]));
    }
    if exists|i: int| 0 <= i < entries.len() && is_to_be_carried(removed, #[trigger] entries[i]) {
        let i = choose|i: int|
            0 <= i < entries.len() && is_to_be_carried(removed, #[trigger] entries[i]);
        entries.lemma_filter_contains(wanted, i);
    }
    if remains(removed, entries).len() > 0 {
        entries.lemma_filter_pred(wanted, 0);
        entries.lemma_filter_contains_rev(wanted, entries.filter(wanted)[0]);
        let i = choose|i: int|
            0 <= i < entries.len() && entries[i] == entries.filter(wanted)[0];
        assert(is_to_be_carried(removed, entries[i]));
    }
}

/// The manifests that a scan takes in must give a snapshot id and both sequence
/// numbers for each entry that is to be recorded, and nothing else.
pub proof fn what_a_scan_accepts(removed: RemovedView, entries: Seq<ManifestEntry>)
    ensures
        marks_numbered(removed, entries) <==> forall|i: int|
            0 <= i < entries.len() && is_to_be_recorded(removed, #[trigger] entries[i])
                ==> entries[i].snapshot_id is Some && entries[i].sequence_number is Some
                && entries[i].file_sequence_number is Some,
{
    entries_are_judged_by_their_fields(removed);
    if marks_numbered(removed, entries) {
        assert forall|i: int|
            0 <= i < entries.len() && is_to_be_recorded(
                removed,
                #[trigger] entries[i],
            ) implies entries[i].snapshot_id is Some && entries[i].sequence_number is Some
            && entries[i].file_sequence_number is Some by {
            assert(is_marked(removed, entries[i]));
        }
    }
}

/// A manifest is written anew: some of its files are to be removed and something
/// remains.
pub open spec fn is_written_anew(removed: RemovedView, entries: Seq<ManifestEntry>) -> bool {
    &&& exists|i: int| 0 <= i < entries.len() && goes(removed, #[trigger] entries[i])
    &&& exists|i: int| 0 <= i < entries.len() && is_to_be_carried(removed, #[trigger] entries[i])
}

/// What stays of one manifest: the manifest, or the one written in its place, or
/// nothing.
pub open spec fn what_stays(
    removed: RemovedView,
    file: ManifestFile,
    entries: Seq<ManifestEntry>,
    written: ManifestFile,
) -> Seq<ManifestFile> {
    if forall|i: int| 0 <= i < entries.len() ==> !goes(removed, #[trigger] entries[i]) {
        seq![file]
    } else if exists|i: int|
        0 <= i < entries.len() && is_to_be_carried(removed, #[trigger] entries[i]) {
        seq![written]
    } else {
        Seq::empty()
    }
}

/// The records of all manifests are those of their entries, one manifest after
/// the other.
proof fn records_go_through(removed: RemovedView, contents: Seq<Seq<ManifestEntry>>)
    ensures
        recorded_entries(removed, contents) == records(removed, contents.flatten()),
    decreases contents.len(),
{
    let wanted = |entry: ManifestEntry| is_to_be_recorded(removed, entry);
    let record = |entry: ManifestEntry|
        ManifestEntry { status: ManifestStatus::Deleted, ..entry };
    if contents.len() == 0 {
        reveal(Seq::filter);
        assert(records(removed, contents.flatten()) =~= Seq::empty());
    } else {
        let rest = contents.drop_first();
        records_go_through(removed, rest);
        entries_are_recorded_or_carried(removed, contents[0]);
        assert(contents.flatten() =~= contents[0] + rest.flatten());
        Seq::filter_distributes_over_add(contents[0], rest.flatten(), wanted);
        assert(records(removed, contents.flatten()) =~= records(removed, contents[0]) + records(
            removed,
            rest.flatten(),
        ));
    }
}

/// The manifests that stay are what stays of each, in their order.
proof fn manifests_stay_in_order(
    removed: RemovedView,
    files: Seq<ManifestFile>,
    contents: Seq<Seq<ManifestEntry>>,
    written: Seq<ManifestFile>,
)
    requires
        contents.len() == files.len(),
        written.len() == files.len(),
    ensures
        staying_manifests(removed, files, contents, written) == Seq::new(
            files.len(),
            |i: int| what_stays(removed, files[i], contents[i], written[i]),
        ).flatten(),
    decreases files.len(),
{
    let parts = Seq::new(
        files.len(),
        |i: int| what_stays(removed, files[i], contents[i], written[i]),
    );
    if files.len() > 0 {
        let (later, more, others) = (
            files.drop_first(),
            contents.drop_first(),
            written.drop_first(),
        );
        manifests_stay_in_order(removed, later, more, others);
        let rest = Seq::new(
            later.len(),
            |i: int| what_stays(removed, later[i], more[i], others[i]),
        );
        assert(parts.drop_first() =~= rest);
        what_becomes_of_a_manifest(removed, files[0], contents[0]);
        assert(parts[0] == what_stays(removed, files[0], contents[0], written[0]));
        assert(staying_manifests(removed, files, contents, written) =~= parts[0] + rest.flatten());
    }
}

/// A scan in which no command fails returns what stays of each manifest of the
/// parent, in their order, and puts by the records of all their entries.
pub proof fn what_a_scan_comes_to(
    pending: Option<Seq<ManifestEntry>>,
    removed: RemovedView,
    snapshot: Snapshot,
    files: Seq<ManifestFile>,
    contents: Seq<Seq<ManifestEntry>>,
    written: Seq<ManifestFile>,
)
    requires
        contents.len() == files.len(),
        written.len() == files.len(),
    ensures
        ({
            let (state, command) = scan_start(pending, removed, Some(snapshot));
            let events = seq![ScanEventView::ManifestList(files)] + manifest_events(
                removed,
                files,
                contents,
                written,
            );
            let (end, answer) = scan_run(state, command, events);
            &&& command == ScanCommandView::LoadManifestList(snapshot)
            &&& answer == ScanCommandView::Return(
                Seq::new(
                    files.len(),
                    |i: int| what_stays(removed, files[i], contents[i], written[i]),
                ).flatten(),
            )
            &&& end.pending == Some(records(removed, contents.flatten()))
        }),
{
    scan_outcome(pending, removed, snapshot, files, contents, written);
    records_go_through(removed, contents);
    manifests_stay_in_order(removed, files, contents, written);
}

/// What a scan comes to when each command is answered with what the storage holds
/// for just that command, and each manifest that it asks to be written is written
/// as `write` says.
pub open spec fn answered(
    state: ScanView,
    command: ScanCommandView,
    storage: Storage,
    write: spec_fn(DraftView) -> ManifestFile,
) -> (ScanView, ScanCommandView)
    decreases
            (if state.phase == ScanPhase::List {
                1int
            } else {
                0
            }),
            state.manifests.len() - state.next,
            (if state.phase == ScanPhase::Manifest {
                1int
            } else {
                0
            }),
{
    match command {
        ScanCommandView::LoadManifestList(snapshot) => if state.phase == ScanPhase::List {
            let (next, then) = state.after(ScanEventView::ManifestList((storage.lists)(snapshot)));
            answered(next, then, storage, write)
        } else {
            (state, command)
        },
        ScanCommandView::LoadManifest(file) => if state.phase == ScanPhase::Manifest && state.next
            < state.manifests.len() {
            let (next, then) = state.after(
                ScanEventView::Manifest((storage.entries)(file.manifest_path@)),
            );
            answered(next, then, storage, write)
        } else {
            (state, command)
        },
        ScanCommandView::WriteManifest(draft) => if state.phase == ScanPhase::Write && state.next
            < state.manifests.len() {
            let (next, then) = state.after(ScanEventView::Written(write(draft)));
            answered(next, then, storage, write)
        } else {
            (state, command)
        },
        _ => (state, command),
    }
}

/// What remains of a manifest, as a manifest to be written.
pub open spec fn rest_of(
    removed: RemovedView,
    file: ManifestFile,
    entries: Seq<ManifestEntry>,
) -> DraftView {
    DraftView {
        content: file.content,
        partition_spec_id: file.partition_spec_id,
        entries: remains(removed, entries),
    }
}

/// What stays of some manifests, one after the other.
pub open spec fn all_that_stays(
    removed: RemovedView,
    files: Seq<ManifestFile>,
    storage: Storage,
    write: spec_fn(DraftView) -> ManifestFile,
) -> Seq<ManifestFile> {
    Seq::new(
        files.len(),
        |i: int|
            what_stays(
                removed,
                files[i],
                (storage.entries)(files[i].manifest_path@),
                write(rest_of(removed, files[i], (storage.entries)(files[i].manifest_path@))),
            ),
    ).flatten()
}

/// The first of some manifests, and then the others.
proof fn first_and_others(
    removed: RemovedView,
    files: Seq<ManifestFile>,
    storage: Storage,
    write: spec_fn(DraftView) -> ManifestFile,
)
    requires
        files.len() > 0,
    ensures
        ({
            let entries = (storage.entries)(files[0].manifest_path@);
            &&& all_that_stays(removed, files, storage, write) == what_stays(
                removed,
                files[0],
                entries,
                write(rest_of(removed, files[0], entries)),
            ) + all_that_stays(removed, files.drop_first(), storage, write)
            &&& records(removed, all_entries(storage, files)) == records(removed, entries)
                + records(removed, all_entries(storage, files.drop_first()))
        }),
{
    let entries = (storage.entries)(files[0].manifest_path@);
    let later = files.drop_first();
    let stays = |file: ManifestFile|
        what_stays(
            removed,
            file,
            (storage.entries)(file.manifest_path@),
            write(rest_of(removed, file, (storage.entries)(file.manifest_path@))),
        );
    let parts = Seq::new(files.len(), |i: int| stays(files[i]));
    let others = Seq::new(later.len(), |i: int| stays(later[i]));
    assert(parts.drop_first() =~= others);
    assert(Seq::new(
        files.len(),
        |i: int|
            what_stays(
                removed,
                files[i],
                (storage.entries)(files[i].manifest_path@),
                write(rest_of(removed, files[i], (storage.entries)(files[i].manifest_path@))),
            ),
    ) =~= parts);
    assert(Seq::new(
        later.len(),
        |i: int|
            what_stays(
                removed,
                later[i],
                (storage.entries)(later[i].manifest_path@),
                write(rest_of(removed, later[i], (storage.entries)(later[i].manifest_path@))),
            ),
    ) =~= others);
    let contents = Seq::new(files.len(), |i: int| (storage.entries)(files[i].manifest_path@));
    let more = Seq::new(later.len(), |i: int| (storage.entries)(later[i].manifest_path@));
    assert(contents.drop_first() =~= more);
    assert(all_entries(storage, files) =~= entries + all_entries(storage, later));
    Seq::filter_distributes_over_add(
        entries,
        all_entries(storage, later),
        |entry: ManifestEntry| is_to_be_recorded(removed, entry),
    );
    assert(records(removed, all_entries(storage, files)) =~= records(removed, entries) + records(
        removed,
        all_entries(storage, later),
    ));
}

/// What a scan comes to from one of the manifests on.
proof fn rest_is_answered(
    state: ScanView,
    storage: Storage,
    write: spec_fn(DraftView) -> ManifestFile,
)
    requires
        0 <= state.next <= state.manifests.len(),
    ensures
        ({
            let (begun, command) = state.proceed();
            let (end, answer) = answered(begun, command, storage, write);
            let files = state.manifests.skip(state.next);
            &&& answer == ScanCommandView::Return(
                state.existing + all_that_stays(state.removed, files, storage, write),
            )
            &&& end.pending == Some(
                state.deleted + records(state.removed, all_entries(storage, files)),
            )
        }),
    decreases state.manifests.len() - state.next,
{
    let removed = state.removed;
    let files = state.manifests.skip(state.next);
    let (begun, command) = state.proceed();
    if state.next < state.manifests.len() {
        let file = state.manifests[state.next];
        let entries = (storage.entries)(file.manifest_path@);
        first_and_others(removed, files, storage, write);
        assert(files.drop_first() =~= state.manifests.skip(state.next + 1));
        what_becomes_of_a_manifest(removed, file, entries);
        entries_are_recorded_or_carried(removed, entries);
        let (loaded, then) = begun.after(ScanEventView::Manifest(entries));
        let deleted = state.deleted + records(removed, entries);
        let existing = state.existing + what_stays(
            removed,
            file,
            entries,
            write(rest_of(removed, file, entries)),
        );
        let next = ScanView {
            phase: ScanPhase::Manifest,
            next: state.next + 1,
            existing,
            deleted,
            ..state
        };
        rest_is_answered(next, storage, write);
        assert(next.existing + all_that_stays(removed, files.drop_first(), storage, write)
            =~= state.existing + all_that_stays(removed, files, storage, write));
        assert(deleted + records(removed, all_entries(storage, files.drop_first()))
            =~= state.deleted + records(removed, all_entries(storage, files)));
        assert(answered(begun, command, storage, write) == answered(
            loaded,
            then,
            storage,
            write,
        ));
        match disposition_of(removed, file, entries) {
            DispositionView::Keep => {
                assert(state.existing.push(file) =~= existing);
            },
            DispositionView::Drop => {
                assert(state.existing =~= existing);
            },
            DispositionView::Rewrite(draft) => {
                assert(draft == rest_of(removed, file, entries));
                assert(state.existing.push(write(draft)) =~= existing);
                assert(then == ScanCommandView::WriteManifest(draft));
                let (written, asked) = loaded.after(ScanEventView::Written(write(draft)));
                assert((written, asked) == ScanView {
                    phase: ScanPhase::Write,
                    ..next
                }.proceed());
                assert(answered(loaded, then, storage, write) == answered(
                    written,
                    asked,
                    storage,
                    write,
                ));
            },
        }
    } else {
        reveal(Seq::filter);
        assert(all_that_stays(removed, files, storage, write) =~= Seq::empty());
        assert(records(removed, all_entries(storage, files)) =~= Seq::empty());
        assert(state.existing + all_that_stays(removed, files, storage, write)
            =~= state.existing);
        assert(state.deleted + records(removed, all_entries(storage, files)) =~= state.deleted);
    }
}

/// A scan that is answered with what the storage holds for each thing it asks
/// for goes through every manifest of the list of the snapshot: it returns what
/// stays of each, with what remains of those that it has asked to be written, in
/// their order, and puts by the records of all their entries.
pub proof fn what_a_scan_asks_for_suffices(
    pending: Option<Seq<ManifestEntry>>,
    removed: RemovedView,
    snapshot: Snapshot,
    storage: Storage,
    write: spec_fn(DraftView) -> ManifestFile,
)
    ensures
        ({
            let (state, command) = scan_start(pending, removed, Some(snapshot));
            let (end, answer) = answered(state, command, storage, write);
            let files = (storage.lists)(snapshot);
            &&& answer == ScanCommandView::Return(all_that_stays(removed, files, storage, write))
            &&& end.pending == Some(records(removed, all_entries(storage, files)))
        }),
{
    let (state, command) = scan_start(pending, removed, Some(snapshot));
    let files = (storage.lists)(snapshot);
    let listed = ScanView { manifests: files, next: 0, ..state };
    rest_is_answered(listed, storage, write);
    assert(files.skip(0) =~= files);
    assert(Seq::<ManifestFile>::empty() + all_that_stays(removed, files, storage, write)
        =~= all_that_stays(removed, files, storage, write));
    assert(Seq::<ManifestEntry>::empty() + records(removed, all_entries(storage, files))
        =~= records(removed, all_entries(storage, files)));
}

/// What a scan asks to be written is what remains of the manifest that was loaded
/// last, under its kind of content and its partition spec.
pub proof fn what_is_written(state: ScanView, entries: Seq<ManifestEntry>)
    requires
        state.expects(ScanEventView::Manifest(entries)),
    ensures
        state.after(ScanEventView::Manifest(entries)).1 matches ScanCommandView::WriteManifest(
            draft,
        ) ==> {
            &&& draft.content == state.manifests[state.next].content
            &&& draft.partition_spec_id == state.manifests[state.next].partition_spec_id
            &&& draft.entries == remains(state.removed, entries)
        },
{
    what_becomes_of_a_manifest(state.removed, state.manifests[state.next], entries);
}

/// The entries of some manifests, one manifest after the other.
pub open spec fn all_entries(storage: Storage, manifests: Seq<ManifestFile>) -> Seq<ManifestEntry> {
    Seq::new(
        manifests.len(),
        |i: int| (storage.entries)(manifests[i].manifest_path@),
    ).flatten()
}

/// The live entries of some manifests are those of all their entries.
proof fn live_entries_go_through(storage: Storage, manifests: Seq<ManifestFile>)
    ensures
        live_entries(storage, manifests) == live_among(all_entries(storage, manifests)),
    decreases manifests.len(),
{
    let parts = Seq::new(
        manifests.len(),
        |i: int| (storage.entries)(manifests[i].manifest_path@),
    );
    if manifests.len() == 0 {
        reveal(Seq::filter);
        assert(live_among(all_entries(storage, manifests)) =~= Seq::empty());
    } else {
        let later = manifests.drop_first();
        live_entries_go_through(storage, later);
        assert(parts.drop_first() =~= Seq::new(
            later.len(),
            |i: int| (storage.entries)(later[i].manifest_path@),
        ));
        assert(all_entries(storage, manifests) =~= parts[0] + all_entries(storage, later));
        Seq::filter_distributes_over_add(
            parts[0],
            all_entries(storage, later),
            |entry: ManifestEntry| entry.alive(),
        );
        assert(live_among(all_entries(storage, manifests)) =~= live_among(parts[0]) + live_among(
            all_entries(storage, later),
        ));
    }
}

/// The live entries whose paths are not removed are what the entries leave.
proof fn live_and_not_removed_remain(removed: RemovedView, entries: Seq<ManifestEntry>)
    ensures
        not_removed(removed, live_among(entries)) == remains(removed, entries),
{
    crate::transaction::laws::carried_are_live_and_not_removed(removed, entries);
    entries_are_recorded_or_carried(removed, entries);
}

/// Where the manifests that are written anew hold what was asked to be written,
/// what the table holds after a scan is what its entries left: the live entries
/// of the manifests that the scan returns are the live entries of the parent's
/// manifests that are not removed, in their order, as existing ones.
pub proof fn live_files_are_kept(
    pending: Option<Seq<ManifestEntry>>,
    removed: RemovedView,
    snapshot: Snapshot,
    storage: Storage,
    files: Seq<ManifestFile>,
    written: Seq<ManifestFile>,
)
    requires
        written.len() == files.len(),
        forall|i: int|
            0 <= i < files.len() && is_written_anew(
                removed,
                (storage.entries)(files[i].manifest_path@),
            ) ==> (storage.entries)((#[trigger] written[i]).manifest_path@) == remains(
                removed,
                (storage.entries)(files[i].manifest_path@),
            ),
    ensures
        ({
            let (state, command) = scan_start(pending, removed, Some(snapshot));
            let events = seq![ScanEventView::ManifestList(files)] + manifest_events(
                removed,
                files,
                contents_of(storage, files),
                written,
            );
            let answer = scan_run(state, command, events).1;
            let nothing = RemovedView { data: Set::empty(), deletes: Set::empty() };
            &&& answer is Return
            &&& remains(nothing, all_entries(storage, answer->Return_0)) == remains(
                removed,
                all_entries(storage, files),
            )
        }),
{
    assert(written_as_asked(storage, removed, files, written)) by {
        assert forall|i: int| 0 <= i < files.len() implies (disposition_of(
            removed,
            #[trigger] files[i],
            storage.entries_of(files[i]),
        ) matches DispositionView::Rewrite(draft) ==> storage.entries_of(written[i])
            == draft.entries) by {
            what_becomes_of_a_manifest(removed, files[i], storage.entries_of(files[i]));
            if disposition_of(removed, files[i], storage.entries_of(files[i])) is Rewrite {
                assert(is_written_anew(removed, (storage.entries)(files[i].manifest_path@)));
                assert((storage.entries)(written[i].manifest_path@) == remains(
                    removed,
                    (storage.entries)(files[i].manifest_path@),
                ));
            }
        }
    }
    scan_keeps_the_live_files(pending, removed, snapshot, storage, files, written);
    let (state, command) = scan_start(pending, removed, Some(snapshot));
    let events = seq![ScanEventView::ManifestList(files)] + manifest_events(
        removed,
        files,
        contents_of(storage, files),
        written,
    );
    let returned = scan_run(state, command, events).1->Return_0;
    let nothing = RemovedView { data: Set::empty(), deletes: Set::empty() };
    live_entries_go_through(storage, returned);
    live_entries_go_through(storage, files);
    live_and_not_removed_remain(removed, all_entries(storage, files));
    live_and_not_removed_remain(nothing, all_entries(storage, returned));
    let live = live_among(all_entries(storage, returned));
    let kept = |entry: ManifestEntry| !is_removed(nothing, entry);
    keep_all(live, kept);
}

/// Keeping everything changes nothing.
proof fn keep_all(entries: Seq<ManifestEntry>, kept: spec_fn(ManifestEntry) -> bool)
    requires
        forall|entry: ManifestEntry| #[trigger] kept(entry),
    ensures
        entries.filter(kept) == entries,
    decreases entries.len(),
{
    reveal(Seq::filter);
    if entries.len() > 0 {
        keep_all(entries.drop_last(), kept);
        assert(entries =~= entries.drop_last().push(entries.last()));
        entries.drop_last().lemma_filter_push(entries.last(), kept);
    } else {
        assert(entries.filter(kept) =~= entries);
    }
}

/// The paths of removed files are those that the files hold, kind by kind.
pub proof fn removed_paths_are_those_of_the_files(producer: SnapshotProducer, path: Seq<char>)
    ensures
        producer.removed().data.contains(path) <==> exists|i: int|
            0 <= i < producer.removed_data_files@.len() && (
            #[trigger] producer.removed_data_files@[i]).file_path@ == path,
        producer.removed().deletes.contains(path) <==> exists|i: int|
            0 <= i < producer.removed_delete_files@.len() && (
            #[trigger] producer.removed_delete_files@[i]).file_path@ == path,
{
    paths_are_those_of_the_files(producer.removed_data_files@, path);
    paths_are_those_of_the_files(producer.removed_delete_files@, path);
}

/// The paths of files are those that they hold.
proof fn paths_are_those_of_the_files(files: Seq<DataFile>, path: Seq<char>)
    ensures
        paths_of(files).contains(path) <==> exists|i: int|
            0 <= i < files.len() && (#[trigger] files[i]).file_path@ == path,
{
    let paths = files.map_values(|file: DataFile| file.path());
    if paths_of(files).contains(path) {
        let i = choose|i: int| 0 <= i < paths.len() && paths[i] == path;
        assert(files[i].file_path@ == path);
    }
    if exists|i: int| 0 <= i < files.len() && (#[trigger] files[i]).file_path@ == path {
        let i = choose|i: int| 0 <= i < files.len() && (#[trigger] files[i]).file_path@ == path;
        assert(paths[i] == path);
        assert(paths.to_set().contains(path));
    }
}

/// A scan starts with the manifest list of a snapshot that a branch of the very
/// name stands for that the new snapshot goes to, which is the target branch, or
/// the main one where none was named. Where no branch has that name, there is
/// nothing to go through, and what waited still waits.
pub proof fn where_a_scan_starts(
    producer: SnapshotProducer,
    metadata: TableMetadata,
    pending: Option<Seq<ManifestEntry>>,
)
    ensures
        producer.target_branch matches Some(name) ==> producer.branch() == name@,
        producer.target_branch is None ==> producer.branch() == seq!['m', 'a', 'i', 'n'],
        ({
            let (state, command) = scan_start(
                pending,
                producer.removed(),
                metadata.tip(producer.branch()),
            );
            match command {
                ScanCommandView::LoadManifestList(snapshot) => metadata.snapshots@.contains(
                    snapshot,
                ) && exists|i: int|
                    0 <= i < metadata.refs@.len() && (#[trigger] metadata.refs@[i]).name@
                        == producer.branch() && metadata.refs@[i].snapshot_id
                        == snapshot.snapshot_id,
                ScanCommandView::Return(files) => files.len() == 0 && state.pending == pending,
                _ => false,
            }
        }),
        (forall|i: int|
            0 <= i < metadata.refs@.len() ==> (#[trigger] metadata.refs@[i]).name@
                != producer.branch()) ==> scan_start(
            pending,
            producer.removed(),
            metadata.tip(producer.branch()),
        ).1 is Return,
        metadata.tip(producer.branch()) matches Some(snapshot) ==> scan_start(
            pending,
            producer.removed(),
            metadata.tip(producer.branch()),
        ).1 == ScanCommandView::LoadManifestList(snapshot),
{
    reveal_strlit("main");
    assert("main"@ =~= seq!['m', 'a', 'i', 'n']);
    tip_is_that_of_the_branch(metadata, producer.branch());
}

/// A delete file may hold deletes for a data file. A position delete file that is
/// known to be about one data file alone may do so for that file; one of which
/// that is not known, and any equality delete file, for those of its partition.
pub open spec fn may_hold_deletes_for(delete: DataFile, file: DataFile) -> bool {
    match delete.content {
        DataContentType::Data => false,
        DataContentType::PositionDeletes => if exists|path: Seq<char>| #[trigger]
            is_about_only(delete, path) {
            is_about_only(delete, file.file_path@)
        } else {
            same_partition(delete, file)
        },
        DataContentType::EqualityDeletes => same_partition(delete, file),
    }
}

/// An entry stands in the way of removing a data file: it is added or existing,
/// has a sequence number above the given one, and may hold deletes for the file.
/// Equality deletes may be left out of account.
pub open spec fn stands_in_the_way(
    entry: ManifestEntry,
    file: DataFile,
    since: i64,
    ignore_equality: bool,
) -> bool {
    &&& entry.status == ManifestStatus::Added || entry.status == ManifestStatus::Existing
    &&& entry.sequence_number is Some
    &&& entry.sequence_number->Some_0 > since
    &&& !(ignore_equality && entry.data_file.content == DataContentType::EqualityDeletes)
    &&& may_hold_deletes_for(entry.data_file, file)
}

/// An entry conflicts with a data file exactly where it stands in the way of
/// removing it.
pub proof fn what_a_conflict_is(
    entry: ManifestEntry,
    file: DataFile,
    since: i64,
    ignore_equality: bool,
)
    ensures
        conflicts(entry, file, since, ignore_equality) <==> stands_in_the_way(
            entry,
            file,
            since,
            ignore_equality,
        ),
{
    let delete = entry.data_file;
    partitions_are_compared_field_by_field(delete, file);
    only_target_is_referenced_or_bounded(delete, file.file_path@);
    if delete.only_target() is Some {
        let path = delete.only_target()->Some_0;
        only_target_is_referenced_or_bounded(delete, path);
        assert(is_about_only(delete, path));
    }
    if exists|path: Seq<char>| #[trigger] is_about_only(delete, path) {
        let path = choose|path: Seq<char>| #[trigger] is_about_only(delete, path);
        only_target_is_referenced_or_bounded(delete, path);
    }
}

/// A new position delete file whose one data file is known conflicts with a data
/// file exactly where that is its path, however it is known: through a reference,
/// or through lower and upper bounds of the `file_path` column that are equal.
pub proof fn known_targets_decide(
    entry: ManifestEntry,
    file: DataFile,
    target: Seq<char>,
    since: i64,
    ignore_equality: bool,
)
    requires
        entry.status != ManifestStatus::Deleted,
        entry.sequence_number matches Some(number) && number > since,
        entry.data_file.content == DataContentType::PositionDeletes,
        match entry.data_file.referenced_data_file {
            Some(referenced) => referenced@ == target,
            None => path_is_bounded_by(entry.data_file.lower_bounds@, target)
                && path_is_bounded_by(entry.data_file.upper_bounds@, target),
        },
    ensures
        conflicts(entry, file, since, ignore_equality) <==> file.file_path@ == target,
{
    what_a_conflict_is(entry, file, since, ignore_equality);
    let delete = entry.data_file;
    assert(is_about_only(delete, target));
    only_target_is_referenced_or_bounded(delete, target);
    only_target_is_referenced_or_bounded(delete, file.file_path@);
}

/// One of the entries stands in the way of removing a data file.
pub open spec fn one_stands_in_the_way(
    entries: Seq<ManifestEntry>,
    file: DataFile,
    since: i64,
    ignore_equality: bool,
) -> bool {
    exists|e: int|
        0 <= e < entries.len() && stands_in_the_way(
            #[trigger] entries[e],
            file,
            since,
            ignore_equality,
        )
}

/// The data file that is found endangered is the first that one of the entries
/// stands in the way of; where none is found, they stand in the way of none.
pub proof fn which_file_is_endangered(
    files: Seq<DataFile>,
    entries: Seq<ManifestEntry>,
    since: i64,
    ignore_equality: bool,
)
    ensures
        first_endangered(files, entries, since, ignore_equality) matches Some(file) ==> exists|
            f: int,
        |
            0 <= f < files.len() && #[trigger] files[f] == file && one_stands_in_the_way(
                entries,
                file,
                since,
                ignore_equality,
            ) && forall|g: int|
                0 <= g < f ==> !one_stands_in_the_way(
                    entries,
                    #[trigger] files[g],
                    since,
                    ignore_equality,
                ),
        first_endangered(files, entries, since, ignore_equality) is None ==> forall|f: int|
            0 <= f < files.len() ==> !one_stands_in_the_way(
                entries,
                #[trigger] files[f],
                since,
                ignore_equality,
            ),
    decreases files.len(),
{
    if files.len() > 0 {
        entries_endanger_what_they_stand_in_the_way_of(entries, files[0], since, ignore_equality);
        if endangers(entries, files[0], since, ignore_equality) {
            assert(files[0] == files[0]);
        } else {
            let rest = files.drop_first();
            which_file_is_endangered(rest, entries, since, ignore_equality);
            match first_endangered(rest, entries, since, ignore_equality) {
                Some(file) => {
                    let f = choose|f: int|
                        0 <= f < rest.len() && #[trigger] rest[f] == file && forall|g: int|
                            0 <= g < f ==> !one_stands_in_the_way(
                                entries,
                                #[trigger] rest[g],
                                since,
                                ignore_equality,
                            );
                    assert(files[f + 1] == file);
                    assert forall|g: int| 0 <= g < f + 1 implies !one_stands_in_the_way(
                        entries,
                        #[trigger] files[g],
                        since,
                        ignore_equality,
                    ) by {
                        if g > 0 {
                            assert(rest[g - 1] == files[g]);
                        }
                    }
                },
                None => {
                    assert forall|f: int| 0 <= f < files.len() implies !one_stands_in_the_way(
                        entries,
                        #[trigger] files[f],
                        since,
                        ignore_equality,
                    ) by {
                        if f > 0 {
                            assert(rest[f - 1] == files[f]);
                        }
                    }
                },
            }
        }
    }
}

/// Entries endanger a data file exactly where one of them stands in the way.
proof fn entries_endanger_what_they_stand_in_the_way_of(
    entries: Seq<ManifestEntry>,
    file: DataFile,
    since: i64,
    ignore_equality: bool,
)
    ensures
        endangers(entries, file, since, ignore_equality) <==> one_stands_in_the_way(
            entries,
            file,
            since,
            ignore_equality,
        ),
{
    assert forall|e: int| 0 <= e < entries.len() implies conflicts(
        #[trigger] entries[e],
        file,
        since,
        ignore_equality,
    ) == stands_in_the_way(entries[e], file, since, ignore_equality) by {
        what_a_conflict_is(entries[e], file, since, ignore_equality);
    }
}

/// The manifests of a list that are looked at are its delete manifests that the
/// snapshot added, in their order.
pub proof fn which_manifests_are_looked_at(snapshot: Snapshot, list: Seq<ManifestFile>)
    ensures
        new_delete_manifests(snapshot, list) == list.filter(
            |file: ManifestFile|
                file.content == ManifestContentType::Deletes && file.added_snapshot_id
                    == snapshot.snapshot_id,
        ),
{
}

/// The snapshots have ids that differ.
pub open spec fn ids_differ(snapshots: Seq<Snapshot>) -> bool {
    forall|i: int, j: int|
        0 <= i < j < snapshots.len() ==> (#[trigger] snapshots[i]).snapshot_id != (
        #[trigger] snapshots[j]).snapshot_id
}

/// The snapshots lead from what a branch stands for back to the given one, which
/// is left out: each but the last has the next one for its parent, and the last
/// one the given one.
pub open spec fn leads_back(
    metadata: TableMetadata,
    branch: Seq<char>,
    start: i64,
    chain: Seq<Snapshot>,
) -> bool {
    &&& exists|i: int|
        0 <= i < metadata.refs@.len() && (#[trigger] metadata.refs@[i]).name@ == branch
            && metadata.refs@[i].snapshot_id == (if chain.len() == 0 {
            start
        } else {
            chain[0].snapshot_id
        }) && forall|j: int| 0 <= j < i ==> (#[trigger] metadata.refs@[j]).name@ != branch
    &&& forall|i: int| 0 <= i < chain.len() ==> #[trigger] leads_on(metadata, start, chain, i)
}

/// One of the snapshots that lead back: it is there, is not the given one, and
/// has the next one for its parent, or the given one behind the last.
pub open spec fn leads_on(
    metadata: TableMetadata,
    start: i64,
    chain: Seq<Snapshot>,
    i: int,
) -> bool {
    &&& metadata.snapshots@.contains(chain[i])
    &&& chain[i].snapshot_id != start
    &&& chain[i].parent_snapshot_id == Some(
        if i + 1 < chain.len() {
            chain[i + 1].snapshot_id
        } else {
            start
        },
    )
}

/// One of the snapshots has the given id.
pub open spec fn has_snapshot(metadata: TableMetadata, id: i64) -> bool {
    exists|i: int|
        0 <= i < metadata.snapshots@.len() && (#[trigger] metadata.snapshots@[i]).snapshot_id == id
}

/// The tip is what the first branch of the name stands for.
proof fn first_branch_gives_the_tip(metadata: TableMetadata, branch: Seq<char>, at: int)
    requires
        0 <= at < metadata.refs@.len(),
        metadata.refs@[at].name@ == branch,
        forall|j: int| 0 <= j < at ==> (#[trigger] metadata.refs@[j]).name@ != branch,
    ensures
        metadata.tip(branch) == find_snapshot(
            metadata.snapshots@,
            metadata.refs@[at].snapshot_id,
        ),
{
    refs_are_found_by_name(metadata.refs@, branch);
    assert(metadata.refs@[at].name@ == branch);
    let id = find_ref(metadata.refs@, branch)->Some_0;
    let i = choose|i: int|
        0 <= i < metadata.refs@.len() && (#[trigger] metadata.refs@[i]).name@ == branch
            && metadata.refs@[i].snapshot_id == id && forall|j: int|
            0 <= j < i ==> (#[trigger] metadata.refs@[j]).name@ != branch;
    if i < at {
        assert(metadata.refs@[i].name@ != branch);
    } else if at < i {
        assert(metadata.refs@[at].name@ != branch);
    }
}

/// The snapshots that lead back are the ancestors of the tip, in their order.
proof fn chain_is_ancestry(
    metadata: TableMetadata,
    branch: Seq<char>,
    start: i64,
    chain: Seq<Snapshot>,
    n: int,
)
    requires
        ids_differ(metadata.snapshots@),
        has_snapshot(metadata, start),
        leads_back(metadata, branch, start, chain),
        0 <= n <= chain.len(),
    ensures
        n < chain.len() ==> ancestor(metadata.snapshots@, metadata.tip(branch), n as nat) == Some(
            chain[n],
        ),
        n == chain.len() ==> lies_back(
            metadata.snapshots@,
            metadata.tip(branch),
            start,
            n as nat,
        ),
    decreases n,
{
    let snapshots = metadata.snapshots@;
    let at = choose|i: int|
        0 <= i < metadata.refs@.len() && (#[trigger] metadata.refs@[i]).name@ == branch
            && metadata.refs@[i].snapshot_id == (if chain.len() == 0 {
            start
        } else {
            chain[0].snapshot_id
        }) && forall|j: int| 0 <= j < i ==> (#[trigger] metadata.refs@[j]).name@ != branch;
    first_branch_gives_the_tip(metadata, branch, at);
    let s = choose|s: int|
        0 <= s < snapshots.len() && (#[trigger] snapshots[s]).snapshot_id == start;
    each_snapshot_is_found(snapshots, s);
    if n < chain.len() {
        assert(leads_on(metadata, start, chain, n));
        let k = choose|k: int| 0 <= k < snapshots.len() && snapshots[k] == chain[n];
        each_snapshot_is_found(snapshots, k);
    }
    if n > 0 {
        chain_is_ancestry(metadata, branch, start, chain, n - 1);
        assert(leads_on(metadata, start, chain, n - 1));
    }
}

/// Where ids differ and the starting snapshot is there, the history of a branch
/// is the one chain of snapshots that leads back to it; it is known wherever there
/// is such a chain, and nowhere else.
pub proof fn history_is_the_chain(
    metadata: TableMetadata,
    branch: Seq<char>,
    start: i64,
    chain: Seq<Snapshot>,
)
    requires
        ids_differ(metadata.snapshots@),
        has_snapshot(metadata, start),
    ensures
        leads_back(metadata, branch, start, chain) ==> history_since(metadata, branch, start)
            == Some(chain),
        history_since(metadata, branch, start) matches Some(history) ==> leads_back(
            metadata,
            branch,
            start,
            history,
        ),
{
    let snapshots = metadata.snapshots@;
    let tip = metadata.tip(branch);
    history_is_complete(metadata, branch, start);
    if leads_back(metadata, branch, start, chain) {
        chain_is_ancestry(metadata, branch, start, chain, chain.len() as int);
        let history = history_since(metadata, branch, start)->Some_0;
        assert(history_since(metadata, branch, start) is Some);
        if history.len() < chain.len() {
            chain_is_ancestry(metadata, branch, start, chain, history.len() as int);
            assert(leads_on(metadata, start, chain, history.len() as int));
        } else if chain.len() < history.len() {
            assert(history[chain.len() as int].snapshot_id != start);
        }
        assert forall|i: int| 0 <= i < chain.len() implies history[i] == chain[i] by {
            chain_is_ancestry(metadata, branch, start, chain, i);
            assert(ancestor(snapshots, tip, i as nat) == Some(history[i]));
        }
        assert(history =~= chain);
    }
    if let Some(history) = history_since(metadata, branch, start) {
        history_leads_back(metadata, branch, start, history);
    }
}

/// A known history leads back.
proof fn history_leads_back(
    metadata: TableMetadata,
    branch: Seq<char>,
    start: i64,
    history: Seq<Snapshot>,
)
    requires
        history_since(metadata, branch, start) == Some(history),
    ensures
        leads_back(metadata, branch, start, history),
{
    let snapshots = metadata.snapshots@;
    let tip = metadata.tip(branch);
    history_is_complete(metadata, branch, start);
    assert(ancestor(snapshots, tip, 0) == tip);
    if history.len() > 0 {
        assert(ancestor(snapshots, tip, 0) == Some(history[0]));
    }
    refs_are_found_by_name(metadata.refs@, branch);
    let id = find_ref(metadata.refs@, branch)->Some_0;
    assert(tip is Some);
    snapshots_are_found_by_id(snapshots, id);
    let at = choose|i: int|
        0 <= i < metadata.refs@.len() && (#[trigger] metadata.refs@[i]).name@ == branch
            && metadata.refs@[i].snapshot_id == id && forall|j: int|
            0 <= j < i ==> (#[trigger] metadata.refs@[j]).name@ != branch;
    assert(metadata.refs@[at].snapshot_id == tip->Some_0.snapshot_id);
    assert forall|i: int| 0 <= i < history.len() implies #[trigger] leads_on(
        metadata,
        start,
        history,
        i,
    ) by {
        assert(ancestor(snapshots, tip, i as nat) == Some(history[i]));
        if i == 0 {
            assert(snapshots.contains(tip->Some_0));
        } else {
            assert(ancestor(snapshots, tip, (i - 1) as nat) == Some(history[i - 1]));
            snapshots_are_found_by_id(snapshots, history[i - 1].parent_snapshot_id->Some_0);
        }
        let next = ancestor(snapshots, tip, (i + 1) as nat);
        assert(next == parent_of(snapshots, history[i]));
        if i + 1 < history.len() {
            assert(next == Some(history[i + 1]));
        } else {
            assert(next is Some && next->Some_0.snapshot_id == start);
        }
        snapshots_are_found_by_id(snapshots, history[i].parent_snapshot_id->Some_0);
    }
}

/// A snapshot added a delete manifest with an entry that stands in the way of
/// removing a data file.
pub open spec fn added_in_the_way(
    storage: Storage,
    snapshot: Snapshot,
    file: DataFile,
    since: i64,
    ignore_equality: bool,
) -> bool {
    exists|manifest: ManifestFile, entry: ManifestEntry|
        (storage.lists)(snapshot).contains(manifest) && manifest.content
            == ManifestContentType::Deletes && manifest.added_snapshot_id == snapshot.snapshot_id
            && #[trigger] (storage.entries)(manifest.manifest_path@).contains(entry)
            && stands_in_the_way(entry, file, since, ignore_equality)
}

/// What a snapshot endangers is what it added in the way of removing.
proof fn what_a_snapshot_endangers(
    storage: Storage,
    snapshot: Snapshot,
    file: DataFile,
    since: i64,
    ignore_equality: bool,
)
    ensures
        snapshot_endangers(storage, snapshot, file, since, ignore_equality) <==> added_in_the_way(
            storage,
            snapshot,
            file,
            since,
            ignore_equality,
        ),
{
    let list = (storage.lists)(snapshot);
    let is_new = |file: ManifestFile|
        file.content == ManifestContentType::Deletes && file.added_snapshot_id
            == snapshot.snapshot_id;
    let manifests = new_delete_manifests(snapshot, list);
    assert(manifests == list.filter(is_new));
    if snapshot_endangers(storage, snapshot, file, since, ignore_equality) {
        let i = choose|i: int|
            0 <= i < manifests.len() && endangers(
                storage.entries_of(#[trigger] manifests[i]),
                file,
                since,
                ignore_equality,
            );
        let manifest = manifests[i];
        list.lemma_filter_pred(is_new, i);
        list.lemma_filter_contains_rev(is_new, manifest);
        let entries = storage.entries_of(manifest);
        let e = choose|e: int|
            0 <= e < entries.len() && conflicts(
                #[trigger] entries[e],
                file,
                since,
                ignore_equality,
            );
        what_a_conflict_is(entries[e], file, since, ignore_equality);
        assert((storage.entries)(manifest.manifest_path@).contains(entries[e]));
    }
    if added_in_the_way(storage, snapshot, file, since, ignore_equality) {
        let (manifest, entry) = choose|manifest: ManifestFile, entry: ManifestEntry|
            (storage.lists)(snapshot).contains(manifest) && manifest.content
                == ManifestContentType::Deletes && manifest.added_snapshot_id
                == snapshot.snapshot_id && #[trigger] (storage.entries)(
                manifest.manifest_path@,
            ).contains(entry) && stands_in_the_way(entry, file, since, ignore_equality);
        let m = choose|m: int| 0 <= m < list.len() && list[m] == manifest;
        list.lemma_filter_contains(is_new, m);
        let i = choose|i: int| 0 <= i < manifests.len() && manifests[i] == manifest;
        let entries = storage.entries_of(manifests[i]);
        let e = choose|e: int| 0 <= e < entries.len() && entries[e] == entry;
        what_a_conflict_is(entries[e], file, since, ignore_equality);
        assert(conflicts(entries[e], file, since, ignore_equality));
        assert(endangers(storage.entries_of(manifests[i]), file, since, ignore_equality));
    }
}

/// What becomes of the manifests of a new snapshot is what the choices say.
pub proof fn manifests_are_merged_as_chosen(choices: ReplaceFilesView)
    ensures
        choices.merge_enabled ==> process_of(choices) == (ManifestProcess::Merge {
            target_size_bytes: choices.target_size_bytes,
            min_count_to_merge: choices.min_count_to_merge,
        }),
        !choices.merge_enabled ==> process_of(choices) == ManifestProcess::Default,
{
}

/// A commit that was not told where it started from goes ahead, whatever the
/// storage holds.
pub proof fn commits_without_a_start_go_ahead(
    choices: ReplaceFilesView,
    commit_uuid: CommitUuid,
    metadata: TableMetadata,
    storage: Storage,
)
    requires
        choices.validate_from_snapshot_id is None,
    ensures
        ({
            let (state, command) = commit_start(choices, commit_uuid, metadata);
            outcome(state, command, storage) is Commit
        }),
{
    commit_outcome(choices, commit_uuid, metadata, storage);
}

/// A commit fails where the snapshot that it started from is gone, or no chain of
/// snapshots leads back to it from the branch that it goes to.
pub proof fn commits_from_elsewhere_fail(
    choices: ReplaceFilesView,
    commit_uuid: CommitUuid,
    metadata: TableMetadata,
    storage: Storage,
    start: i64,
    branch: Seq<char>,
)
    requires
        choices.validate_from_snapshot_id == Some(start),
        branch == (match choices.target_branch {
            Some(name) => name,
            None => seq!['m', 'a', 'i', 'n'],
        }),
        ids_differ(metadata.snapshots@),
        !has_snapshot(metadata, start) || forall|chain: Seq<Snapshot>|
            !#[trigger] leads_back(metadata, branch, start, chain),
    ensures
        ({
            let (state, command) = commit_start(choices, commit_uuid, metadata);
            let result = outcome(state, command, storage);
            &&& result is Fail
            &&& result->Fail_0.kind == ErrorKind::DataInvalid
            &&& !result->Fail_0.retryable
        }),
{
    reveal_strlit("main");
    assert("main"@ =~= seq!['m', 'a', 'i', 'n']);
    commit_outcome(choices, commit_uuid, metadata, storage);
    snapshots_are_found_by_id(metadata.snapshots@, start);
    if find_snapshot(metadata.snapshots@, start) is Some {
        assert(has_snapshot(metadata, start));
        if let Some(history) = history_since(metadata, branch, start) {
            history_is_the_chain(metadata, branch, start, history);
        }
    }
}

/// One of the snapshots added a delete file that stands in the way of removing a
/// data file.
pub open spec fn deletes_were_added(
    storage: Storage,
    chain: Seq<Snapshot>,
    file: DataFile,
    since: i64,
    ignore_equality: bool,
) -> bool {
    exists|s: int|
        0 <= s < chain.len() && added_in_the_way(
            storage,
            #[trigger] chain[s],
            file,
            since,
            ignore_equality,
        )
}

/// What a history endangers is what its snapshots added in the way of removing.
proof fn what_a_history_endangers(
    storage: Storage,
    chain: Seq<Snapshot>,
    file: DataFile,
    since: i64,
    ignore_equality: bool,
)
    ensures
        history_endangers(storage, chain, file, since, ignore_equality) <==> deletes_were_added(
            storage,
            chain,
            file,
            since,
            ignore_equality,
        ),
{
    assert forall|s: int| 0 <= s < chain.len() implies snapshot_endangers(
        storage,
        #[trigger] chain[s],
        file,
        since,
        ignore_equality,
    ) == added_in_the_way(storage, chain[s], file, since, ignore_equality) by {
        what_a_snapshot_endangers(storage, chain[s], file, since, ignore_equality);
    }
}

/// The failure names a data file by its path, and is none that goes away when the
/// commit is tried again.
pub open spec fn tells_of_conflict(command: CommitCommandView, file: DataFile) -> bool {
    &&& command is Fail
    &&& command->Fail_0.kind == ErrorKind::DataInvalid
    &&& !command->Fail_0.retryable
    &&& exists|i: int|
        0 <= i < command->Fail_0.context.len() && (#[trigger] command->Fail_0.context[i]).1
            == file.file_path@
}

/// A commit that started from a snapshot to which a chain of snapshots leads back
/// fails exactly where one of the snapshots of that chain added a delete file
/// that stands in the way of a data file that the commit removes; the failure
/// names such a data file. Otherwise it goes ahead. Equality deletes are left
/// out of account exactly where added data files keep a sequence number of their
/// own.
pub proof fn commits_fail_for_new_deletes(
    choices: ReplaceFilesView,
    commit_uuid: CommitUuid,
    metadata: TableMetadata,
    storage: Storage,
    start: int,
    branch: Seq<char>,
    chain: Seq<Snapshot>,
)
    requires
        0 <= start < metadata.snapshots@.len(),
        choices.validate_from_snapshot_id == Some(metadata.snapshots@[start].snapshot_id),
        branch == (match choices.target_branch {
            Some(name) => name,
            None => seq!['m', 'a', 'i', 'n'],
        }),
        ids_differ(metadata.snapshots@),
        leads_back(metadata, branch, metadata.snapshots@[start].snapshot_id, chain),
    ensures
        ({
            let (state, command) = commit_start(choices, commit_uuid, metadata);
            let result = outcome(state, command, storage);
            let files = choices.removed_data_files;
            let since = metadata.snapshots@[start].sequence_number;
            let ignore_equality = choices.new_data_file_sequence_number is Some;
            if exists|f: int|
                0 <= f < files.len() && deletes_were_added(
                    storage,
                    chain,
                    #[trigger] files[f],
                    since,
                    ignore_equality,
                ) {
                exists|f: int|
                    0 <= f < files.len() && deletes_were_added(
                        storage,
                        chain,
                        #[trigger] files[f],
                        since,
                        ignore_equality,
                    ) && tells_of_conflict(result, files[f])
            } else {
                result is Commit
            }
        }),
{
    reveal_strlit("main");
    assert("main"@ =~= seq!['m', 'a', 'i', 'n']);
    let id = metadata.snapshots@[start].snapshot_id;
    let since = metadata.snapshots@[start].sequence_number;
    let ignore_equality = choices.new_data_file_sequence_number is Some;
    let files = choices.removed_data_files;
    let (state, command) = commit_start(choices, commit_uuid, metadata);
    let result = outcome(state, command, storage);
    assert(branch_or_main(choices.target_branch) == branch);
    assert(find_snapshot(metadata.snapshots@, id) == Some(metadata.snapshots@[start])) by {
        each_snapshot_is_found(metadata.snapshots@, start);
    }
    assert(history_since(metadata, branch, id) == Some(chain)) by {
        assert(has_snapshot(metadata, id));
        history_is_the_chain(metadata, branch, id, chain);
    }
    assert(if any_endangered(storage, chain, files, since, ignore_equality) {
        fails_for_an_endangered_file(result, storage, chain, files, since, ignore_equality)
    } else {
        result == CommitCommandView::Commit(process_of(choices))
    }) by {
        commit_outcome(choices, commit_uuid, metadata, storage);
    }
    conflicts_are_told(storage, chain, files, since, ignore_equality, result, process_of(choices));
}

/// What a commit comes to for the data files that a history endangers.
proof fn conflicts_are_told(
    storage: Storage,
    chain: Seq<Snapshot>,
    files: Seq<DataFile>,
    since: i64,
    ignore_equality: bool,
    result: CommitCommandView,
    process: ManifestProcess,
)
    requires
        if any_endangered(storage, chain, files, since, ignore_equality) {
            fails_for_an_endangered_file(result, storage, chain, files, since, ignore_equality)
        } else {
            result == CommitCommandView::Commit(process)
        },
    ensures
        if exists|f: int|
            0 <= f < files.len() && deletes_were_added(
                storage,
                chain,
                #[trigger] files[f],
                since,
                ignore_equality,
            ) {
            exists|f: int|
                0 <= f < files.len() && deletes_were_added(
                    storage,
                    chain,
                    #[trigger] files[f],
                    since,
                    ignore_equality,
                ) && tells_of_conflict(result, files[f])
        } else {
            result is Commit
        },
{
    assert forall|f: int| 0 <= f < files.len() implies history_endangers(
        storage,
        chain,
        #[trigger] files[f],
        since,
        ignore_equality,
    ) == deletes_were_added(storage, chain, files[f], since, ignore_equality) by {
        what_a_history_endangers(storage, chain, files[f], since, ignore_equality);
    }
    if any_endangered(storage, chain, files, since, ignore_equality) {
        let f = choose|f: int|
            0 <= f < files.len() && history_endangers(
                storage,
                chain,
                #[trigger] files[f],
                since,
                ignore_equality,
            ) && result == CommitCommandView::Fail(conflict_error(files[f].path(), ignore_equality));
        assert(result->Fail_0.context[1].1 == files[f].file_path@);
        assert(tells_of_conflict(result, files[f]));
    }
}

/// A commit hands on each choice for the snapshot as it was made, under the given
/// identifier, and looks the files up first exactly where that was chosen.
pub proof fn commits_carry_every_choice(
    choices: ReplaceFilesView,
    commit_uuid: CommitUuid,
    metadata: TableMetadata,
)
    ensures
        ({
            let (state, command) = commit_start(choices, commit_uuid, metadata);
            let producer = state.producer;
            &&& producer.commit_uuid == commit_uuid
            &&& producer.key_metadata == choices.key_metadata
            &&& producer.snapshot_id == choices.snapshot_id
            &&& producer.snapshot_properties == choices.snapshot_properties
            &&& producer.added_data_files == choices.added_data_files
            &&& producer.added_delete_files == choices.added_delete_files
            &&& producer.removed_data_files == choices.removed_data_files
            &&& producer.removed_delete_files == choices.removed_delete_files
            &&& producer.new_data_file_sequence_number == choices.new_data_file_sequence_number
            &&& producer.target_branch == choices.target_branch
            &&& producer.delete_filter_manager_enabled == choices.enable_delete_filter_manager
            &&& command is ValidateDataFileChanges <==> choices.check_file_existence
            &&& command matches CommitCommandView::Commit(process) ==> process == process_of(
                choices,
            )
            &&& state.process == process_of(choices)
        }),
{
}

/// A new action replaces nothing, names no branch, chooses no identifiers, merges
/// no manifests and validates nothing.
pub proof fn new_actions_choose_nothing()
    ensures
        ({
            let choices = default_choices();
            &&& choices.added_data_files.len() == 0
            &&& choices.added_delete_files.len() == 0
            &&& choices.removed_data_files.len() == 0
            &&& choices.removed_delete_files.len() == 0
            &&& choices.commit_uuid is None
            &&& choices.key_metadata is None
            &&& choices.snapshot_id is None
            &&& choices.new_data_file_sequence_number is None
            &&& choices.target_branch is None
            &&& choices.validate_from_snapshot_id is None
            &&& choices.snapshot_properties == Map::<Seq<char>, Seq<char>>::empty()
            &&& !choices.enable_delete_filter_manager
            &&& !choices.check_file_existence
            &&& !choices.merge_enabled
            &&& choices.target_size_bytes == 8_388_608
            &&& choices.min_count_to_merge == 100
        }),
{
}

/// Files are added, or removed, by their content: data files behind data files and
/// position and equality delete files behind delete files, in their order.
/// Nothing else changes.
pub proof fn files_are_sorted_by_content(choices: ReplaceFilesView, files: Seq<DataFile>)
    ensures
        ({
            let data = files.filter(|file: DataFile| file.content == DataContentType::Data);
            let deletes = files.filter(
                |file: DataFile|
                    file.content == DataContentType::PositionDeletes || file.content
                        == DataContentType::EqualityDeletes,
            );
            &&& choices.adding(files) == (ReplaceFilesView {
                added_data_files: choices.added_data_files + data,
                added_delete_files: choices.added_delete_files + deletes,
                ..choices
            })
            &&& choices.removing(files) == (ReplaceFilesView {
                removed_data_files: choices.removed_data_files + data,
                removed_delete_files: choices.removed_delete_files + deletes,
                ..choices
            })
        }),
{
    assert((|file: DataFile| !file.holds_deletes()) =~= (|file: DataFile|
        file.content == DataContentType::Data));
    assert((|file: DataFile| file.holds_deletes()) =~= (|file: DataFile|
        file.content == DataContentType::PositionDeletes || file.content
            == DataContentType::EqualityDeletes));
}

/// What the properties say of merging manifests is read from those three that
/// are about it, each on its own; one that is not given or cannot be read counts
/// as it does in a new action. The properties themselves are kept, and nothing
/// else changes.
pub proof fn properties_tell_how_to_merge(
    choices: ReplaceFilesView,
    properties: Map<Seq<char>, Seq<char>>,
)
    ensures
        ({
            let size = "commit.manifest.target-size-bytes"@;
            let count = "commit.manifest.min-count-to-merge"@;
            let merge = "commit.manifest-merge.enabled"@;
            let set = choices.with_properties(properties);
            &&& set.snapshot_properties == properties
            &&& set == (ReplaceFilesView {
                target_size_bytes: set.target_size_bytes,
                min_count_to_merge: set.min_count_to_merge,
                merge_enabled: set.merge_enabled,
                snapshot_properties: properties,
                ..choices
            })
            &&& properties.contains_key(size) && u32_of(properties[size]) is Some
                ==> set.target_size_bytes == u32_of(properties[size])->Some_0
            &&& !(properties.contains_key(size) && u32_of(properties[size]) is Some)
                ==> set.target_size_bytes == default_choices().target_size_bytes
            &&& properties.contains_key(count) && u32_of(properties[count]) is Some
                ==> set.min_count_to_merge == u32_of(properties[count])->Some_0
            &&& !(properties.contains_key(count) && u32_of(properties[count]) is Some)
                ==> set.min_count_to_merge == default_choices().min_count_to_merge
            &&& properties.contains_key(merge) && bool_of(properties[merge]) is Some
                ==> set.merge_enabled == bool_of(properties[merge])->Some_0
            &&& !(properties.contains_key(merge) && bool_of(properties[merge]) is Some)
                ==> set.merge_enabled == default_choices().merge_enabled
        }),
{
}

/// The value of what a snapshot is made of holds each of its parts.
pub proof fn producers_are_what_they_hold(producer: SnapshotProducer)
    ensures
        producer@.commit_uuid == producer.commit_uuid,
        producer.key_metadata matches Some(key) ==> producer@.key_metadata == Some(key@),
        producer.key_metadata is None ==> producer@.key_metadata is None,
        producer@.snapshot_id == producer.snapshot_id,
        producer@.snapshot_properties == producer.snapshot_properties@,
        producer@.added_data_files == producer.added_data_files@,
        producer@.added_delete_files == producer.added_delete_files@,
        producer@.removed_data_files == producer.removed_data_files@,
        producer@.removed_delete_files == producer.removed_delete_files@,
        producer@.new_data_file_sequence_number == producer.new_data_file_sequence_number,
        producer.target_branch matches Some(name) ==> producer@.target_branch == Some(name@),
        producer.target_branch is None ==> producer@.target_branch is None,
        producer@.delete_filter_manager_enabled == producer.delete_filter_manager_enabled,
{
}

/// The values of events are what they hold.
pub proof fn events_are_taken_as_they_are(
    files: Vec<ManifestFile>,
    entries: Vec<ManifestEntry>,
    file: ManifestFile,
    error: Error,
)
    ensures
        ScanEvent::ManifestList(files)@ == ScanEventView::ManifestList(files@),
        ScanEvent::Manifest(entries)@ == ScanEventView::Manifest(entries@),
        ScanEvent::Written(file)@ == ScanEventView::Written(file),
        ScanEvent::Failed(error)@ == ScanEventView::Failed(error),
        CommitEvent::DataFilesValid@ == CommitEventView::DataFilesValid,
        CommitEvent::ManifestList(files)@ == CommitEventView::ManifestList(files@),
        CommitEvent::Manifest(entries)@ == CommitEventView::Manifest(entries@),
        CommitEvent::Failed(error)@ == CommitEventView::Failed(error@),
        error@.kind == error.kind,
        error@.message == error.message@,
        error@.retryable == error.retryable,
        error@.context.len() == error.context@.len(),
        forall|i: int|
            0 <= i < error.context@.len() ==> (#[trigger] error@.context[i]).0
                == error.context@[i].0@ && error@.context[i].1 == error.context@[i].1@,
{
}

/// The values of commands are what they ask for.
pub proof fn commands_are_what_they_ask_for(
    snapshot: Snapshot,
    file: ManifestFile,
    draft: ManifestDraft,
    files: Vec<ManifestFile>,
    process: ManifestProcess,
    error: Error,
)
    ensures
        ScanCommand::LoadManifestList(snapshot)@ == ScanCommandView::LoadManifestList(snapshot),
        ScanCommand::LoadManifest(file)@ == ScanCommandView::LoadManifest(file),
        ScanCommand::WriteManifest(draft)@ is WriteManifest,
        ScanCommand::WriteManifest(draft)@->WriteManifest_0.content == draft.content,
        ScanCommand::WriteManifest(draft)@->WriteManifest_0.partition_spec_id
            == draft.partition_spec_id,
        ScanCommand::WriteManifest(draft)@->WriteManifest_0.entries == draft.entries@,
        ScanCommand::Return(Ok(files))@ == ScanCommandView::Return(files@),
        ScanCommand::Return(Err(error))@ == ScanCommandView::Fail(error),
        CommitCommand::ValidateDataFileChanges@ == CommitCommandView::ValidateDataFileChanges,
        CommitCommand::LoadManifestList(snapshot)@ == CommitCommandView::LoadManifestList(snapshot),
        CommitCommand::LoadManifest(file)@ == CommitCommandView::LoadManifest(file),
        CommitCommand::Commit(process)@ == CommitCommandView::Commit(process),
        CommitCommand::Fail(error)@ == CommitCommandView::Fail(error@),
{
}

/// The values of decisions and plans are what they hold.
pub proof fn decisions_are_what_they_hold(
    draft: ManifestDraft,
    snapshot: Snapshot,
    file: ManifestFile,
    error: Error,
    check: DeleteCheck,
)
    ensures
        Disposition::Keep@ == DispositionView::Keep,
        Disposition::Drop@ == DispositionView::Drop,
        Disposition::Rewrite(draft)@ == DispositionView::Rewrite(draft@),
        draft@.content == draft.content,
        draft@.partition_spec_id == draft.partition_spec_id,
        draft@.entries == draft.entries@,
        CheckCommand::LoadManifestList(snapshot)@ == CheckCommandView::LoadManifestList(snapshot),
        CheckCommand::LoadManifest(file)@ == CheckCommandView::LoadManifest(file),
        CheckCommand::Accept@ == CheckCommandView::Accept,
        CheckCommand::Reject(error)@ == CheckCommandView::Reject(error@),
        CheckPlan::Skip@ == CheckPlanView::Skip,
        CheckPlan::Refuse(error)@ == CheckPlanView::Refuse(error@),
        CheckPlan::Check(check)@ == CheckPlanView::Check(check@),
{
}

} // verus!

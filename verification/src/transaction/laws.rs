//! What holds of replacing files as a whole.

use vstd::prelude::*;

use crate::error::Error;
use crate::metadata::manifest::{ManifestEntry, ManifestFile, ManifestStatus};
use crate::metadata::storage::Storage;
use crate::metadata::table::Snapshot;
use crate::transaction::existing_manifest::{
    any_removed, carried_entries, disposition_of, is_marked, is_removed, marked_entries,
    marks_numbered, survives, with_status, DispositionView,
};
use crate::transaction::manifest_scan::{
    scan_start, ScanCommandView, ScanEventView, ScanPhase, ScanView,
};
use crate::transaction::snapshot::RemovedView;

verus! {

/// The state after a sequence of events and what to do then.
pub open spec fn scan_run(
    state: ScanView,
    command: ScanCommandView,
    events: Seq<ScanEventView>,
) -> (ScanView, ScanCommandView)
    decreases events.len(),
{
    if events.len() == 0 {
        (state, command)
    } else {
        let next = state.after(events[0]);
        scan_run(next.0, next.1, events.drop_first())
    }
}

/// What happens while a scan goes through some manifests of the given contents
/// and no command fails: each manifest is loaded, and those that have to be
/// written anew are written, as the files of the same position in `written`.
pub open spec fn manifest_events(
    removed: RemovedView,
    files: Seq<ManifestFile>,
    contents: Seq<Seq<ManifestEntry>>,
    written: Seq<ManifestFile>,
) -> Seq<ScanEventView>
    decreases files.len(),
{
    if files.len() == 0 {
        Seq::empty()
    } else {
        let rest = manifest_events(
            removed,
            files.drop_first(),
            contents.drop_first(),
            written.drop_first(),
        );
        let loaded = seq![ScanEventView::Manifest(contents[0])];
        match disposition_of(removed, files[0], contents[0]) {
            DispositionView::Rewrite(draft) => loaded + seq![ScanEventView::Written(written[0])]
                + rest,
            _ => loaded + rest,
        }
    }
}

/// The manifests that stay: those without removed files as they are, and those
/// that still have files once the removed ones are gone as they were written anew.
pub open spec fn staying_manifests(
    removed: RemovedView,
    files: Seq<ManifestFile>,
    contents: Seq<Seq<ManifestEntry>>,
    written: Seq<ManifestFile>,
) -> Seq<ManifestFile>
    decreases files.len(),
{
    if files.len() == 0 {
        Seq::empty()
    } else {
        let rest = staying_manifests(
            removed,
            files.drop_first(),
            contents.drop_first(),
            written.drop_first(),
        );
        match disposition_of(removed, files[0], contents[0]) {
            DispositionView::Keep => seq![files[0]] + rest,
            DispositionView::Drop => rest,
            DispositionView::Rewrite(draft) => seq![written[0]] + rest,
        }
    }
}

/// The entries of all manifests that are recorded as deleted.
pub open spec fn recorded_entries(
    removed: RemovedView,
    contents: Seq<Seq<ManifestEntry>>,
) -> Seq<ManifestEntry>
    decreases contents.len(),
{
    if contents.len() == 0 {
        Seq::empty()
    } else {
        marked_entries(removed, contents[0]) + recorded_entries(removed, contents.drop_first())
    }
}

/// The rest of a scan from a manifest on.
proof fn scan_rest(
    state: ScanView,
    command: ScanCommandView,
    contents: Seq<Seq<ManifestEntry>>,
    written: Seq<ManifestFile>,
)
    requires
        state.phase == ScanPhase::Manifest,
        0 <= state.next < state.manifests.len(),
        contents.len() == state.manifests.len() - state.next,
        written.len() == contents.len(),
    ensures
        ({
            let files = state.manifests.skip(state.next);
            scan_run(
                state,
                command,
                manifest_events(state.removed, files, contents, written),
            ) == (
                ScanView {
                    phase: ScanPhase::Finished,
                    next: state.manifests.len() as int,
                    existing: Seq::empty(),
                    deleted: Seq::empty(),
                    pending: Some(state.deleted + recorded_entries(state.removed, contents)),
                    ..state
                },
                ScanCommandView::Return(
                    state.existing + staying_manifests(state.removed, files, contents, written),
                ),
            )
        }),
    decreases contents.len(),
{
    let removed = state.removed;
    let files = state.manifests.skip(state.next);
    let events = manifest_events(removed, files, contents, written);
    let rest = manifest_events(
        removed,
        files.drop_first(),
        contents.drop_first(),
        written.drop_first(),
    );
    assert(files.drop_first() =~= state.manifests.skip(state.next + 1));
    let loaded = state.after(events[0]);
    assert(events[0] == ScanEventView::Manifest(contents[0]));
    let disposition = disposition_of(removed, files[0], contents[0]);
    let (after, asked) = match disposition {
        DispositionView::Rewrite(draft) => {
            assert(events.drop_first() =~= seq![ScanEventView::Written(written[0])] + rest);
            let middle = events.drop_first();
            assert(middle[0] == ScanEventView::Written(written[0]));
            assert(middle.drop_first() =~= rest);
            assert(scan_run(state, command, events) == scan_run(loaded.0, loaded.1, middle));
            let next = loaded.0.after(middle[0]);
            assert(scan_run(loaded.0, loaded.1, middle) == scan_run(next.0, next.1, rest));
            next
        },
        _ => {
            assert(events.drop_first() =~= rest);
            loaded
        },
    };
    assert(scan_run(state, command, events) == scan_run(after, asked, rest));
    if state.next + 1 < state.manifests.len() {
        scan_rest(after, asked, contents.drop_first(), written.drop_first());
    } else {
        assert(contents.drop_first().len() == 0);
    }
    let tail = staying_manifests(
        removed,
        files.drop_first(),
        contents.drop_first(),
        written.drop_first(),
    );
    let end = scan_run(after, asked, rest);
    let existing = match disposition {
        DispositionView::Keep => state.existing.push(files[0]),
        DispositionView::Drop => state.existing,
        DispositionView::Rewrite(draft) => state.existing.push(written[0]),
    };
    assert(end.1->Return_0 =~= existing + tail);
    assert(end.0.pending->0 =~= state.deleted + recorded_entries(removed, contents));
    assert(end.1->Return_0 =~= state.existing + staying_manifests(
        removed,
        files,
        contents,
        written,
    ));
}

/// Where no command fails, a scan returns exactly the manifests that stay, in
/// their order, and puts by exactly the entries of all manifests that are recorded
/// as deleted, whatever waited before.
pub proof fn scan_outcome(
    pending: Option<Seq<ManifestEntry>>,
    removed: RemovedView,
    snapshot: Snapshot,
    files: Seq<ManifestFile>,
    contents: Seq<Seq<ManifestEntry>>,
    written: Seq<ManifestFile>,
)
    requires
        contents.len() == files.len(),
        written.len() == files.len(),
    ensures
        ({
            let (state, command) = scan_start(pending, removed, Some(snapshot));
            let events = seq![ScanEventView::ManifestList(files)] + manifest_events(
                removed,
                files,
                contents,
                written,
            );
            let (end, answer) = scan_run(state, command, events);
            &&& command == ScanCommandView::LoadManifestList(snapshot)
            &&& answer == ScanCommandView::Return(
                staying_manifests(removed, files, contents, written),
            )
            &&& end.phase == ScanPhase::Finished
            &&& end.pending == Some(recorded_entries(removed, contents))
        }),
{
    let (state, command) = scan_start(pending, removed, Some(snapshot));
    let rest = manifest_events(removed, files, contents, written);
    let events = seq![ScanEventView::ManifestList(files)] + rest;
    assert(events.drop_first() =~= rest);
    let listed = state.after(events[0]);
    assert(scan_run(state, command, events) == scan_run(listed.0, listed.1, rest));
    if files.len() > 0 {
        assert(files.skip(0) =~= files);
        scan_rest(listed.0, listed.1, contents, written);
        let end = scan_run(listed.0, listed.1, rest);
        assert(Seq::<ManifestEntry>::empty() + recorded_entries(removed, contents)
            =~= recorded_entries(removed, contents));
        assert(Seq::<ManifestFile>::empty() + staying_manifests(removed, files, contents, written)
            =~= staying_manifests(removed, files, contents, written));
    }
}

/// The entries recorded as deleted for one manifest.
proof fn marked_entry_sources(removed: RemovedView, entries: Seq<ManifestEntry>)
    ensures
        forall|record: ManifestEntry| #[trigger]
            marked_entries(removed, entries).contains(record) ==> exists|entry: ManifestEntry| #[trigger]
                entries.contains(entry) && is_marked(removed, entry) && record == with_status(
                    entry,
                    ManifestStatus::Deleted,
                ),
        forall|entry: ManifestEntry| #[trigger]
            entries.contains(entry) && is_marked(removed, entry) ==> marked_entries(
                removed,
                entries,
            ).contains(with_status(entry, ManifestStatus::Deleted)),
{
    let marked = |entry: ManifestEntry| is_marked(removed, entry);
    let kept = entries.filter(marked);
    let records = marked_entries(removed, entries);
    assert forall|record: ManifestEntry| #[trigger] records.contains(record) implies exists|
        entry: ManifestEntry,
    | #[trigger]
        entries.contains(entry) && is_marked(removed, entry) && record == with_status(
            entry,
            ManifestStatus::Deleted,
        ) by {
        let i = choose|i: int| 0 <= i < records.len() && records[i] == record;
        entries.lemma_filter_pred(marked, i);
        assert(kept.contains(kept[i]));
        entries.lemma_filter_contains_rev(marked, kept[i]);
        assert(entries.contains(kept[i]));
    }
    assert forall|entry: ManifestEntry| #[trigger]
        entries.contains(entry) && is_marked(removed, entry) implies records.contains(
        with_status(entry, ManifestStatus::Deleted),
    ) by {
        let at = choose|at: int| 0 <= at < entries.len() && entries[at] == entry;
        entries.lemma_filter_contains(marked, at);
        let i = choose|i: int| 0 <= i < kept.len() && kept[i] == entry;
        assert(records[i] == with_status(entry, ManifestStatus::Deleted));
    }
}

/// The entries carried forward from one manifest.
proof fn carried_entry_sources(removed: RemovedView, entries: Seq<ManifestEntry>)
    ensures
        forall|carried: ManifestEntry| #[trigger]
            carried_entries(removed, entries).contains(carried) ==> exists|entry: ManifestEntry| #[trigger]
                entries.contains(entry) && survives(removed, entry) && carried == with_status(
                    entry,
                    ManifestStatus::Existing,
                ),
        forall|entry: ManifestEntry| #[trigger]
            entries.contains(entry) && survives(removed, entry) ==> carried_entries(
                removed,
                entries,
            ).contains(with_status(entry, ManifestStatus::Existing)),
{
    let stays = |entry: ManifestEntry| survives(removed, entry);
    let kept = entries.filter(stays);
    let all = carried_entries(removed, entries);
    assert forall|carried: ManifestEntry| #[trigger] all.contains(carried) implies exists|
        entry: ManifestEntry,
    | #[trigger]
        entries.contains(entry) && survives(removed, entry) && carried == with_status(
            entry,
            ManifestStatus::Existing,
        ) by {
        let i = choose|i: int| 0 <= i < all.len() && all[i] == carried;
        entries.lemma_filter_pred(stays, i);
        assert(kept.contains(kept[i]));
        entries.lemma_filter_contains_rev(stays, kept[i]);
        assert(entries.contains(kept[i]));
    }
    assert forall|entry: ManifestEntry| #[trigger]
        entries.contains(entry) && survives(removed, entry) implies all.contains(
        with_status(entry, ManifestStatus::Existing),
    ) by {
        let at = choose|at: int| 0 <= at < entries.len() && entries[at] == entry;
        entries.lemma_filter_contains(stays, at);
        let i = choose|i: int| 0 <= i < kept.len() && kept[i] == entry;
        assert(all[i] == with_status(entry, ManifestStatus::Existing));
    }
}

/// Only removed files are recorded as deleted: a data file only where it is among
/// the removed data files, a delete file only where it is among the removed delete
/// files. A record keeps everything of the entry it stands for but the status.
pub proof fn only_removed_files_are_recorded(
    removed: RemovedView,
    contents: Seq<Seq<ManifestEntry>>,
    record: ManifestEntry,
)
    requires
        recorded_entries(removed, contents).contains(record),
    ensures
        record.status == ManifestStatus::Deleted,
        is_marked(removed, record),
        exists|manifest: int, entry: ManifestEntry|
            0 <= manifest < contents.len() && #[trigger] contents[manifest].contains(entry)
                && record == with_status(entry, ManifestStatus::Deleted),
    decreases contents.len(),
{
    let first = marked_entries(removed, contents[0]);
    let rest = recorded_entries(removed, contents.drop_first());
    if first.contains(record) {
        marked_entry_sources(removed, contents[0]);
        let entry = choose|entry: ManifestEntry| #[trigger]
            contents[0].contains(entry) && is_marked(removed, entry) && record == with_status(
                entry,
                ManifestStatus::Deleted,
            );
        assert(contents[0].contains(entry));
    } else {
        let i = choose|i: int|
            0 <= i < recorded_entries(removed, contents).len() && recorded_entries(
                removed,
                contents,
            )[i] == record;
        if i < first.len() {
            assert(first[i] == record);
        }
        assert(rest[i - first.len()] == record);
        only_removed_files_are_recorded(removed, contents.drop_first(), record);
        let (manifest, entry) = choose|manifest: int, entry: ManifestEntry|
            0 <= manifest < contents.drop_first().len()
                && #[trigger] contents.drop_first()[manifest].contains(entry) && record
                == with_status(entry, ManifestStatus::Deleted);
        assert(contents[manifest + 1].contains(entry));
    }
}

/// Every removed file that a manifest names is recorded as deleted.
pub proof fn removed_files_are_recorded(
    removed: RemovedView,
    contents: Seq<Seq<ManifestEntry>>,
    manifest: int,
    entry: ManifestEntry,
)
    requires
        0 <= manifest < contents.len(),
        contents[manifest].contains(entry),
        is_marked(removed, entry),
    ensures
        recorded_entries(removed, contents).contains(with_status(entry, ManifestStatus::Deleted)),
    decreases contents.len(),
{
    let record = with_status(entry, ManifestStatus::Deleted);
    let first = marked_entries(removed, contents[0]);
    let rest = recorded_entries(removed, contents.drop_first());
    if manifest == 0 {
        marked_entry_sources(removed, contents[0]);
        let i = choose|i: int| 0 <= i < first.len() && first[i] == record;
        assert(recorded_entries(removed, contents)[i] == record);
    } else {
        assert(contents.drop_first()[manifest - 1].contains(entry));
        removed_files_are_recorded(removed, contents.drop_first(), manifest - 1, entry);
        let i = choose|i: int| 0 <= i < rest.len() && rest[i] == record;
        assert(recorded_entries(removed, contents)[first.len() + i] == record);
    }
}

/// A live file that is not removed stays in the table: its manifest stays as it
/// is or is written anew with the file in it, as an existing one and with nothing
/// but its status changed.
pub proof fn live_files_stay(
    removed: RemovedView,
    manifest: ManifestFile,
    entries: Seq<ManifestEntry>,
    entry: ManifestEntry,
)
    requires
        entries.contains(entry),
        entry.alive(),
        !is_removed(removed, entry),
    ensures
        match disposition_of(removed, manifest, entries) {
            DispositionView::Keep => true,
            DispositionView::Drop => false,
            DispositionView::Rewrite(draft) => draft.entries.contains(
                with_status(entry, ManifestStatus::Existing),
            ),
        },
{
    carried_entry_sources(removed, entries);
    assert(carried_entries(removed, entries).contains(
        with_status(entry, ManifestStatus::Existing),
    ));
}

/// A manifest that is written anew keeps its kind of content and its partition
/// spec. Each of its entries is an entry of the old manifest that was alive and
/// not removed, and differs from it only in being an existing one.
pub proof fn rewritten_manifests_hold_survivors(
    removed: RemovedView,
    manifest: ManifestFile,
    entries: Seq<ManifestEntry>,
    carried: ManifestEntry,
)
    ensures
        disposition_of(removed, manifest, entries) matches DispositionView::Rewrite(draft) ==> {
            &&& draft.content == manifest.content
            &&& draft.partition_spec_id == manifest.partition_spec_id
            &&& draft.entries.contains(carried) ==> {
                &&& carried.status == ManifestStatus::Existing
                &&& !is_removed(removed, carried)
                &&& exists|entry: ManifestEntry| #[trigger]
                    entries.contains(entry) && survives(removed, entry) && carried == with_status(
                        entry,
                        ManifestStatus::Existing,
                    )
            }
        },
{
    carried_entry_sources(removed, entries);
}

/// No removed file stays: a manifest that names one does not stay as it is.
pub proof fn removed_files_go(
    removed: RemovedView,
    manifest: ManifestFile,
    entries: Seq<ManifestEntry>,
    entry: ManifestEntry,
)
    requires
        entries.contains(entry),
        is_removed(removed, entry),
    ensures
        !(disposition_of(removed, manifest, entries) is Keep),
{
    let i = choose|i: int| 0 <= i < entries.len() && entries[i] == entry;
    assert(is_removed(removed, entries[i]));
    assert(any_removed(removed, entries));
}

/// No live file is lost: it stays in the table or is recorded as deleted. This
/// supposes that a removed file is listed under its own kind, as a data file or
/// as a delete file.
pub proof fn live_files_stay_or_are_recorded(
    removed: RemovedView,
    manifest: ManifestFile,
    entries: Seq<ManifestEntry>,
    entry: ManifestEntry,
)
    requires
        entries.contains(entry),
        entry.alive(),
        is_removed(removed, entry) ==> is_marked(removed, entry),
    ensures
        marked_entries(removed, entries).contains(with_status(entry, ManifestStatus::Deleted))
            || match disposition_of(removed, manifest, entries) {
            DispositionView::Keep => true,
            DispositionView::Drop => false,
            DispositionView::Rewrite(draft) => draft.entries.contains(
                with_status(entry, ManifestStatus::Existing),
            ),
        },
{
    if is_removed(removed, entry) {
        marked_entry_sources(removed, entries);
    } else {
        live_files_stay(removed, manifest, entries, entry);
    }
}

/// The live entries among some, as existing ones.
pub open spec fn live_among(entries: Seq<ManifestEntry>) -> Seq<ManifestEntry> {
    entries.filter(|entry: ManifestEntry| entry.alive()).map_values(
        |entry: ManifestEntry| with_status(entry, ManifestStatus::Existing),
    )
}

/// The live entries of some manifests, as existing ones.
pub open spec fn live_entries(storage: Storage, manifests: Seq<ManifestFile>) -> Seq<ManifestEntry>
    decreases manifests.len(),
{
    if manifests.len() == 0 {
        Seq::empty()
    } else {
        live_among(storage.entries_of(manifests[0])) + live_entries(
            storage,
            manifests.drop_first(),
        )
    }
}

/// The entries whose paths are not removed.
pub open spec fn not_removed(removed: RemovedView, entries: Seq<ManifestEntry>) -> Seq<
    ManifestEntry,
> {
    entries.filter(|entry: ManifestEntry| !is_removed(removed, entry))
}

/// What is carried forward are the live entries whose paths are not removed.
pub proof fn carried_are_live_and_not_removed(removed: RemovedView, entries: Seq<ManifestEntry>)
    ensures
        carried_entries(removed, entries) == not_removed(removed, live_among(entries)),
    decreases entries.len(),
{
    reveal(Seq::filter);
    if entries.len() == 0 {
        assert(carried_entries(removed, entries) =~= Seq::empty());
        assert(live_among(entries) =~= Seq::empty());
    } else {
        let rest = entries.drop_last();
        let entry = entries.last();
        let carried = with_status(entry, ManifestStatus::Existing);
        carried_are_live_and_not_removed(removed, rest);
        assert(entries =~= rest.push(entry));
        rest.lemma_filter_push(entry, |entry: ManifestEntry| entry.alive());
        rest.lemma_filter_push(entry, |entry: ManifestEntry| survives(removed, entry));
        live_among(rest).lemma_filter_push(
            carried,
            |entry: ManifestEntry| !is_removed(removed, entry),
        );
        if entry.alive() {
            assert(live_among(entries) =~= live_among(rest).push(carried));
        } else {
            assert(live_among(entries) =~= live_among(rest));
        }
        if survives(removed, entry) {
            assert(carried_entries(removed, entries) =~= carried_entries(removed, rest).push(
                carried,
            ));
        } else {
            assert(carried_entries(removed, entries) =~= carried_entries(removed, rest));
        }
    }
}

/// What is carried forward is live, and stays as it is.
proof fn carried_stay_live(removed: RemovedView, entries: Seq<ManifestEntry>)
    ensures
        live_among(carried_entries(removed, entries)) == carried_entries(removed, entries),
{
    let carried = carried_entries(removed, entries);
    carried_entry_sources(removed, entries);
    existing_are_live(carried);
}

/// Existing entries are live, and stay as they are.
proof fn existing_are_live(entries: Seq<ManifestEntry>)
    requires
        forall|entry: ManifestEntry| #[trigger]
            entries.contains(entry) ==> entry.status == ManifestStatus::Existing,
    ensures
        live_among(entries) == entries,
    decreases entries.len(),
{
    reveal(Seq::filter);
    if entries.len() == 0 {
        assert(live_among(entries) =~= entries);
    } else {
        let rest = entries.drop_last();
        let entry = entries.last();
        assert(entries.contains(entry)) by {
            assert(entries[entries.len() - 1] == entry);
        }
        assert forall|other: ManifestEntry| #[trigger] rest.contains(other) implies other.status
            == ManifestStatus::Existing by {
            let i = choose|i: int| 0 <= i < rest.len() && rest[i] == other;
            assert(entries[i] == other);
            assert(entries.contains(other));
        }
        existing_are_live(rest);
        assert(entries =~= rest.push(entry));
        rest.lemma_filter_push(entry, |entry: ManifestEntry| entry.alive());
        assert(live_among(entries) =~= live_among(rest).push(
            with_status(entry, ManifestStatus::Existing),
        ));
    }
}

/// A manifest without removed files keeps all its live entries.
proof fn nothing_removed_among(removed: RemovedView, entries: Seq<ManifestEntry>)
    requires
        !any_removed(removed, entries),
    ensures
        not_removed(removed, live_among(entries)) == live_among(entries),
    decreases entries.len(),
{
    reveal(Seq::filter);
    if entries.len() == 0 {
        assert(live_among(entries) =~= Seq::empty());
        assert(not_removed(removed, live_among(entries)) =~= live_among(entries));
    } else {
        let rest = entries.drop_last();
        let entry = entries.last();
        let carried = with_status(entry, ManifestStatus::Existing);
        assert(!is_removed(removed, entries[entries.len() - 1]));
        assert(!any_removed(removed, rest)) by {
            if any_removed(removed, rest) {
                let i = choose|i: int|
                    0 <= i < rest.len() && is_removed(removed, #[trigger] rest[i]);
                assert(is_removed(removed, entries[i]));
            }
        }
        nothing_removed_among(removed, rest);
        assert(entries =~= rest.push(entry));
        rest.lemma_filter_push(entry, |entry: ManifestEntry| entry.alive());
        live_among(rest).lemma_filter_push(
            carried,
            |entry: ManifestEntry| !is_removed(removed, entry),
        );
        if entry.alive() {
            assert(live_among(entries) =~= live_among(rest).push(carried));
        } else {
            assert(live_among(entries) =~= live_among(rest));
        }
    }
}

/// The manifests that were written anew hold what was asked to be written.
pub open spec fn written_as_asked(
    storage: Storage,
    removed: RemovedView,
    files: Seq<ManifestFile>,
    written: Seq<ManifestFile>,
) -> bool {
    forall|i: int|
        0 <= i < files.len() ==> (disposition_of(
            removed,
            #[trigger] files[i],
            storage.entries_of(files[i]),
        ) matches DispositionView::Rewrite(draft) ==> storage.entries_of(written[i])
            == draft.entries)
}

/// The contents of some manifests.
pub open spec fn contents_of(storage: Storage, files: Seq<ManifestFile>) -> Seq<
    Seq<ManifestEntry>,
> {
    files.map_values(|file: ManifestFile| storage.entries_of(file))
}

/// The live entries of the manifests that stay are those that are not removed.
proof fn live_entries_of_staying(
    storage: Storage,
    removed: RemovedView,
    files: Seq<ManifestFile>,
    written: Seq<ManifestFile>,
)
    requires
        written.len() == files.len(),
        written_as_asked(storage, removed, files, written),
    ensures
        live_entries(
            storage,
            staying_manifests(removed, files, contents_of(storage, files), written),
        ) == not_removed(removed, live_entries(storage, files)),
    decreases files.len(),
{
    let contents = contents_of(storage, files);
    let staying = staying_manifests(removed, files, contents, written);
    if files.len() == 0 {
        reveal(Seq::filter);
        assert(not_removed(removed, live_entries(storage, files)) =~= Seq::empty());
    } else {
        let later = files.drop_first();
        let entries = storage.entries_of(files[0]);
        let rest = staying_manifests(
            removed,
            later,
            contents.drop_first(),
            written.drop_first(),
        );
        assert(contents.drop_first() =~= contents_of(storage, later));
        assert(contents[0] == entries);
        assert(written_as_asked(storage, removed, later, written.drop_first())) by {
            assert forall|i: int| 0 <= i < later.len() implies (disposition_of(
                removed,
                #[trigger] later[i],
                storage.entries_of(later[i]),
            ) matches DispositionView::Rewrite(draft) ==> storage.entries_of(
                written.drop_first()[i],
            ) == draft.entries) by {
                assert(files[i + 1] == later[i]);
            }
        }
        live_entries_of_staying(storage, removed, later, written.drop_first());
        Seq::filter_distributes_over_add(
            live_among(entries),
            live_entries(storage, later),
            |entry: ManifestEntry| !is_removed(removed, entry),
        );
        carried_are_live_and_not_removed(removed, entries);
        match disposition_of(removed, files[0], entries) {
            DispositionView::Keep => {
                nothing_removed_among(removed, entries);
                assert(staying =~= seq![files[0]] + rest);
                assert(staying.drop_first() =~= rest);
            },
            DispositionView::Drop => {
                assert(carried_entries(removed, entries) =~= Seq::empty());
                assert(live_entries(storage, rest) =~= carried_entries(removed, entries)
                    + live_entries(storage, rest));
            },
            DispositionView::Rewrite(draft) => {
                carried_stay_live(removed, entries);
                assert(staying =~= seq![written[0]] + rest);
                assert(staying.drop_first() =~= rest);
            },
        }
    }
}

/// A scan in which no command fails keeps exactly the live files that are not
/// removed: the live entries of the manifests that it returns are, in their order
/// and but for the status, the live entries of the parent's manifests whose
/// paths are not removed.
pub proof fn scan_keeps_the_live_files(
    pending: Option<Seq<ManifestEntry>>,
    removed: RemovedView,
    snapshot: Snapshot,
    storage: Storage,
    files: Seq<ManifestFile>,
    written: Seq<ManifestFile>,
)
    requires
        written.len() == files.len(),
        written_as_asked(storage, removed, files, written),
    ensures
        ({
            let (state, command) = scan_start(pending, removed, Some(snapshot));
            let events = seq![ScanEventView::ManifestList(files)] + manifest_events(
                removed,
                files,
                contents_of(storage, files),
                written,
            );
            let answer = scan_run(state, command, events).1;
            &&& answer is Return
            &&& live_entries(storage, answer->Return_0) == not_removed(
                removed,
                live_entries(storage, files),
            )
        }),
{
    scan_outcome(pending, removed, snapshot, files, contents_of(storage, files), written);
    live_entries_of_staying(storage, removed, files, written);
}

/// Where nothing is removed, all manifests stay as they are and nothing is
/// recorded as deleted.
pub proof fn nothing_removed_nothing_changed(
    removed: RemovedView,
    files: Seq<ManifestFile>,
    contents: Seq<Seq<ManifestEntry>>,
    written: Seq<ManifestFile>,
)
    requires
        removed.data == Set::<Seq<char>>::empty(),
        removed.deletes == Set::<Seq<char>>::empty(),
        contents.len() == files.len(),
        written.len() == files.len(),
    ensures
        staying_manifests(removed, files, contents, written) == files,
        recorded_entries(removed, contents) == Seq::<ManifestEntry>::empty(),
    decreases files.len(),
{
    if files.len() > 0 {
        nothing_removed_nothing_changed(
            removed,
            files.drop_first(),
            contents.drop_first(),
            written.drop_first(),
        );
        assert(!any_removed(removed, contents[0]));
        contents[0].lemma_all_neg_filter_empty(|entry: ManifestEntry| is_marked(removed, entry));
        assert(marked_entries(removed, contents[0]) =~= Seq::empty());
        assert(seq![files[0]] + files.drop_first() =~= files);
    } else {
        assert(staying_manifests(removed, files, contents, written) =~= files);
    }
}

/// A scan that fails puts nothing by: what waited before waits still. The
/// failure is returned and nothing is asked for any more.
pub proof fn failed_scan_puts_nothing_by(
    state: ScanView,
    command: ScanCommandView,
    events: Seq<ScanEventView>,
    error: Error,
)
    requires
        !(scan_run(state, command, events).1 is Return),
        !(command is Return),
        forall|i: int|
            0 <= i < events.len() ==> !(scan_run(
                state,
                command,
                #[trigger] events.take(i),
            ).1 is Return),
    ensures
        ({
            let (end, answer) = scan_run(
                state,
                command,
                events.push(ScanEventView::Failed(error)),
            );
            &&& end.phase == ScanPhase::Finished
            &&& end.pending == state.pending
            &&& answer == ScanCommandView::Fail(error)
        }),
    decreases events.len(),
{
    let all = events.push(ScanEventView::Failed(error));
    if events.len() == 0 {
        assert(all.drop_first() =~= Seq::empty());
        let next = state.after(all[0]);
        assert(scan_run(next.0, next.1, all.drop_first()) == next);
    } else {
        let next = state.after(events[0]);
        let rest = events.drop_first();
        assert(all[0] == events[0]);
        assert(all.drop_first() =~= rest.push(ScanEventView::Failed(error)));
        assert(!(next.1 is Return)) by {
            let one = events.take(1);
            assert(one.drop_first() =~= Seq::empty());
            assert(one[0] == events[0]);
            assert(scan_run(next.0, next.1, one.drop_first()) == next);
            assert(scan_run(state, command, one) == next);
            if events.len() == 1 {
                assert(one =~= events);
            }
        }
        assert forall|i: int| 0 <= i < rest.len() implies !(scan_run(
            next.0,
            next.1,
            #[trigger] rest.take(i),
        ).1 is Return) by {
            let longer = events.take(i + 1);
            assert(longer[0] == events[0]);
            assert(longer.drop_first() =~= rest.take(i));
        }
        failed_scan_puts_nothing_by(next.0, next.1, rest, error);
    }
}

/// What a command asks for is what the scan waits for, with a failure as the
/// other answer; after the last command nothing is waited for.
pub open spec fn can_be_answered(state: ScanView, command: ScanCommandView) -> bool {
    match command {
        ScanCommandView::LoadManifestList(snapshot) => (forall|files: Seq<ManifestFile>| #[trigger]
            state.expects(ScanEventView::ManifestList(files))) && forall|error: Error| #[trigger]
            state.expects(ScanEventView::Failed(error)),
        ScanCommandView::LoadManifest(file) => (forall|entries: Seq<ManifestEntry>|
            marks_numbered(state.removed, entries) ==> #[trigger] state.expects(
                ScanEventView::Manifest(entries),
            )) && forall|error: Error| #[trigger] state.expects(ScanEventView::Failed(error)),
        ScanCommandView::WriteManifest(draft) => (forall|file: ManifestFile| #[trigger]
            state.expects(ScanEventView::Written(file))) && forall|error: Error| #[trigger]
            state.expects(ScanEventView::Failed(error)),
        ScanCommandView::Return(files) => forall|event: ScanEventView| !#[trigger] state.expects(
            event,
        ),
        ScanCommandView::Fail(error) => forall|event: ScanEventView| !#[trigger] state.expects(
            event,
        ),
    }
}

/// The first command of a scan can be answered, and so can each command that
/// follows an answer.
pub proof fn scan_commands_can_be_answered(
    pending: Option<Seq<ManifestEntry>>,
    removed: RemovedView,
    tip: Option<Snapshot>,
    state: ScanView,
    event: ScanEventView,
)
    ensures
        can_be_answered(scan_start(pending, removed, tip).0, scan_start(pending, removed, tip).1),
        state.expects(event) ==> can_be_answered(state.after(event).0, state.after(event).1),
{
}

} // verus!

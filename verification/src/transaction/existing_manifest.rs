//! What becomes of the manifests of the parent snapshot.

use vstd::prelude::*;

use crate::metadata::data_file::DataContentType;
use crate::metadata::manifest::{ManifestContentType, ManifestEntry, ManifestFile, ManifestStatus};
use crate::transaction::snapshot::{RemovedPaths, RemovedView};

verus! {

/// The path of an entry is among those of the removed files.
pub open spec fn is_removed(removed: RemovedView, entry: ManifestEntry) -> bool {
    removed.data.contains(entry.path()) || removed.deletes.contains(entry.path())
}

/// An entry is recorded as deleted: a data file whose path is among those of the
/// removed data files, or a delete file whose path is among those of the removed
/// delete files.
pub open spec fn is_marked(removed: RemovedView, entry: ManifestEntry) -> bool {
    if entry.data_file.content == DataContentType::Data {
        removed.data.contains(entry.path())
    } else {
        removed.deletes.contains(entry.path())
    }
}

/// An entry stays in the table.
pub open spec fn survives(removed: RemovedView, entry: ManifestEntry) -> bool {
    entry.alive() && !is_removed(removed, entry)
}

/// The entry with another status and nothing else changed.
pub open spec fn with_status(entry: ManifestEntry, status: ManifestStatus) -> ManifestEntry {
    ManifestEntry { status, ..entry }
}

/// The entry says which snapshot it is of and under which sequence numbers.
pub open spec fn is_numbered(entry: ManifestEntry) -> bool {
    entry.snapshot_id is Some && entry.sequence_number is Some && entry.file_sequence_number is Some
}

/// Every entry to be recorded as deleted is numbered.
pub open spec fn marks_numbered(removed: RemovedView, entries: Seq<ManifestEntry>) -> bool {
    forall|i: int|
        0 <= i < entries.len() && is_marked(removed, #[trigger] entries[i]) ==> is_numbered(
            entries[i],
        )
}

/// The entries that are recorded as deleted, in their order.
pub open spec fn marked_entries(removed: RemovedView, entries: Seq<ManifestEntry>) -> Seq<
    ManifestEntry,
> {
    entries.filter(|entry: ManifestEntry| is_marked(removed, entry)).map_values(
        |entry: ManifestEntry| with_status(entry, ManifestStatus::Deleted),
    )
}

/// The entries that stay in the table, carried forward in their order.
pub open spec fn carried_entries(removed: RemovedView, entries: Seq<ManifestEntry>) -> Seq<
    ManifestEntry,
> {
    entries.filter(|entry: ManifestEntry| survives(removed, entry)).map_values(
        |entry: ManifestEntry| with_status(entry, ManifestStatus::Existing),
    )
}

/// Some entry belongs to a removed file.
pub open spec fn any_removed(removed: RemovedView, entries: Seq<ManifestEntry>) -> bool {
    exists|i: int| 0 <= i < entries.len() && is_removed(removed, #[trigger] entries[i])
}

/// A manifest that is to be written.
#[derive(Debug)]
pub struct ManifestDraft {
    /// What the files of the manifest hold.
    pub content: ManifestContentType,
    /// The partition spec of the files.
    pub partition_spec_id: i32,
    /// The files.
    pub entries: Vec<ManifestEntry>,
}

/// The mathematical value of a [`ManifestDraft`].
#[verifier::ext_equal]
pub struct DraftView {
    /// What the files of the manifest hold.
    pub content: ManifestContentType,
    /// The partition spec of the files.
    pub partition_spec_id: i32,
    /// The files.
    pub entries: Seq<ManifestEntry>,
}

impl View for ManifestDraft {
    type V = DraftView;

    open spec fn view(&self) -> DraftView {
        DraftView {
            content: self.content,
            partition_spec_id: self.partition_spec_id,
            entries: self.entries@,
        }
    }
}

/// What becomes of a manifest.
#[derive(Debug)]
pub enum Disposition {
    /// It stays as it is.
    Keep,
    /// None of its files stays in the table, so it goes.
    Drop,
    /// It is written anew without the removed files.
    Rewrite(ManifestDraft),
}

/// The mathematical value of a [`Disposition`].
#[verifier::ext_equal]
pub enum DispositionView {
    /// It stays as it is.
    Keep,
    /// None of its files stays in the table, so it goes.
    Drop,
    /// It is written anew without the removed files.
    Rewrite(DraftView),
}

impl View for Disposition {
    type V = DispositionView;

    open spec fn view(&self) -> DispositionView {
        match *self {
            Disposition::Keep => DispositionView::Keep,
            Disposition::Drop => DispositionView::Drop,
            Disposition::Rewrite(draft) => DispositionView::Rewrite(draft@),
        }
    }
}

/// What becomes of a manifest that holds the given entries: it stays as it is
/// unless one of them belongs to a removed file; else it is written anew with the
/// entries that stay in the table, and goes where none does.
pub open spec fn disposition_of(
    removed: RemovedView,
    manifest: ManifestFile,
    entries: Seq<ManifestEntry>,
) -> DispositionView {
    if !any_removed(removed, entries) {
        DispositionView::Keep
    } else if carried_entries(removed, entries).len() == 0 {
        DispositionView::Drop
    } else {
        DispositionView::Rewrite(
            DraftView {
                content: manifest.content,
                partition_spec_id: manifest.partition_spec_id,
                entries: carried_entries(removed, entries),
            },
        )
    }
}

/// A manifest without removed files has no entry to record as deleted.
proof fn nothing_removed_nothing_marked(removed: RemovedView, entries: Seq<ManifestEntry>)
    requires
        !any_removed(removed, entries),
    ensures
        marked_entries(removed, entries) == Seq::<ManifestEntry>::empty(),
{
    let marked = |entry: ManifestEntry| is_marked(removed, entry);
    entries.lemma_all_neg_filter_empty(marked);
}

/// Tells whether the path of an entry is among those of the removed files.
fn removes(removed: &RemovedPaths, entry: &ManifestEntry) -> (found: bool)
    ensures
        found == is_removed(removed@, *entry),
{
    removed.contains_data_file(entry.file_path()) || removed.contains_delete_file(entry.file_path())
}

/// Tells whether an entry is recorded as deleted.
pub(crate) fn marks(removed: &RemovedPaths, entry: &ManifestEntry) -> (marked: bool)
    ensures
        marked == is_marked(removed@, *entry),
{
    match entry.content_type() {
        DataContentType::Data => removed.contains_data_file(entry.file_path()),
        DataContentType::PositionDeletes | DataContentType::EqualityDeletes => {
            removed.contains_delete_file(entry.file_path())
        },
    }
}

/// Tells whether an entry says which snapshot it is of and under which sequence numbers.
pub(crate) fn numbered(entry: &ManifestEntry) -> (complete: bool)
    ensures
        complete == is_numbered(*entry),
{
    entry.snapshot_id.is_some() && entry.sequence_number.is_some()
        && entry.file_sequence_number.is_some()
}

/// Returns the record that a file left the table, under the snapshot and the
/// sequence numbers of its entry.
fn deleted_entry(entry: ManifestEntry) -> (record: ManifestEntry)
    requires
        is_numbered(entry),
    ensures
        record == with_status(entry, ManifestStatus::Deleted),
{
    ManifestEntry {
        status: ManifestStatus::Deleted,
        snapshot_id: Some(entry.snapshot_id.unwrap()),
        sequence_number: Some(entry.sequence_number.unwrap()),
        file_sequence_number: Some(entry.file_sequence_number.unwrap()),
        data_file: entry.data_file,
    }
}

/// Decides what becomes of one manifest, and which of its entries are recorded
/// as deleted.
///
/// The entries to record must be numbered.
pub fn sort_out_manifest(
    removed: &RemovedPaths,
    manifest: &ManifestFile,
    entries: Vec<ManifestEntry>,
) -> (sorted: (Vec<ManifestEntry>, Disposition))
    requires
        marks_numbered(removed@, entries@),
    ensures
        sorted.0@ == marked_entries(removed@, entries@),
        sorted.1@ == disposition_of(removed@, *manifest, entries@),
{
    let mut deleted: Vec<ManifestEntry> = Vec::new();
    let mut found: bool = false;
    for i in 0..entries.len()
        invariant
            found == any_removed(removed@, entries@.take(i as int)),
    {
        let here: bool = removes(removed, &entries[i]);
        proof {
            let before = entries@.take(i as int);
            let after = entries@.take(i + 1);
            if found {
                let j = choose|j: int|
                    0 <= j < before.len() && is_removed(removed@, #[trigger] before[j]);
                assert(is_removed(removed@, after[j]));
            }
            if here {
                assert(is_removed(removed@, after[i as int]));
            }
            if any_removed(removed@, after) && !here {
                let j = choose|j: int|
                    0 <= j < after.len() && is_removed(removed@, #[trigger] after[j]);
                assert(is_removed(removed@, before[j]));
            }
        }
        found = found || here;
    }
    assert(entries@.take(entries@.len() as int) =~= entries@);
    if !found {
        proof {
            nothing_removed_nothing_marked(removed@, entries@);
        }
        return (deleted, Disposition::Keep);
    }
    let ghost all = entries@;
    let mut carried: Vec<ManifestEntry> = Vec::new();
    assert(all.take(0) =~= Seq::empty());
    proof {
        reveal(Seq::filter);
        assert(deleted@ =~= marked_entries(removed@, all.take(0)));
        assert(carried@ =~= carried_entries(removed@, all.take(0)));
    }
    for entry in it: entries.into_iter()
        invariant
            it.seq() == all,
            marks_numbered(removed@, all),
            deleted@ == marked_entries(removed@, all.take(it.index() as int)),
            carried@ == carried_entries(removed@, all.take(it.index() as int)),
    {
        proof {
            let i = it.index() as int;
            let before = all.take(i);
            assert(entry == all[i]);
            assert(all.take(i + 1) =~= before.push(entry));
            before.lemma_filter_push(entry, |e: ManifestEntry| is_marked(removed@, e));
            before.lemma_filter_push(entry, |e: ManifestEntry| survives(removed@, e));
        }
        if marks(removed, &entry) {
            deleted.push(deleted_entry(entry));
        } else if entry.is_alive() && !removes(removed, &entry) {
            carried.push(ManifestEntry { status: ManifestStatus::Existing, ..entry });
        }
        assert(deleted@ =~= marked_entries(removed@, all.take(it.index() + 1)));
        assert(carried@ =~= carried_entries(removed@, all.take(it.index() + 1)));
    }
    assert(all.take(all.len() as int) =~= all);
    if carried.len() == 0 {
        (deleted, Disposition::Drop)
    } else {
        (
            deleted,
            Disposition::Rewrite(
                ManifestDraft {
                    content: manifest.content,
                    partition_spec_id: manifest.partition_spec_id,
                    entries: carried,
                },
            ),
        )
    }
}

} // verus!

//! What the parts of table metadata mean, told through their fields.

use vstd::prelude::*;

use crate::metadata::data_file::{
    bound_of, partition_values, DataContentType, DataFile, Literal, LiteralView,
};
use crate::metadata::manifest::{ManifestEntry, ManifestFile, ManifestStatus};
use crate::metadata::table::{
    find_ref, find_snapshot, Snapshot, SnapshotReference, TableMetadata,
};

verus! {

/// A snapshot that is found by its id is the first one that has it; where none is
/// found, none has it.
pub proof fn snapshots_are_found_by_id(snapshots: Seq<Snapshot>, id: i64)
    ensures
        find_snapshot(snapshots, id) matches Some(found) ==> exists|i: int|
            0 <= i < snapshots.len() && #[trigger] snapshots[i] == found && found.snapshot_id == id
                && forall|j: int| 0 <= j < i ==> (#[trigger] snapshots[j]).snapshot_id != id,
        find_snapshot(snapshots, id) is None ==> forall|i: int|
            0 <= i < snapshots.len() ==> (#[trigger] snapshots[i]).snapshot_id != id,
    decreases snapshots.len(),
{
    if snapshots.len() > 0 {
        if snapshots[0].snapshot_id != id {
            let rest = snapshots.drop_first();
            snapshots_are_found_by_id(rest, id);
            match find_snapshot(rest, id) {
                Some(found) => {
                    let i = choose|i: int|
                        0 <= i < rest.len() && #[trigger] rest[i] == found && found.snapshot_id
                            == id && forall|j: int|
                            0 <= j < i ==> (#[trigger] rest[j]).snapshot_id != id;
                    assert(snapshots[i + 1] == found);
                    assert forall|j: int| 0 <= j < i + 1 implies (
                    #[trigger] snapshots[j]).snapshot_id != id by {
                        if j > 0 {
                            assert(rest[j - 1] == snapshots[j]);
                        }
                    }
                },
                None => {
                    assert forall|i: int| 0 <= i < snapshots.len() implies (
                    #[trigger] snapshots[i]).snapshot_id != id by {
                        if i > 0 {
                            assert(rest[i - 1] == snapshots[i]);
                        }
                    }
                },
            }
        } else {
            assert(snapshots[0].snapshot_id == id);
        }
    }
}

/// What a name stands for is what the first branch or tag of that very name
/// stands for; where it stands for nothing, no branch or tag has the name.
pub proof fn refs_are_found_by_name(refs: Seq<SnapshotReference>, name: Seq<char>)
    ensures
        find_ref(refs, name) matches Some(id) ==> exists|i: int|
            0 <= i < refs.len() && (#[trigger] refs[i]).name@ == name && refs[i].snapshot_id == id
                && forall|j: int| 0 <= j < i ==> (#[trigger] refs[j]).name@ != name,
        find_ref(refs, name) is None ==> forall|i: int|
            0 <= i < refs.len() ==> (#[trigger] refs[i]).name@ != name,
    decreases refs.len(),
{
    if refs.len() > 0 {
        if refs[0].name@ != name {
            let rest = refs.drop_first();
            refs_are_found_by_name(rest, name);
            match find_ref(rest, name) {
                Some(id) => {
                    let i = choose|i: int|
                        0 <= i < rest.len() && (#[trigger] rest[i]).name@ == name
                            && rest[i].snapshot_id == id && forall|j: int|
                            0 <= j < i ==> (#[trigger] rest[j]).name@ != name;
                    assert(refs[i + 1].name@ == name);
                    assert forall|j: int| 0 <= j < i + 1 implies (#[trigger] refs[j]).name@
                        != name by {
                        if j > 0 {
                            assert(rest[j - 1] == refs[j]);
                        }
                    }
                },
                None => {
                    assert forall|i: int| 0 <= i < refs.len() implies (#[trigger] refs[i]).name@
                        != name by {
                        if i > 0 {
                            assert(rest[i - 1] == refs[i]);
                        }
                    }
                },
            }
        } else {
            assert(refs[0].name@ == name);
        }
    }
}

/// The tip of a branch has the id that a branch of that very name stands for, and
/// is one of the snapshots. Where no branch has the name there is no tip.
pub proof fn tip_is_that_of_the_branch(metadata: TableMetadata, branch: Seq<char>)
    ensures
        metadata.tip(branch) matches Some(tip) ==> metadata.snapshots@.contains(tip) && exists|
            i: int,
        |
            0 <= i < metadata.refs@.len() && (#[trigger] metadata.refs@[i]).name@ == branch
                && metadata.refs@[i].snapshot_id == tip.snapshot_id,
        (forall|i: int|
            0 <= i < metadata.refs@.len() ==> (#[trigger] metadata.refs@[i]).name@ != branch)
            ==> metadata.tip(branch) is None,
{
    refs_are_found_by_name(metadata.refs@, branch);
    if let Some(id) = find_ref(metadata.refs@, branch) {
        snapshots_are_found_by_id(metadata.snapshots@, id);
        if let Some(tip) = metadata.tip(branch) {
            let i = choose|i: int|
                0 <= i < metadata.refs@.len() && (#[trigger] metadata.refs@[i]).name@ == branch
                    && metadata.refs@[i].snapshot_id == id;
            assert(metadata.refs@[i].snapshot_id == tip.snapshot_id);
        }
    }
}

/// Where only one branch has the name, its tip is a snapshot with the id that
/// this branch stands for, whatever other branches there are; there is one
/// wherever some snapshot has that id.
pub proof fn branches_do_not_mix(metadata: TableMetadata, at: int, snapshot: int)
    requires
        0 <= at < metadata.refs@.len(),
        forall|i: int|
            0 <= i < metadata.refs@.len() && i != at ==> (#[trigger] metadata.refs@[i]).name@
                != metadata.refs@[at].name@,
        0 <= snapshot < metadata.snapshots@.len(),
        metadata.snapshots@[snapshot].snapshot_id == metadata.refs@[at].snapshot_id,
    ensures
        metadata.tip(metadata.refs@[at].name@) matches Some(tip) && tip.snapshot_id
            == metadata.refs@[at].snapshot_id,
{
    let name = metadata.refs@[at].name@;
    refs_are_found_by_name(metadata.refs@, name);
    assert(metadata.refs@[at].name@ == name);
    let id = find_ref(metadata.refs@, name)->Some_0;
    let i = choose|i: int|
        0 <= i < metadata.refs@.len() && (#[trigger] metadata.refs@[i]).name@ == name
            && metadata.refs@[i].snapshot_id == id;
    assert(i == at);
    snapshots_are_found_by_id(metadata.snapshots@, id);
    assert(metadata.snapshots@[snapshot].snapshot_id == id);
}

/// Where the ids of the snapshots differ, each is found by its own.
pub proof fn each_snapshot_is_found(snapshots: Seq<Snapshot>, at: int)
    requires
        0 <= at < snapshots.len(),
        forall|i: int, j: int|
            0 <= i < j < snapshots.len() ==> (#[trigger] snapshots[i]).snapshot_id != (
            #[trigger] snapshots[j]).snapshot_id,
    ensures
        find_snapshot(snapshots, snapshots[at].snapshot_id) == Some(snapshots[at]),
{
    let id = snapshots[at].snapshot_id;
    snapshots_are_found_by_id(snapshots, id);
    assert(find_snapshot(snapshots, id) is Some);
    let found = find_snapshot(snapshots, id)->Some_0;
    let i = choose|i: int|
        0 <= i < snapshots.len() && #[trigger] snapshots[i] == found && found.snapshot_id == id;
    if i < at {
        assert(snapshots[i].snapshot_id != snapshots[at].snapshot_id);
    } else if at < i {
        assert(snapshots[at].snapshot_id != snapshots[i].snapshot_id);
    }
}

/// Two field values count as equal exactly where they are of the same type and
/// hold the same value.
pub open spec fn same_value(left: Literal, right: Literal) -> bool {
    match (left, right) {
        (Literal::Boolean(mine), Literal::Boolean(theirs)) => mine == theirs,
        (Literal::Int(mine), Literal::Int(theirs)) => mine == theirs,
        (Literal::Long(mine), Literal::Long(theirs)) => mine == theirs,
        (Literal::FloatBits(mine), Literal::FloatBits(theirs)) => mine == theirs,
        (Literal::DoubleBits(mine), Literal::DoubleBits(theirs)) => mine == theirs,
        (Literal::Int128(mine), Literal::Int128(theirs)) => mine == theirs,
        (Literal::UInt128(mine), Literal::UInt128(theirs)) => mine == theirs,
        (Literal::Text(mine), Literal::Text(theirs)) => mine@ == theirs@,
        (Literal::Binary(mine), Literal::Binary(theirs)) => mine@ == theirs@,
        _ => false,
    }
}

/// The mathematical values of field values are equal exactly where the values are.
pub proof fn values_are_kept_apart(left: Literal, right: Literal)
    ensures
        left@ == right@ <==> same_value(left, right),
{
}

/// Both files lie in the same partition: of the same spec, with the same value or
/// none in each field.
pub open spec fn same_partition(left: DataFile, right: DataFile) -> bool {
    &&& left.partition_spec_id == right.partition_spec_id
    &&& left.partition@.len() == right.partition@.len()
    &&& forall|i: int|
        0 <= i < left.partition@.len() ==> match (
            #[trigger] left.partition@[i],
            right.partition@[i],
        ) {
            (None, None) => true,
            (Some(mine), Some(theirs)) => same_value(mine, theirs),
            _ => false,
        }
}

/// Files share a partition exactly where spec and values of all fields agree.
pub proof fn partitions_are_compared_field_by_field(left: DataFile, right: DataFile)
    ensures
        left.shares_partition(right) <==> same_partition(left, right),
{
    let mine = partition_values(left.partition@);
    let theirs = partition_values(right.partition@);
    if same_partition(left, right) {
        assert forall|i: int| 0 <= i < mine.len() implies mine[i] == theirs[i] by {
            assert(left.partition@[i] == left.partition@[i]);
            if left.partition@[i] is Some {
                values_are_kept_apart(left.partition@[i]->Some_0, right.partition@[i]->Some_0);
            }
        }
        assert(mine =~= theirs);
    }
    if left.shares_partition(right) {
        assert(mine.len() == theirs.len());
        assert forall|i: int| 0 <= i < left.partition@.len() implies match (
            #[trigger] left.partition@[i],
            right.partition@[i],
        ) {
            (None, None) => true,
            (Some(mine), Some(theirs)) => same_value(mine, theirs),
            _ => false,
        } by {
            assert(mine[i] == theirs[i]);
            if left.partition@[i] is Some && right.partition@[i] is Some {
                values_are_kept_apart(left.partition@[i]->Some_0, right.partition@[i]->Some_0);
            }
        }
    }
}

/// The bound of the `file_path` column, which has the field id 2147483546, is the
/// given text: it stands under that id before any other bound that does.
pub open spec fn path_is_bounded_by(bounds: Seq<(i32, Literal)>, text: Seq<char>) -> bool {
    exists|i: int|
        0 <= i < bounds.len() && (#[trigger] bounds[i]).0 == 2147483546 && (
        bounds[i].1 matches Literal::Text(value) && value@ == text) && forall|j: int|
            0 <= j < i ==> (#[trigger] bounds[j]).0 != 2147483546
}

/// The bound that is found under the `file_path` column is the text that stands there.
proof fn path_bounds_are_found(bounds: Seq<(i32, Literal)>, text: Seq<char>)
    ensures
        bound_of(bounds, 2147483546) == Some(LiteralView::Text(text)) <==> path_is_bounded_by(
            bounds,
            text,
        ),
    decreases bounds.len(),
{
    if bounds.len() > 0 {
        if bounds[0].0 == 2147483546 {
            if path_is_bounded_by(bounds, text) {
                let i = choose|i: int|
                    0 <= i < bounds.len() && (#[trigger] bounds[i]).0 == 2147483546 && (
                    bounds[i].1 matches Literal::Text(value) && value@ == text) && forall|j: int|
                        0 <= j < i ==> (#[trigger] bounds[j]).0 != 2147483546;
                assert(i == 0);
            }
            if bound_of(bounds, 2147483546) == Some(LiteralView::Text(text)) {
                assert(bounds[0].1@ == LiteralView::Text(text));
                assert(bounds[0].1 is Text);
                assert(bounds[0].0 == 2147483546);
            }
        } else {
            let rest = bounds.drop_first();
            path_bounds_are_found(rest, text);
            if path_is_bounded_by(rest, text) {
                let i = choose|i: int|
                    0 <= i < rest.len() && (#[trigger] rest[i]).0 == 2147483546 && (
                    rest[i].1 matches Literal::Text(value) && value@ == text) && forall|j: int|
                        0 <= j < i ==> (#[trigger] rest[j]).0 != 2147483546;
                assert(bounds[i + 1].0 == 2147483546);
                assert forall|j: int| 0 <= j < i + 1 implies (#[trigger] bounds[j]).0
                    != 2147483546 by {
                    if j > 0 {
                        assert(rest[j - 1] == bounds[j]);
                    }
                }
            }
            if path_is_bounded_by(bounds, text) {
                let i = choose|i: int|
                    0 <= i < bounds.len() && (#[trigger] bounds[i]).0 == 2147483546 && (
                    bounds[i].1 matches Literal::Text(value) && value@ == text) && forall|j: int|
                        0 <= j < i ==> (#[trigger] bounds[j]).0 != 2147483546;
                assert(rest[i - 1] == bounds[i]);
                assert forall|j: int| 0 <= j < i - 1 implies (#[trigger] rest[j]).0
                    != 2147483546 by {
                    assert(bounds[j + 1] == rest[j]);
                }
            }
        }
    }
}

/// A delete file is known to be about the given data file alone: it references
/// it, or it references none and both bounds of its `file_path` column are the path.
pub open spec fn is_about_only(delete: DataFile, path: Seq<char>) -> bool {
    match delete.referenced_data_file {
        Some(referenced) => referenced@ == path,
        None => path_is_bounded_by(delete.lower_bounds@, path) && path_is_bounded_by(
            delete.upper_bounds@,
            path,
        ),
    }
}

/// The only target of a delete file is the data file that it references, or that
/// both its bounds are, however it is known.
pub proof fn only_target_is_referenced_or_bounded(delete: DataFile, path: Seq<char>)
    ensures
        delete.only_target() == Some(path) <==> is_about_only(delete, path),
{
    path_bounds_are_found(delete.lower_bounds@, path);
    path_bounds_are_found(delete.upper_bounds@, path);
}

/// A file holds deletes exactly where its rows stand for positions or values of
/// deleted rows.
pub proof fn deletes_are_told_by_content(file: DataFile)
    ensures
        file.holds_deletes() <==> file.content == DataContentType::PositionDeletes || file.content
            == DataContentType::EqualityDeletes,
        !file.holds_deletes() <==> file.content == DataContentType::Data,
{
}

/// Added and existing entries are part of the table, deleted ones are not; and
/// the paths of files, entries and manifests are those that they hold.
pub proof fn entries_are_told_by_their_fields(
    file: DataFile,
    entry: ManifestEntry,
    manifest: ManifestFile,
)
    ensures
        entry.alive() <==> entry.status == ManifestStatus::Added || entry.status
            == ManifestStatus::Existing,
        file.path() == file.file_path@,
        entry.path() == entry.data_file.file_path@,
        manifest.path() == manifest.manifest_path@,
{
}

} // verus!

//! Orphan files and their order.

use vstd::prelude::*;
use vstd::seq_lib::{group_to_multiset_ensures, lemma_seq_union_to_multiset_commutative};

use crate::text::{is_before, text_not_after, text_not_after_transitive, text_order_asymmetric};

verus! {

/// A file under the table location that is not referenced by any snapshot
/// or table metadata.
#[derive(Debug, Clone, PartialEq, Eq)]
pub struct OrphanFile {
    /// Absolute path of the orphan file.
    pub path: String,
    /// Size of the file in bytes, as reported by the storage listing.
    pub size_bytes: u64,
}

/// The files stand in the order of their paths.
pub open spec fn ordered_by_path(files: Seq<OrphanFile>) -> bool {
    forall|i: int, j: int|
        0 <= i < j < files.len() ==> text_not_after(
            (#[trigger] files[i]).path@,
            (#[trigger] files[j]).path@,
        )
}

/// No file of the one sequence stands after one of the other.
spec fn all_not_after(lower: Seq<OrphanFile>, upper: Seq<OrphanFile>) -> bool {
    forall|i: int, j: int|
        0 <= i < lower.len() && 0 <= j < upper.len() ==> text_not_after(
            (#[trigger] lower[i]).path@,
            (#[trigger] upper[j]).path@,
        )
}

/// Puts files into reverse order.
fn reversed(files: Vec<OrphanFile>) -> (turned: Vec<OrphanFile>)
    ensures
        turned@ == files@.reverse(),
{
    let mut rest: Vec<OrphanFile> = files;
    let mut turned: Vec<OrphanFile> = Vec::new();
    while rest.len() > 0
        invariant
            turned@.len() + rest@.len() == files@.len(),
            rest@ =~= files@.take(rest@.len() as int),
            forall|i: int|
                0 <= i < turned@.len() ==> #[trigger] turned@[i] == files@[files@.len() - 1 - i],
        decreases rest@.len(),
    {
        if let Some(file) = rest.pop() {
            turned.push(file);
        }
    }
    turned
}

/// Merges two sequences that stand in the order of their paths.
fn merge(left: Vec<OrphanFile>, right: Vec<OrphanFile>) -> (merged: Vec<OrphanFile>)
    requires
        ordered_by_path(left@),
        ordered_by_path(right@),
    ensures
        ordered_by_path(merged@),
        merged@.to_multiset() == left@.to_multiset().add(right@.to_multiset()),
{
    broadcast use group_to_multiset_ensures;

    let mut lower: Vec<OrphanFile> = left;
    let mut upper: Vec<OrphanFile> = right;
    let mut taken: Vec<OrphanFile> = Vec::new();
    let ghost total = left@.to_multiset().add(right@.to_multiset());
    while lower.len() > 0 || upper.len() > 0
        invariant
            ordered_by_path(lower@),
            ordered_by_path(upper@),
            ordered_by_path(taken@.reverse()),
            all_not_after(lower@, taken@),
            all_not_after(upper@, taken@),
            lower@.to_multiset().add(upper@.to_multiset()).add(taken@.to_multiset()) =~= total,
        decreases lower@.len() + upper@.len(),
    {
        let ghost old_lower = lower@;
        let ghost old_upper = upper@;
        let ghost old_taken = taken@;
        let from_lower: bool = if lower.len() == 0 {
            false
        } else if upper.len() == 0 {
            true
        } else {
            is_before(
                upper[upper.len() - 1].path.as_str(),
                lower[lower.len() - 1].path.as_str(),
            )
        };
        let popped: Option<OrphanFile> = if from_lower {
            lower.pop()
        } else {
            upper.pop()
        };
        if let Some(file) = popped {
            taken.push(file);
            proof {
                if from_lower && old_upper.len() > 0 {
                    text_order_asymmetric(old_upper.last().path@, old_lower.last().path@);
                }
                merge_step(old_lower, old_upper, old_taken, from_lower);
                if from_lower {
                    assert(lower@ =~= old_lower.drop_last());
                } else {
                    assert(upper@ =~= old_upper.drop_last());
                }
            }
        }
    }
    let merged: Vec<OrphanFile> = reversed(taken);
    proof {
        taken@.lemma_reverse_to_multiset();
        assert(lower@ =~= Seq::empty());
        assert(upper@ =~= Seq::empty());
        assert(merged@.to_multiset() =~= total);
    }
    merged
}

/// Moving the last file of the sequence whose last file is not before that of
/// the other keeps everything in order.
proof fn merge_step(
    lower: Seq<OrphanFile>,
    upper: Seq<OrphanFile>,
    taken: Seq<OrphanFile>,
    from_lower: bool,
)
    requires
        ordered_by_path(lower),
        ordered_by_path(upper),
        ordered_by_path(taken.reverse()),
        all_not_after(lower, taken),
        all_not_after(upper, taken),
        from_lower ==> lower.len() > 0 && (upper.len() > 0 ==> text_not_after(
            upper.last().path@,
            lower.last().path@,
        )),
        !from_lower ==> upper.len() > 0 && (lower.len() > 0 ==> text_not_after(
            lower.last().path@,
            upper.last().path@,
        )),
    ensures
        ({
            let new_lower = if from_lower { lower.drop_last() } else { lower };
            let new_upper = if from_lower { upper } else { upper.drop_last() };
            let new_taken = taken.push(if from_lower { lower.last() } else { upper.last() });
            &&& ordered_by_path(new_lower)
            &&& ordered_by_path(new_upper)
            &&& ordered_by_path(new_taken.reverse())
            &&& all_not_after(new_lower, new_taken)
            &&& all_not_after(new_upper, new_taken)
            &&& new_lower.to_multiset().add(new_upper.to_multiset()).add(new_taken.to_multiset())
                == lower.to_multiset().add(upper.to_multiset()).add(taken.to_multiset())
        }),
{
    if from_lower {
        move_last(lower, upper, taken);
        assert(lower.drop_last().to_multiset().add(upper.to_multiset()).add(
            taken.push(lower.last()).to_multiset(),
        ) =~= lower.to_multiset().add(upper.to_multiset()).add(taken.to_multiset()));
    } else {
        move_last(upper, lower, taken);
        assert(lower.to_multiset().add(upper.drop_last().to_multiset()).add(
            taken.push(upper.last()).to_multiset(),
        ) =~= lower.to_multiset().add(upper.to_multiset()).add(taken.to_multiset()));
    }
}

/// Moving the last file of `from` to the end of `taken`.
proof fn move_last(from: Seq<OrphanFile>, other: Seq<OrphanFile>, taken: Seq<OrphanFile>)
    requires
        ordered_by_path(from),
        ordered_by_path(other),
        ordered_by_path(taken.reverse()),
        all_not_after(from, taken),
        all_not_after(other, taken),
        from.len() > 0,
        other.len() > 0 ==> text_not_after(other.last().path@, from.last().path@),
    ensures
        ordered_by_path(from.drop_last()),
        ordered_by_path(taken.push(from.last()).reverse()),
        all_not_after(from.drop_last(), taken.push(from.last())),
        all_not_after(other, taken.push(from.last())),
        from.to_multiset() == from.drop_last().to_multiset().insert(from.last()),
        taken.push(from.last()).to_multiset() == taken.to_multiset().insert(from.last()),
{
    broadcast use group_to_multiset_ensures;

    let file = from.last();
    let longer = taken.push(file);
    assert(from =~= from.drop_last().push(file));
    assert forall|i: int, j: int| 0 <= i < j < longer.reverse().len() implies text_not_after(
        (#[trigger] longer.reverse()[i]).path@,
        (#[trigger] longer.reverse()[j]).path@,
    ) by {
        let n = longer.len() as int;
        if i == 0 {
            assert(text_not_after(from[from.len() - 1].path@, taken[n - 1 - j].path@));
        } else {
            assert(taken.reverse()[i - 1] == longer.reverse()[i]);
            assert(taken.reverse()[j - 1] == longer.reverse()[j]);
        }
    }
    assert forall|i: int, j: int|
        0 <= i < from.drop_last().len() && 0 <= j < longer.len() implies text_not_after(
        (#[trigger] from.drop_last()[i]).path@,
        (#[trigger] longer[j]).path@,
    ) by {
        if j < taken.len() {
            assert(text_not_after(from[i].path@, taken[j].path@));
        } else {
            assert(text_not_after(from[i].path@, from[from.len() - 1].path@));
        }
    }
    assert forall|i: int, j: int| 0 <= i < other.len() && 0 <= j < longer.len() implies text_not_after(
        (#[trigger] other[i]).path@,
        (#[trigger] longer[j]).path@,
    ) by {
        if j < taken.len() {
            assert(text_not_after(other[i].path@, taken[j].path@));
        } else {
            let last = other.len() - 1;
            if i < last {
                assert(text_not_after(other[i].path@, other[last].path@));
                text_not_after_transitive(other[i].path@, other[last].path@, file.path@);
            }
        }
    }
}

/// Returns the files in the order of their paths.
pub fn sort_by_path(files: Vec<OrphanFile>) -> (sorted: Vec<OrphanFile>)
    ensures
        ordered_by_path(sorted@),
        sorted@.to_multiset() == files@.to_multiset(),
    decreases files@.len(),
{
    if files.len() < 2 {
        return files;
    }
    let mut left: Vec<OrphanFile> = files;
    let middle: usize = left.len() / 2;
    let right: Vec<OrphanFile> = left.split_off(middle);
    proof {
        assert(files@ =~= left@ + right@);
        lemma_seq_union_to_multiset_commutative(left@, right@);
        broadcast use group_to_multiset_ensures;
        vstd::seq_lib::lemma_multiset_commutative(left@, right@);
    }
    merge(sort_by_path(left), sort_by_path(right))
}

} // verus!

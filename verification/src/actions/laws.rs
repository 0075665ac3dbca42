//! What holds of every execution of the orphan-file action.

use vstd::prelude::*;

use crate::actions::orphan_file::{ordered_by_path, OrphanFile};
use crate::actions::orphan_run::{
    orphan_paths, run_start, sorts, FileEntry, OrphanCommandView, OrphanEventView, OrphanPhase,
    OrphanRunView,
};
use crate::actions::reachable::{
    add_manifests, entry_paths, has_manifest, manifest_list_paths, manifest_paths, named_files,
};
use crate::actions::remove_orphan_files::OrphanSettings;
use crate::metadata::manifest::{ManifestEntry, ManifestFile};
use crate::metadata::storage::Storage;
use crate::metadata::table::{Snapshot, Table};
use crate::text::{
    text_before, text_not_after, text_not_after_transitive, text_order_asymmetric,
    text_order_irreflexive, text_order_total,
};

verus! {

/// The states and commands that a sequence of events leads to, starting from an
/// execution with the given choices.
pub open spec fn leads_through(
    settings: OrphanSettings,
    events: Seq<OrphanEventView>,
    states: Seq<OrphanRunView>,
    commands: Seq<OrphanCommandView>,
) -> bool {
    &&& states.len() == events.len() + 1
    &&& commands.len() == events.len() + 1
    &&& (states[0], commands[0]) == run_start(settings)
    &&& forall|i: int|
        0 <= i < events.len() ==> states[i].leads_to(
            #[trigger] events[i],
            states[i + 1],
            commands[i + 1],
        )
}

/// Each event is one that the run waits for when it comes.
pub open spec fn all_expected(events: Seq<OrphanEventView>, states: Seq<OrphanRunView>) -> bool {
    forall|i: int| 0 <= i < events.len() ==> states[i].expects(#[trigger] events[i])
}

/// An execution, as far as the events go.
pub open spec fn is_execution(
    settings: OrphanSettings,
    events: Seq<OrphanEventView>,
    states: Seq<OrphanRunView>,
    commands: Seq<OrphanCommandView>,
) -> bool {
    leads_through(settings, events, states, commands) && all_expected(events, states)
}

/// The files that were found reachable: those that the table metadata names, the
/// manifests of the lists that were loaded, and the files that the entries of
/// loaded manifests name.
pub open spec fn reached(table: Table, events: Seq<OrphanEventView>) -> Set<Seq<char>>
    decreases events.len(),
{
    if events.len() == 0 {
        named_files(table)
    } else {
        let before = reached(table, events.drop_last());
        match events.last() {
            OrphanEventView::ManifestList(list) => before.union(manifest_paths(list).to_set()),
            OrphanEventView::Manifest(entries) => before.union(entry_paths(entries).to_set()),
            _ => before,
        }
    }
}

/// The manifests of all lists that were loaded.
pub open spec fn listed_manifests(events: Seq<OrphanEventView>) -> Seq<ManifestFile>
    decreases events.len(),
{
    if events.len() == 0 {
        Seq::empty()
    } else {
        let before = listed_manifests(events.drop_last());
        match events.last() {
            OrphanEventView::ManifestList(list) => before + list,
            _ => before,
        }
    }
}

/// The entries that the storage listed.
pub open spec fn listed_entries(events: Seq<OrphanEventView>) -> Seq<FileEntry>
    decreases events.len(),
{
    if events.len() == 0 {
        Seq::empty()
    } else {
        let before = listed_entries(events.drop_last());
        match events.last() {
            OrphanEventView::Listed(entry) => before.push(entry),
            _ => before,
        }
    }
}

/// The listed entries that are orphans.
pub open spec fn orphans_among(
    listed: Seq<FileEntry>,
    older_than_ms: i64,
    reachable: Set<Seq<char>>,
) -> Seq<OrphanFile> {
    listed.filter(
        |entry: FileEntry| entry.is_old_file(older_than_ms) && !reachable.contains(entry.path@),
    ).map_values(|entry: FileEntry| entry.as_orphan())
}

/// The orphans of an execution.
pub open spec fn orphans_of(settings: OrphanSettings, events: Seq<OrphanEventView>) -> Seq<
    OrphanFile,
> {
    orphans_among(listed_entries(events), settings.older_than_ms, reached(settings.table, events))
}

/// What the state holds after some events.
spec fn holds_after(
    settings: OrphanSettings,
    events: Seq<OrphanEventView>,
    state: OrphanRunView,
) -> bool {
    &&& state.location == settings.table.metadata.location@
    &&& state.older_than_ms == settings.older_than_ms
    &&& state.dry_run == settings.dry_run
    &&& state.load_concurrency == settings.load_concurrency
    &&& state.reachable.files == reached(settings.table, events)
    &&& match state.phase {
        OrphanPhase::ManifestLists => {
            &&& state.reachable.manifests == add_manifests(Seq::empty(), listed_manifests(events))
            &&& listed_entries(events).len() == 0
            &&& state.orphans.len() == 0
        },
        OrphanPhase::Manifests => listed_entries(events).len() == 0 && state.orphans.len() == 0,
        OrphanPhase::Listing => state.orphans == orphans_of(settings, events),
        OrphanPhase::Deleting => !settings.dry_run && sorts(
            orphans_of(settings, events),
            state.orphans,
        ),
        OrphanPhase::Finished => true,
    }
}

/// Taking in one list after another takes in all of them.
proof fn add_manifests_in_parts(
    manifests: Seq<ManifestFile>,
    first: Seq<ManifestFile>,
    second: Seq<ManifestFile>,
)
    ensures
        add_manifests(manifests, first + second) == add_manifests(
            add_manifests(manifests, first),
            second,
        ),
    decreases second.len(),
{
    if second.len() == 0 {
        assert(first + second =~= first);
    } else {
        assert((first + second).drop_last() =~= first + second.drop_last());
        add_manifests_in_parts(manifests, first, second.drop_last());
    }
}

/// One more listed entry.
pub proof fn orphans_among_push(
    listed: Seq<FileEntry>,
    entry: FileEntry,
    older_than_ms: i64,
    reachable: Set<Seq<char>>,
)
    ensures
        orphans_among(listed.push(entry), older_than_ms, reachable) == (if entry.is_old_file(
            older_than_ms,
        ) && !reachable.contains(entry.path@) {
            orphans_among(listed, older_than_ms, reachable).push(entry.as_orphan())
        } else {
            orphans_among(listed, older_than_ms, reachable)
        }),
{
    let kept = |entry: FileEntry|
        entry.is_old_file(older_than_ms) && !reachable.contains(entry.path@);
    listed.lemma_filter_push(entry, kept);
    if kept(entry) {
        assert(orphans_among(listed.push(entry), older_than_ms, reachable) =~= orphans_among(
            listed,
            older_than_ms,
            reachable,
        ).push(entry.as_orphan()));
    }
}

/// What each state of an execution holds.
proof fn state_holds(
    settings: OrphanSettings,
    events: Seq<OrphanEventView>,
    states: Seq<OrphanRunView>,
    commands: Seq<OrphanCommandView>,
    n: int,
)
    requires
        is_execution(settings, events, states, commands),
        0 <= n <= events.len(),
    ensures
        holds_after(settings, events.take(n), states[n]),
    decreases n,
{
    if n == 0 {
        assert(events.take(0).len() == 0);
    } else {
        let before = events.take(n - 1);
        let event = events[n - 1];
        let state = states[n - 1];
        state_holds(settings, events, states, commands, n - 1);
        assert(events.take(n).drop_last() =~= before);
        assert(events.take(n).last() == event);
        assert(state.expects(event));
        assert(state.leads_to(event, states[n], commands[n]));
        match event {
            OrphanEventView::ManifestList(list) => {
                add_manifests_in_parts(Seq::empty(), listed_manifests(before), list);
            },
            OrphanEventView::ManifestsLoaded => {
                reveal(Seq::filter);
                assert(orphans_of(settings, events.take(n)) =~= Seq::empty());
                assert(states[n].orphans =~= Seq::empty());
            },
            OrphanEventView::Listed(entry) => {
                orphans_among_push(
                    listed_entries(before),
                    entry,
                    settings.older_than_ms,
                    reached(settings.table, before),
                );
            },
            _ => {},
        }
    }
}

/// The choices of an execution stay as they are.
pub proof fn settings_stay(
    settings: OrphanSettings,
    events: Seq<OrphanEventView>,
    states: Seq<OrphanRunView>,
    commands: Seq<OrphanCommandView>,
    n: int,
)
    requires
        is_execution(settings, events, states, commands),
        0 <= n <= events.len(),
    ensures
        states[n].location == settings.table.metadata.location@,
        states[n].older_than_ms == settings.older_than_ms,
        states[n].dry_run == settings.dry_run,
        states[n].load_concurrency == settings.load_concurrency,
{
    state_holds(settings, events, states, commands, n);
}

/// Once an execution has ended, no more events are waited for.
pub proof fn nothing_follows(
    settings: OrphanSettings,
    events: Seq<OrphanEventView>,
    states: Seq<OrphanRunView>,
    commands: Seq<OrphanCommandView>,
    n: int,
)
    requires
        is_execution(settings, events, states, commands),
        0 <= n <= events.len(),
        states[n].phase == OrphanPhase::Finished,
    ensures
        n == events.len(),
{
    if n < events.len() {
        assert(states[n].expects(events[n]));
    }
}

/// An execution that returns files returns exactly its orphans, in the order of
/// their paths.
pub proof fn orphans_are_returned(
    settings: OrphanSettings,
    events: Seq<OrphanEventView>,
    states: Seq<OrphanRunView>,
    commands: Seq<OrphanCommandView>,
)
    requires
        is_execution(settings, events, states, commands),
        commands.last() is Return,
    ensures
        sorts(orphans_of(settings, events), commands.last()->Return_0),
{
    let n = events.len() as int;
    assert(n > 0);
    state_holds(settings, events, states, commands, n - 1);
    assert(states[n - 1].expects(events[n - 1]));
    assert(states[n - 1].leads_to(events[n - 1], states[n], commands[n]));
    assert(events.drop_last() =~= events.take(n - 1));
}

/// Files are deleted only when all that is reachable is known and the whole
/// location has been listed; exactly the orphans are deleted, in the order of
/// their paths, and never in a dry run.
pub proof fn orphans_are_deleted(
    settings: OrphanSettings,
    events: Seq<OrphanEventView>,
    states: Seq<OrphanRunView>,
    commands: Seq<OrphanCommandView>,
    at: int,
)
    requires
        is_execution(settings, events, states, commands),
        0 <= at < commands.len(),
        commands[at] is Delete,
    ensures
        !settings.dry_run,
        at > 0 && events[at - 1] is ListingLoaded,
        commands[at]->Delete_0 == orphan_paths(states[at].orphans),
        sorts(orphans_of(settings, events.take(at)), states[at].orphans),
{
    assert(at > 0);
    state_holds(settings, events, states, commands, at - 1);
    state_holds(settings, events, states, commands, at);
    assert(states[at - 1].leads_to(events[at - 1], states[at], commands[at]));
}

/// What is returned after a deletion is what was deleted.
pub proof fn deleted_files_are_returned(
    settings: OrphanSettings,
    events: Seq<OrphanEventView>,
    states: Seq<OrphanRunView>,
    commands: Seq<OrphanCommandView>,
    at: int,
)
    requires
        is_execution(settings, events, states, commands),
        0 <= at < commands.len() - 1,
        commands[at] is Delete,
        commands[at + 1] is Return,
    ensures
        commands[at]->Delete_0 == orphan_paths(commands[at + 1]->Return_0),
        at + 2 == commands.len(),
{
    assert(at > 0);
    assert(states[at - 1].leads_to(events[at - 1], states[at], commands[at]));
    assert(states[at].expects(events[at]));
    assert(states[at].leads_to(events[at], states[at + 1], commands[at + 1]));
    nothing_follows(settings, events, states, commands, at + 1);
}

/// A dry run deletes nothing.
pub proof fn dry_run_deletes_nothing(
    settings: OrphanSettings,
    events: Seq<OrphanEventView>,
    states: Seq<OrphanRunView>,
    commands: Seq<OrphanCommandView>,
)
    requires
        is_execution(settings, events, states, commands),
        settings.dry_run,
    ensures
        forall|i: int| 0 <= i < commands.len() ==> (#[trigger] commands[i]) !is Delete,
{
    assert forall|i: int| 0 <= i < commands.len() implies (#[trigger] commands[i]) !is Delete by {
        if commands[i] is Delete {
            orphans_are_deleted(settings, events, states, commands, i);
        }
    }
}

/// A failure ends the execution with that failure, and where nothing had been
/// asked to be deleted before, nothing is.
pub proof fn failure_ends_the_execution(
    settings: OrphanSettings,
    events: Seq<OrphanEventView>,
    states: Seq<OrphanRunView>,
    commands: Seq<OrphanCommandView>,
    at: int,
)
    requires
        is_execution(settings, events, states, commands),
        0 <= at < events.len(),
        events[at] is Failed,
    ensures
        at + 1 == events.len(),
        commands.last() == OrphanCommandView::Fail(events[at]->Failed_0),
        states[at].phase != OrphanPhase::Deleting ==> forall|i: int|
            0 <= i < commands.len() ==> (#[trigger] commands[i]) !is Delete,
{
    assert(states[at].expects(events[at]));
    assert(states[at].leads_to(events[at], states[at + 1], commands[at + 1]));
    nothing_follows(settings, events, states, commands, at + 1);
    if states[at].phase != OrphanPhase::Deleting {
        assert forall|i: int| 0 <= i < commands.len() implies (#[trigger] commands[i]) !is Delete by {
            if commands[i] is Delete {
                orphans_are_deleted(settings, events, states, commands, i);
                assert(states[i - 1].leads_to(events[i - 1], states[i], commands[i]));
                if i < at {
                    assert(states[i].expects(events[i]));
                    assert(states[i].leads_to(events[i], states[i + 1], commands[i + 1]));
                    nothing_follows(settings, events, states, commands, i + 1);
                }
            }
        }
    }
}

/// A file was found reachable exactly where the table metadata names it, or a
/// manifest list or manifest that was loaded does; the order does not matter.
pub proof fn what_is_reached(table: Table, events: Seq<OrphanEventView>, path: Seq<char>)
    ensures
        reached(table, events).contains(path) <==> {
            ||| named_files(table).contains(path)
            ||| exists|i: int| 0 <= i < events.len() && names(#[trigger] events[i], path)
        },
    decreases events.len(),
{
    if events.len() > 0 {
        let before = events.drop_last();
        what_is_reached(table, before, path);
        match events.last() {
            OrphanEventView::ManifestList(list) => {
                assert(manifest_paths(list).to_set().contains(path) == manifest_paths(
                    list,
                ).contains(path));
            },
            OrphanEventView::Manifest(entries) => {
                assert(entry_paths(entries).to_set().contains(path) == entry_paths(
                    entries,
                ).contains(path));
            },
            _ => {},
        }
        if reached(table, before).contains(path) && !named_files(table).contains(path) {
            let i = choose|i: int| 0 <= i < before.len() && names(#[trigger] before[i], path);
            assert(names(events[i], path));
        }
        if names(events.last(), path) {
            assert(names(events[events.len() - 1], path));
        }
        if exists|i: int| 0 <= i < events.len() && names(#[trigger] events[i], path) {
            let i = choose|i: int| 0 <= i < events.len() && names(#[trigger] events[i], path);
            if i < before.len() {
                assert(names(before[i], path));
            }
        }
    }
}

/// The event tells of a file of the given path that is reachable.
pub open spec fn names(event: OrphanEventView, path: Seq<char>) -> bool {
    match event {
        OrphanEventView::ManifestList(list) => manifest_paths(list).contains(path),
        OrphanEventView::Manifest(entries) => entry_paths(entries).contains(path),
        _ => false,
    }
}

/// A file is an orphan exactly where the storage listed it as a file that was
/// last modified before the threshold, and it is not reachable.
pub proof fn what_is_an_orphan(
    listed: Seq<FileEntry>,
    older_than_ms: i64,
    reachable: Set<Seq<char>>,
    file: OrphanFile,
)
    ensures
        orphans_among(listed, older_than_ms, reachable).contains(file) <==> exists|i: int|
            0 <= i < listed.len() && (#[trigger] listed[i]).as_orphan() == file
                && listed[i].is_old_file(older_than_ms) && !reachable.contains(listed[i].path@),
{
    let kept = |entry: FileEntry|
        entry.is_old_file(older_than_ms) && !reachable.contains(entry.path@);
    let chosen = listed.filter(kept);
    let orphans = orphans_among(listed, older_than_ms, reachable);
    if orphans.contains(file) {
        let j = choose|j: int| 0 <= j < orphans.len() && orphans[j] == file;
        listed.lemma_filter_pred(kept, j);
        listed.lemma_filter_contains_rev(kept, chosen[j]);
        let i = choose|i: int| 0 <= i < listed.len() && listed[i] == chosen[j];
        assert(listed[i].as_orphan() == file);
    }
    if exists|i: int|
        0 <= i < listed.len() && (#[trigger] listed[i]).as_orphan() == file
            && listed[i].is_old_file(older_than_ms) && !reachable.contains(listed[i].path@) {
        let i = choose|i: int|
            0 <= i < listed.len() && (#[trigger] listed[i]).as_orphan() == file
                && listed[i].is_old_file(older_than_ms) && !reachable.contains(listed[i].path@);
        listed.lemma_filter_contains(kept, i);
        let j = choose|j: int| 0 <= j < chosen.len() && chosen[j] == listed[i];
        assert(orphans[j] == file);
    }
}

/// The listed entries are those that the events tell of.
proof fn what_is_listed(events: Seq<OrphanEventView>, entry: FileEntry)
    requires
        listed_entries(events).contains(entry),
    ensures
        events.contains(OrphanEventView::Listed(entry)),
    decreases events.len(),
{
    if events.len() > 0 {
        let before = events.drop_last();
        let at = choose|at: int|
            0 <= at < listed_entries(events).len() && listed_entries(events)[at] == entry;
        if at < listed_entries(before).len() {
            assert(listed_entries(before)[at] == entry);
            what_is_listed(before, entry);
            let i = choose|i: int|
                0 <= i < before.len() && before[i] == OrphanEventView::Listed(entry);
            assert(events[i] == OrphanEventView::Listed(entry));
        } else {
            assert(events[events.len() - 1] == OrphanEventView::Listed(entry));
        }
    }
}

/// A file was listed as one last modified before the threshold, and neither the
/// table metadata nor anything that was loaded names it.
pub open spec fn listed_old_and_unnamed(
    settings: OrphanSettings,
    events: Seq<OrphanEventView>,
    path: Seq<char>,
) -> bool {
    &&& exists|entry: FileEntry|
        entry.path@ == path && entry.is_old_file(settings.older_than_ms)
            && #[trigger] events.contains(OrphanEventView::Listed(entry))
    &&& !named_files(settings.table).contains(path)
    &&& forall|i: int| 0 <= i < events.len() ==> !names(#[trigger] events[i], path)
}

/// The orphans of an execution are old and unreachable.
proof fn orphans_are_old_and_unreachable(
    settings: OrphanSettings,
    events: Seq<OrphanEventView>,
    files: Seq<OrphanFile>,
    file: OrphanFile,
)
    requires
        files.to_multiset() == orphans_of(settings, events).to_multiset(),
        files.contains(file),
    ensures
        listed_old_and_unnamed(settings, events, file.path@),
{
    broadcast use vstd::seq_lib::group_to_multiset_ensures;

    assert(files.to_multiset().count(file) > 0);
    assert(orphans_of(settings, events).contains(file));
    let listed = listed_entries(events);
    let reachable = reached(settings.table, events);
    what_is_an_orphan(listed, settings.older_than_ms, reachable, file);
    let k = choose|k: int|
        0 <= k < listed.len() && (#[trigger] listed[k]).as_orphan() == file
            && listed[k].is_old_file(settings.older_than_ms) && !reachable.contains(
            listed[k].path@,
        );
    let entry = listed[k];
    assert(entry.path@ == file.path@);
    what_is_listed(events, entry);
    assert(events.contains(OrphanEventView::Listed(entry)));
    what_is_reached(settings.table, events, file.path@);
}

/// A file that is returned was listed as a file last modified before the
/// threshold, and neither the table metadata nor anything that was loaded names
/// it. In particular, a file that is only ever listed without a timestamp is not
/// returned.
pub proof fn only_old_unreachable_files_are_returned(
    settings: OrphanSettings,
    events: Seq<OrphanEventView>,
    states: Seq<OrphanRunView>,
    commands: Seq<OrphanCommandView>,
    file: OrphanFile,
)
    requires
        is_execution(settings, events, states, commands),
        commands.last() is Return,
        commands.last()->Return_0.contains(file),
    ensures
        listed_old_and_unnamed(settings, events, file.path@),
{
    orphans_are_returned(settings, events, states, commands);
    orphans_are_old_and_unreachable(settings, events, commands.last()->Return_0, file);
}

/// A file that is deleted was listed as a file last modified before the
/// threshold, and neither the table metadata nor anything that was loaded names
/// it. In particular, a file that is only ever listed without a timestamp is
/// retained.
pub proof fn only_old_unreachable_files_are_deleted(
    settings: OrphanSettings,
    events: Seq<OrphanEventView>,
    states: Seq<OrphanRunView>,
    commands: Seq<OrphanCommandView>,
    at: int,
    path: Seq<char>,
)
    requires
        is_execution(settings, events, states, commands),
        0 <= at < commands.len(),
        commands[at] is Delete,
        commands[at]->Delete_0.contains(path),
    ensures
        listed_old_and_unnamed(settings, events, path),
{
    orphans_are_deleted(settings, events, states, commands, at);
    let before = events.take(at);
    let files = states[at].orphans;
    let j = choose|j: int| 0 <= j < orphan_paths(files).len() && orphan_paths(files)[j] == path;
    assert(files.contains(files[j]));
    orphans_are_old_and_unreachable(settings, before, files, files[j]);
    let entry = choose|entry: FileEntry|
        entry.path@ == path && entry.is_old_file(settings.older_than_ms)
            && #[trigger] before.contains(OrphanEventView::Listed(entry));
    let told = choose|told: int|
        0 <= told < before.len() && before[told] == OrphanEventView::Listed(entry);
    assert(events[told] == OrphanEventView::Listed(entry));
    assert(events.contains(OrphanEventView::Listed(entry)));
    assert forall|i: int| 0 <= i < events.len() implies !names(#[trigger] events[i], path) by {
        if i < at {
            assert(!names(before[i], path));
        } else {
            assert(states[at - 1].leads_to(events[at - 1], states[at], commands[at]));
            assert(states[at].expects(events[at]));
            assert(states[at].leads_to(events[at], states[at + 1], commands[at + 1]));
            nothing_follows(settings, events, states, commands, at + 1);
        }
    }
}

/// Taking in manifests takes in each path once and leaves none out.
proof fn added_manifests(manifests: Seq<ManifestFile>, files: Seq<ManifestFile>)
    requires
        paths_differ(manifests),
    ensures
        paths_differ(add_manifests(manifests, files)),
        forall|i: int|
            0 <= i < manifests.len() ==> has_manifest(
                add_manifests(manifests, files),
                (#[trigger] manifests[i]).path(),
            ),
        forall|i: int|
            0 <= i < files.len() ==> has_manifest(
                add_manifests(manifests, files),
                (#[trigger] files[i]).path(),
            ),
        forall|i: int|
            0 <= i < add_manifests(manifests, files).len() ==> manifests.contains(
                #[trigger] add_manifests(manifests, files)[i],
            ) || files.contains(add_manifests(manifests, files)[i]),
    decreases files.len(),
{
    let all = add_manifests(manifests, files);
    if files.len() == 0 {
        assert forall|i: int| 0 <= i < manifests.len() implies has_manifest(
            all,
            (#[trigger] manifests[i]).path(),
        ) by {
            assert(all[i].path() == manifests[i].path());
        }
    } else {
        let rest = files.drop_last();
        let before = add_manifests(manifests, rest);
        added_manifests(manifests, rest);
        assert forall|path: Seq<char>| has_manifest(before, path) implies #[trigger] has_manifest(
            all,
            path,
        ) by {
            let i = choose|i: int| 0 <= i < before.len() && (#[trigger] before[i]).path() == path;
            assert(all[i].path() == path);
        }
        assert(has_manifest(all, files.last().path())) by {
            if !has_manifest(before, files.last().path()) {
                assert(all[before.len() as int].path() == files.last().path());
            }
        }
        assert forall|i: int| 0 <= i < files.len() implies has_manifest(
            all,
            (#[trigger] files[i]).path(),
        ) by {
            if i < rest.len() {
                assert(has_manifest(before, rest[i].path()));
            }
        }
        assert forall|i: int| 0 <= i < all.len() implies manifests.contains(#[trigger] all[i])
            || files.contains(all[i]) by {
            if i < before.len() {
                assert(before[i] == all[i]);
                if rest.contains(all[i]) {
                    let j = choose|j: int| 0 <= j < rest.len() && rest[j] == all[i];
                    assert(files[j] == all[i]);
                }
            } else {
                assert(files[files.len() - 1] == all[i]);
            }
        }
        assert(paths_differ(all)) by {
            assert forall|i: int, j: int| 0 <= i < j < all.len() implies (
            #[trigger] all[i]).path() != (#[trigger] all[j]).path() by {
                if j < before.len() {
                    assert(before[i].path() != before[j].path());
                } else {
                    assert(before[i].path() == all[i].path());
                }
            }
        }
    }
}

/// No two of the manifests have the same path.
pub open spec fn paths_differ(manifests: Seq<ManifestFile>) -> bool {
    forall|i: int, j: int|
        0 <= i < j < manifests.len() ==> (#[trigger] manifests[i]).path() != (
        #[trigger] manifests[j]).path()
}

/// The manifests that are loaded are those of the manifest lists, each path
/// once and none left out.
pub proof fn manifests_are_loaded_once(
    settings: OrphanSettings,
    events: Seq<OrphanEventView>,
    states: Seq<OrphanRunView>,
    commands: Seq<OrphanCommandView>,
    at: int,
)
    requires
        is_execution(settings, events, states, commands),
        0 <= at < commands.len(),
        commands[at] is LoadManifests,
    ensures
        commands[at]->LoadManifests_1 == settings.load_concurrency,
        paths_differ(commands[at]->LoadManifests_0),
        forall|i: int|
            0 <= i < listed_manifests(events.take(at)).len() ==> has_manifest(
                commands[at]->LoadManifests_0,
                (#[trigger] listed_manifests(events.take(at))[i]).path(),
            ),
        forall|i: int|
            0 <= i < commands[at]->LoadManifests_0.len() ==> listed_manifests(
                events.take(at),
            ).contains(#[trigger] commands[at]->LoadManifests_0[i]),
{
    assert(at > 0);
    state_holds(settings, events, states, commands, at - 1);
    assert(states[at - 1].expects(events[at - 1]));
    assert(states[at - 1].leads_to(events[at - 1], states[at], commands[at]));
    assert(events.take(at).drop_last() =~= events.take(at - 1));
    added_manifests(Seq::empty(), listed_manifests(events.take(at)));
}

/// All that was asked to be loaded was told as the storage holds it: the manifest
/// list of each snapshot and the entries of each manifest.
pub open spec fn all_loaded(
    storage: Storage,
    events: Seq<OrphanEventView>,
    commands: Seq<OrphanCommandView>,
) -> bool {
    &&& forall|i: int, j: int|
        0 <= i < commands.len() && commands[i] is LoadManifestLists && 0 <= j
            < commands[i]->LoadManifestLists_0.len() ==> events.contains(
            OrphanEventView::ManifestList(
                (storage.lists)(#[trigger] commands[i]->LoadManifestLists_0[j]),
            ),
        )
    &&& forall|i: int, j: int|
        0 <= i < commands.len() && commands[i] is LoadManifests && 0 <= j
            < commands[i]->LoadManifests_0.len() ==> events.contains(
            OrphanEventView::Manifest(
                storage.entries_of(#[trigger] commands[i]->LoadManifests_0[j]),
            ),
        )
}

/// Once the manifest lists are loaded, the manifests have been asked for.
proof fn manifests_were_asked_for(
    settings: OrphanSettings,
    events: Seq<OrphanEventView>,
    states: Seq<OrphanRunView>,
    commands: Seq<OrphanCommandView>,
    n: int,
) -> (asked: int)
    requires
        is_execution(settings, events, states, commands),
        0 <= n <= events.len(),
        states[n].phase != OrphanPhase::ManifestLists,
        states[n].phase != OrphanPhase::Finished,
    ensures
        0 < asked <= n,
        commands[asked] is LoadManifests,
    decreases n,
{
    assert(n > 0);
    assert(states[n - 1].expects(events[n - 1]));
    assert(states[n - 1].leads_to(events[n - 1], states[n], commands[n]));
    if events[n - 1] is ManifestListsLoaded {
        n
    } else {
        manifests_were_asked_for(settings, events, states, commands, n - 1)
    }
}

/// Once the manifests have been asked for, no more manifest lists come.
proof fn lists_come_first(
    settings: OrphanSettings,
    events: Seq<OrphanEventView>,
    states: Seq<OrphanRunView>,
    commands: Seq<OrphanCommandView>,
    asked: int,
    n: int,
)
    requires
        is_execution(settings, events, states, commands),
        0 < asked <= n <= events.len(),
        commands[asked] is LoadManifests,
    ensures
        states[n].phase != OrphanPhase::ManifestLists,
    decreases n,
{
    assert(states[n - 1].expects(events[n - 1]));
    assert(states[n - 1].leads_to(events[n - 1], states[n], commands[n]));
    if n > asked {
        lists_come_first(settings, events, states, commands, asked, n - 1);
    }
}

/// The manifests of a list that came are among those listed.
pub proof fn listed_manifests_hold(
    events: Seq<OrphanEventView>,
    at: int,
    list: Seq<ManifestFile>,
    i: int,
)
    requires
        0 <= at < events.len(),
        events[at] == OrphanEventView::ManifestList(list),
        0 <= i < list.len(),
    ensures
        listed_manifests(events).contains(list[i]),
    decreases events.len(),
{
    let before = listed_manifests(events.drop_last());
    if at == events.len() - 1 {
        assert(listed_manifests(events)[before.len() + i] == list[i]);
    } else {
        listed_manifests_hold(events.drop_last(), at, list, i);
        let j = choose|j: int| 0 <= j < before.len() && before[j] == list[i];
        assert(listed_manifests(events)[j] == list[i]);
    }
}

/// What a snapshot refers to has been named once all is loaded.
proof fn referenced_files_are_named(
    settings: OrphanSettings,
    events: Seq<OrphanEventView>,
    states: Seq<OrphanRunView>,
    commands: Seq<OrphanCommandView>,
    n: int,
    storage: Storage,
    snapshot: Snapshot,
    path: Seq<char>,
)
    requires
        is_execution(settings, events, states, commands),
        0 <= n <= events.len(),
        states[n].phase != OrphanPhase::ManifestLists,
        states[n].phase != OrphanPhase::Finished,
        all_loaded(storage, events, commands),
        settings.table.metadata.snapshots@.contains(snapshot),
        storage.refers_to(snapshot, path),
    ensures
        named_files(settings.table).contains(path) || exists|i: int|
            0 <= i < events.len() && names(#[trigger] events[i], path),
{
    let snapshots = settings.table.metadata.snapshots@;
    let s = choose|s: int| 0 <= s < snapshots.len() && snapshots[s] == snapshot;
    if path == snapshot.manifest_list@ && path.len() > 0 {
        let all = snapshots.map_values(|snapshot: Snapshot| snapshot.manifest_list@);
        let present = |path: Seq<char>| path.len() > 0;
        assert(all[s] == path);
        all.lemma_filter_contains(present, s);
        assert(manifest_list_paths(snapshots).contains(path));
        assert(manifest_list_paths(snapshots).to_set().contains(path));
    } else {
        let list = (storage.lists)(snapshot);
        let m = choose|m: int|
            0 <= m < list.len() && storage.leads_to(
                #[trigger] (storage.lists)(snapshot)[m],
                path,
            );
        assert(commands[0]->LoadManifestLists_0[s] == snapshot);
        let told = OrphanEventView::ManifestList(list);
        assert(events.contains(told));
        let k = choose|k: int| 0 <= k < events.len() && events[k] == told;
        if list[m].path() == path {
            assert(manifest_paths(list)[m] == path);
            assert(names(events[k], path));
        } else {
            let asked = manifests_were_asked_for(settings, events, states, commands, n);
            if k >= asked {
                lists_come_first(settings, events, states, commands, asked, k);
                assert(states[k].expects(events[k]));
            }
            let before = events.take(asked);
            assert(before[k] == told);
            listed_manifests_hold(before, k, list, m);
            manifests_are_loaded_once(settings, events, states, commands, asked);
            let loaded = commands[asked]->LoadManifests_0;
            let all = listed_manifests(before);
            let a = choose|a: int| 0 <= a < all.len() && all[a] == list[m];
            assert(has_manifest(loaded, all[a].path()));
            let l = choose|l: int|
                0 <= l < loaded.len() && (#[trigger] loaded[l]).path() == list[m].path();
            let entries = storage.entries_of(list[m]);
            assert(storage.entries_of(commands[asked]->LoadManifests_0[l]) == entries);
            assert(events.contains(OrphanEventView::Manifest(entries)));
            let t = choose|t: int|
                0 <= t < events.len() && events[t] == OrphanEventView::Manifest(entries);
            let e = choose|e: int|
                0 <= e < entries.len() && (#[trigger] storage.entries_of(list[m])[e]).path()
                    == path;
            assert(entry_paths(entries)[e] == path);
            assert(names(events[t], path));
        }
    }
}

/// No file that a snapshot refers to is deleted: where all that was asked to be
/// loaded was told as the storage holds it, a deleted file is neither the
/// manifest list of a snapshot, nor a manifest of such a list, nor one that an
/// entry of such a manifest names.
pub proof fn referenced_files_are_not_deleted(
    settings: OrphanSettings,
    events: Seq<OrphanEventView>,
    states: Seq<OrphanRunView>,
    commands: Seq<OrphanCommandView>,
    at: int,
    storage: Storage,
    snapshot: Snapshot,
    path: Seq<char>,
)
    requires
        is_execution(settings, events, states, commands),
        all_loaded(storage, events, commands),
        0 <= at < commands.len(),
        commands[at] is Delete,
        settings.table.metadata.snapshots@.contains(snapshot),
        storage.refers_to(snapshot, path),
    ensures
        !commands[at]->Delete_0.contains(path),
{
    if commands[at]->Delete_0.contains(path) {
        only_old_unreachable_files_are_deleted(settings, events, states, commands, at, path);
        assert(at > 0);
        assert(states[at - 1].leads_to(events[at - 1], states[at], commands[at]));
        referenced_files_are_named(
            settings,
            events,
            states,
            commands,
            at,
            storage,
            snapshot,
            path,
        );
    }
}

/// No file that a snapshot refers to is returned as an orphan, under the same
/// condition.
pub proof fn referenced_files_are_not_returned(
    settings: OrphanSettings,
    events: Seq<OrphanEventView>,
    states: Seq<OrphanRunView>,
    commands: Seq<OrphanCommandView>,
    storage: Storage,
    snapshot: Snapshot,
    file: OrphanFile,
)
    requires
        is_execution(settings, events, states, commands),
        all_loaded(storage, events, commands),
        commands.last() is Return,
        settings.table.metadata.snapshots@.contains(snapshot),
        storage.refers_to(snapshot, file.path@),
    ensures
        !commands.last()->Return_0.contains(file),
{
    if commands.last()->Return_0.contains(file) {
        let n = events.len() as int;
        only_old_unreachable_files_are_returned(settings, events, states, commands, file);
        assert(n > 0);
        assert(states[n - 1].expects(events[n - 1]));
        assert(states[n - 1].leads_to(events[n - 1], states[n], commands[n]));
        referenced_files_are_named(
            settings,
            events,
            states,
            commands,
            n - 1,
            storage,
            snapshot,
            file.path@,
        );
    }
}

/// An execution asks for the manifest lists of all snapshots first, and lists
/// the whole table location.
pub proof fn everything_is_asked_for(
    settings: OrphanSettings,
    events: Seq<OrphanEventView>,
    states: Seq<OrphanRunView>,
    commands: Seq<OrphanCommandView>,
    at: int,
)
    requires
        is_execution(settings, events, states, commands),
        0 <= at < commands.len(),
    ensures
        commands[0] == OrphanCommandView::LoadManifestLists(
            settings.table.metadata.snapshots@,
            settings.load_concurrency,
        ),
        commands[at] is List ==> commands[at] == OrphanCommandView::List(
            settings.table.metadata.location@,
            true,
        ),
{
    if at > 0 {
        state_holds(settings, events, states, commands, at - 1);
        assert(states[at - 1].leads_to(events[at - 1], states[at], commands[at]));
    }
}

/// Two executions that look for orphans of the same table and age, that found
/// the same files reachable, and for which the storage listed the same entries
/// in whatever order, return the same files, at the same paths in the same
/// order. It makes no difference whether either is a dry run.
pub proof fn order_does_not_matter(
    left: OrphanSettings,
    left_events: Seq<OrphanEventView>,
    left_states: Seq<OrphanRunView>,
    left_commands: Seq<OrphanCommandView>,
    right: OrphanSettings,
    right_events: Seq<OrphanEventView>,
    right_states: Seq<OrphanRunView>,
    right_commands: Seq<OrphanCommandView>,
)
    requires
        left.table == right.table,
        left.older_than_ms == right.older_than_ms,
        is_execution(left, left_events, left_states, left_commands),
        is_execution(right, right_events, right_states, right_commands),
        left_commands.last() is Return,
        right_commands.last() is Return,
        reached(left.table, left_events) == reached(right.table, right_events),
        listed_entries(left_events).to_multiset() == listed_entries(right_events).to_multiset(),
    ensures
        left_commands.last()->Return_0.to_multiset()
            == right_commands.last()->Return_0.to_multiset(),
        orphan_paths(left_commands.last()->Return_0) == orphan_paths(
            right_commands.last()->Return_0,
        ),
{
    orphans_are_returned(left, left_events, left_states, left_commands);
    orphans_are_returned(right, right_events, right_states, right_commands);
    same_orphans(
        listed_entries(left_events),
        listed_entries(right_events),
        left.older_than_ms,
        reached(left.table, left_events),
    );
    same_sorted_paths(left_commands.last()->Return_0, right_commands.last()->Return_0);
}

/// A dry run reports what a real run deletes: where both look for orphans of the
/// same table and age, found the same files reachable, and had the same entries
/// listed in whatever order, the paths that the one returns are those that the
/// other deletes, in the same order, with the same sizes.
pub proof fn dry_run_reports_what_is_deleted(
    dry: OrphanSettings,
    dry_events: Seq<OrphanEventView>,
    dry_states: Seq<OrphanRunView>,
    dry_commands: Seq<OrphanCommandView>,
    live: OrphanSettings,
    live_events: Seq<OrphanEventView>,
    live_states: Seq<OrphanRunView>,
    live_commands: Seq<OrphanCommandView>,
    at: int,
)
    requires
        dry.table == live.table,
        dry.older_than_ms == live.older_than_ms,
        dry.dry_run,
        is_execution(dry, dry_events, dry_states, dry_commands),
        is_execution(live, live_events, live_states, live_commands),
        dry_commands.last() is Return,
        0 <= at < live_commands.len(),
        live_commands[at] is Delete,
        reached(dry.table, dry_events) == reached(live.table, live_events.take(at)),
        listed_entries(dry_events).to_multiset() == listed_entries(
            live_events.take(at),
        ).to_multiset(),
    ensures
        orphan_paths(dry_commands.last()->Return_0) == live_commands[at]->Delete_0,
        dry_commands.last()->Return_0.to_multiset() == live_states[at].orphans.to_multiset(),
{
    orphans_are_returned(dry, dry_events, dry_states, dry_commands);
    orphans_are_deleted(live, live_events, live_states, live_commands, at);
    same_orphans(
        listed_entries(dry_events),
        listed_entries(live_events.take(at)),
        dry.older_than_ms,
        reached(dry.table, dry_events),
    );
    same_sorted_paths(dry_commands.last()->Return_0, live_states[at].orphans);
}

/// The same files in the order of their paths have the same paths at the same places.
proof fn same_sorted_paths(left: Seq<OrphanFile>, right: Seq<OrphanFile>)
    requires
        ordered_by_path(left),
        ordered_by_path(right),
        left.to_multiset() == right.to_multiset(),
    ensures
        orphan_paths(left) == orphan_paths(right),
{
    let not_after = |first: Seq<char>, second: Seq<char>| text_not_after(first, second);
    same_paths(left, right);
    assert(vstd::relations::total_ordering(not_after)) by {
        assert forall|text: Seq<char>| #[trigger] not_after(text, text) by {
            text_order_irreflexive(text);
        }
        assert forall|first: Seq<char>, second: Seq<char>| #[trigger]
            not_after(first, second) && #[trigger] not_after(second, first) implies first
            == second by {
            text_order_total(first, second);
        }
        assert forall|first: Seq<char>, second: Seq<char>, third: Seq<char>| #[trigger]
            not_after(first, second) && #[trigger] not_after(second, third) implies not_after(
            first,
            third,
        ) by {
            text_not_after_transitive(first, second, third);
        }
        assert forall|first: Seq<char>, second: Seq<char>|
            #[trigger] not_after(first, second) || #[trigger] not_after(second, first) by {
            if text_before(second, first) {
                text_order_asymmetric(second, first);
            }
        }
    }
    vstd::seq_lib::lemma_sorted_unique(orphan_paths(left), orphan_paths(right), not_after);
}

/// The same files in whatever order have the same paths.
proof fn same_paths(left: Seq<OrphanFile>, right: Seq<OrphanFile>)
    requires
        left.to_multiset() == right.to_multiset(),
    ensures
        orphan_paths(left).to_multiset() == orphan_paths(right).to_multiset(),
    decreases left.len(),
{
    broadcast use vstd::seq_lib::group_to_multiset_ensures;

    assert(left.to_multiset().len() == left.len());
    assert(right.to_multiset().len() == right.len());
    if left.len() == 0 {
        assert(left =~= right);
    } else {
        let file = left[0];
        assert(left.contains(file));
        assert(left.to_multiset().count(file) > 0);
        assert(right.contains(file));
        let at = choose|at: int| 0 <= at < right.len() && right[at] == file;
        assert(left.remove(0).to_multiset() =~= left.to_multiset().remove(file));
        assert(right.remove(at).to_multiset() =~= right.to_multiset().remove(file));
        same_paths(left.remove(0), right.remove(at));
        assert(orphan_paths(left.remove(0)) =~= orphan_paths(left).remove(0));
        assert(orphan_paths(right.remove(at)) =~= orphan_paths(right).remove(at));
        assert(orphan_paths(left)[0] == file.path@);
        assert(orphan_paths(right)[at] == file.path@);
        assert(orphan_paths(left).contains(file.path@));
        assert(orphan_paths(right).contains(file.path@));
        assert(orphan_paths(left).to_multiset() =~= orphan_paths(left).remove(
            0,
        ).to_multiset().insert(file.path@));
        assert(orphan_paths(right).to_multiset() =~= orphan_paths(right).remove(
            at,
        ).to_multiset().insert(file.path@));
    }
}

/// The same entries in another order have the same orphans.
proof fn same_orphans(
    left: Seq<FileEntry>,
    right: Seq<FileEntry>,
    older_than_ms: i64,
    reachable: Set<Seq<char>>,
)
    requires
        left.to_multiset() == right.to_multiset(),
    ensures
        orphans_among(left, older_than_ms, reachable).to_multiset() == orphans_among(
            right,
            older_than_ms,
            reachable,
        ).to_multiset(),
    decreases left.len(),
{
    broadcast use vstd::seq_lib::group_to_multiset_ensures;

    assert(left.to_multiset().len() == left.len());
    assert(right.to_multiset().len() == right.len());
    if left.len() == 0 {
        assert(left =~= right);
    } else {
        let entry = left.last();
        let rest = left.drop_last();
        assert(left =~= rest.push(entry));
        assert(left.contains(entry)) by {
            assert(left[left.len() - 1] == entry);
        }
        assert(left.to_multiset().count(entry) > 0);
        assert(right.contains(entry));
        let at = choose|at: int| 0 <= at < right.len() && right[at] == entry;
        let other = right.remove(at);
        assert(rest.to_multiset() =~= left.to_multiset().remove(entry));
        assert(other.to_multiset() =~= right.to_multiset().remove(entry));
        same_orphans(rest, other, older_than_ms, reachable);
        orphans_among_push(rest, entry, older_than_ms, reachable);
        orphans_among_remove(right, at, older_than_ms, reachable);
    }
}

/// Taking an entry away takes its orphan away.
proof fn orphans_among_remove(
    listed: Seq<FileEntry>,
    at: int,
    older_than_ms: i64,
    reachable: Set<Seq<char>>,
)
    requires
        0 <= at < listed.len(),
    ensures
        orphans_among(listed, older_than_ms, reachable).to_multiset() == (if listed[at].is_old_file(
            older_than_ms,
        ) && !reachable.contains(listed[at].path@) {
            orphans_among(listed.remove(at), older_than_ms, reachable).to_multiset().insert(
                listed[at].as_orphan(),
            )
        } else {
            orphans_among(listed.remove(at), older_than_ms, reachable).to_multiset()
        }),
    decreases listed.len(),
{
    broadcast use vstd::seq_lib::group_to_multiset_ensures;

    let rest = listed.drop_last();
    assert(listed =~= rest.push(listed.last()));
    orphans_among_push(rest, listed.last(), older_than_ms, reachable);
    if at == listed.len() - 1 {
        assert(listed.remove(at) =~= rest);
    } else {
        orphans_among_remove(rest, at, older_than_ms, reachable);
        assert(listed.remove(at) =~= rest.remove(at).push(listed.last()));
        orphans_among_push(rest.remove(at), listed.last(), older_than_ms, reachable);
        assert(rest[at] == listed[at]);
        assert(orphans_among(listed, older_than_ms, reachable).to_multiset() =~= (
        if listed[at].is_old_file(older_than_ms) && !reachable.contains(listed[at].path@) {
            orphans_among(listed.remove(at), older_than_ms, reachable).to_multiset().insert(
                listed[at].as_orphan(),
            )
        } else {
            orphans_among(listed.remove(at), older_than_ms, reachable).to_multiset()
        }));
    }
}

/// The events of an execution in which nothing fails.
pub open spec fn smooth_events(
    lists: Seq<Seq<ManifestFile>>,
    manifests: Seq<Seq<ManifestEntry>>,
    listed: Seq<FileEntry>,
    dry_run: bool,
) -> Seq<OrphanEventView> {
    let found = lists.map_values(
        |list: Seq<ManifestFile>| OrphanEventView::ManifestList(list),
    ).push(OrphanEventView::ManifestListsLoaded) + manifests.map_values(
        |entries: Seq<ManifestEntry>| OrphanEventView::Manifest(entries),
    ).push(OrphanEventView::ManifestsLoaded) + listed.map_values(
        |entry: FileEntry| OrphanEventView::Listed(entry),
    ).push(OrphanEventView::ListingLoaded);
    if dry_run {
        found
    } else {
        found.push(OrphanEventView::Deleted)
    }
}

/// What a run waits for after `n` of the events of an execution in which
/// nothing fails.
spec fn smooth_phase(
    lists: nat,
    manifests: nat,
    listed: nat,
    dry_run: bool,
    n: int,
) -> OrphanPhase {
    if n <= lists {
        OrphanPhase::ManifestLists
    } else if n <= lists + 1 + manifests {
        OrphanPhase::Manifests
    } else if n <= lists + 1 + manifests + 1 + listed {
        OrphanPhase::Listing
    } else if n == lists + manifests + listed + 3 && !dry_run {
        OrphanPhase::Deleting
    } else {
        OrphanPhase::Finished
    }
}

/// The events of an execution in which nothing fails come when they are waited for.
proof fn smooth_state(
    settings: OrphanSettings,
    lists: Seq<Seq<ManifestFile>>,
    manifests: Seq<Seq<ManifestEntry>>,
    listed: Seq<FileEntry>,
    states: Seq<OrphanRunView>,
    commands: Seq<OrphanCommandView>,
    n: int,
)
    requires
        leads_through(
            settings,
            smooth_events(lists, manifests, listed, settings.dry_run),
            states,
            commands,
        ),
        0 <= n <= smooth_events(lists, manifests, listed, settings.dry_run).len(),
    ensures
        states[n].dry_run == settings.dry_run,
        states[n].phase == smooth_phase(
            lists.len(),
            manifests.len(),
            listed.len(),
            settings.dry_run,
            n,
        ),
    decreases n,
{
    let events = smooth_events(lists, manifests, listed, settings.dry_run);
    if n > 0 {
        smooth_state(settings, lists, manifests, listed, states, commands, n - 1);
        assert(states[n - 1].leads_to(events[n - 1], states[n], commands[n]));
    }
}

/// Where nothing fails an execution takes in every event and returns the orphans.
pub proof fn smooth_execution_returns(
    settings: OrphanSettings,
    lists: Seq<Seq<ManifestFile>>,
    manifests: Seq<Seq<ManifestEntry>>,
    listed: Seq<FileEntry>,
    states: Seq<OrphanRunView>,
    commands: Seq<OrphanCommandView>,
)
    requires
        leads_through(
            settings,
            smooth_events(lists, manifests, listed, settings.dry_run),
            states,
            commands,
        ),
    ensures
        all_expected(smooth_events(lists, manifests, listed, settings.dry_run), states),
        commands.last() is Return,
        sorts(
            orphans_of(settings, smooth_events(lists, manifests, listed, settings.dry_run)),
            commands.last()->Return_0,
        ),
{
    let events = smooth_events(lists, manifests, listed, settings.dry_run);
    assert forall|i: int| 0 <= i < events.len() implies states[i].expects(#[trigger] events[i]) by {
        smooth_state(settings, lists, manifests, listed, states, commands, i);
    }
    let n = events.len() as int;
    smooth_state(settings, lists, manifests, listed, states, commands, n - 1);
    assert(states[n - 1].leads_to(events[n - 1], states[n], commands[n]));
    orphans_are_returned(settings, events, states, commands);
}

} // verus!

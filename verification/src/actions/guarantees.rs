//! What removing orphan files does, told through the table, the events of an
//! execution and what it asks for and returns.

use vstd::prelude::*;

use crate::actions::laws::{
    is_execution, listed_entries, listed_manifests, listed_manifests_hold,
    manifests_are_loaded_once, names, nothing_follows, orphans_among, orphans_among_push,
    orphans_are_deleted, orphans_are_returned, orphans_of, reached, settings_stay, what_is_reached,
};
use crate::actions::orphan_file::{ordered_by_path, OrphanFile};
use crate::actions::orphan_run::{
    FileEntry, OrphanCommand, OrphanCommandView, OrphanEvent, OrphanEventView, OrphanRunView,
};
use crate::actions::reachable::{
    entry_paths, has_manifest, log_paths, manifest_list_paths, manifest_paths, named_files, statistics_paths,
};
use crate::actions::remove_orphan_files::{default_settings, OrphanSettings};
use crate::error::Error;
use crate::metadata::manifest::{ManifestEntry, ManifestFile};
use crate::metadata::table::{Snapshot, Table};
use crate::text::{differs_lower_at, text_order_is_lexicographic};
use crate::time::Duration;

verus! {

/// A new action waits for files to be seven days old, deletes what it finds, and
/// loads at least one thing at a time.
pub proof fn new_actions_wait_seven_days(table: Table, now: i64)
    ensures
        now - 604_800_000 >= -0x8000_0000_0000_0000 ==> default_settings(table, now).older_than_ms
            + 604_800_000 == now,
        now - 604_800_000 < -0x8000_0000_0000_0000 ==> default_settings(table, now).older_than_ms
            == -0x8000_0000_0000_0000,
        default_settings(table, now).table == table,
        !default_settings(table, now).dry_run,
        default_settings(table, now).load_concurrency >= 1,
{
}

/// The threshold lies the whole milliseconds of the duration before the given
/// time, for every duration whose milliseconds and difference fit. Nothing else
/// changes.
pub proof fn threshold_lies_the_duration_back(
    settings: OrphanSettings,
    duration: Duration,
    now: i64,
)
    ensures
        ({
            let millis = duration.secs * 1000 + duration.nanos as int / 1_000_000;
            let threshold = settings.with_age(duration, now).older_than_ms;
            &&& millis <= 0x7fff_ffff_ffff_ffff && now - millis >= -0x8000_0000_0000_0000
                ==> threshold + millis == now
            &&& millis <= 0x7fff_ffff_ffff_ffff && now - millis < -0x8000_0000_0000_0000
                ==> threshold == -0x8000_0000_0000_0000
            &&& millis > 0x7fff_ffff_ffff_ffff && now >= 0 ==> threshold + 0x7fff_ffff_ffff_ffff
                == now
        }),
        settings.with_age(duration, now).table == settings.table,
        settings.with_age(duration, now).dry_run == settings.dry_run,
        settings.with_age(duration, now).load_concurrency == settings.load_concurrency,
{
}

/// A longer duration never gives a later threshold, and an earlier time never a
/// later one either.
pub proof fn longer_durations_keep_more(
    settings: OrphanSettings,
    shorter: Duration,
    longer: Duration,
    earlier: i64,
    later: i64,
)
    requires
        shorter.secs * 1_000_000_000 + shorter.nanos <= longer.secs * 1_000_000_000 + longer.nanos,
        earlier <= later,
    ensures
        settings.with_age(longer, earlier).older_than_ms <= settings.with_age(
            shorter,
            later,
        ).older_than_ms,
{
}

/// No file is an orphan whose age at the given time is at most the duration. Ages
/// beyond what an `i64` can hold are left out.
pub proof fn young_files_are_kept(
    settings: OrphanSettings,
    duration: Duration,
    now: i64,
    state: OrphanRunView,
    entry: FileEntry,
    modified: i64,
)
    requires
        state.older_than_ms == settings.with_age(duration, now).older_than_ms,
        entry.last_modified_ms == Some(modified),
        now - modified <= 0x7fff_ffff_ffff_ffff,
        (now - modified) * 1_000_000 <= duration.secs * 1_000_000_000 + duration.nanos,
    ensures
        !state.is_orphan(entry),
{
}

/// An entry is an orphan exactly where it is a file with a known time of
/// modification before the threshold whose path is not known to be reachable.
pub proof fn orphans_are_told_by_their_fields(state: OrphanRunView, entry: FileEntry)
    ensures
        state.is_orphan(entry) <==> {
            &&& !entry.is_dir
            &&& entry.last_modified_ms is Some
            &&& entry.last_modified_ms->Some_0 < state.older_than_ms
            &&& !state.reachable.files.contains(entry.path@)
        },
{
}

/// The table metadata names a file itself: the current metadata file, one of the
/// log, a statistics file, a partition statistics file or the manifest list of a
/// snapshot.
pub open spec fn table_names(table: Table, path: Seq<char>) -> bool {
    ||| table.metadata_location matches Some(location) && location@ == path
    ||| exists|i: int|
        0 <= i < table.metadata.metadata_log@.len() && (
        #[trigger] table.metadata.metadata_log@[i]).metadata_file@ == path
    ||| exists|i: int|
        0 <= i < table.metadata.statistics@.len() && (
        #[trigger] table.metadata.statistics@[i]).statistics_path@ == path
    ||| exists|i: int|
        0 <= i < table.metadata.partition_statistics@.len() && (
        #[trigger] table.metadata.partition_statistics@[i]).statistics_path@ == path
    ||| path.len() > 0 && exists|i: int|
        0 <= i < table.metadata.snapshots@.len() && (
        #[trigger] table.metadata.snapshots@[i]).manifest_list@ == path
}

/// The files that are named are those that the fields of the table metadata
/// hold, entry by entry, and no others.
pub proof fn named_files_are_those_of_the_fields(table: Table, path: Seq<char>)
    ensures
        named_files(table).contains(path) <==> table_names(table, path),
{
    let log = table.metadata.metadata_log@;
    let statistics = table.metadata.statistics@;
    let partitions = table.metadata.partition_statistics@;
    let snapshots = table.metadata.snapshots@;
    let lists = snapshots.map_values(|snapshot: Snapshot| snapshot.manifest_list@);
    let present = |path: Seq<char>| path.len() > 0;
    let kept = lists.filter(present);
    assert(manifest_list_paths(snapshots) == kept);
    if named_files(table).contains(path) {
        if log_paths(log).to_set().contains(path) {
            let i = choose|i: int| 0 <= i < log_paths(log).len() && log_paths(log)[i] == path;
            assert(log[i].metadata_file@ == path);
        }
        if statistics_paths(statistics).to_set().contains(path) {
            let i = choose|i: int|
                0 <= i < statistics_paths(statistics).len() && statistics_paths(statistics)[i]
                    == path;
            assert(statistics[i].statistics_path@ == path);
        }
        if statistics_paths(partitions).to_set().contains(path) {
            let i = choose|i: int|
                0 <= i < statistics_paths(partitions).len() && statistics_paths(partitions)[i]
                    == path;
            assert(partitions[i].statistics_path@ == path);
        }
        if kept.to_set().contains(path) {
            let i = choose|i: int| 0 <= i < kept.len() && kept[i] == path;
            lists.lemma_filter_pred(present, i);
            lists.lemma_filter_contains_rev(present, path);
            let j = choose|j: int| 0 <= j < lists.len() && lists[j] == path;
            assert(snapshots[j].manifest_list@ == path);
        }
    }
    if table_names(table, path) {
        if exists|i: int| 0 <= i < log.len() && (#[trigger] log[i]).metadata_file@ == path {
            let i = choose|i: int|
                0 <= i < log.len() && (#[trigger] log[i]).metadata_file@ == path;
            assert(log_paths(log)[i] == path);
            assert(log_paths(log).to_set().contains(path));
        } else if exists|i: int|
            0 <= i < statistics.len() && (#[trigger] statistics[i]).statistics_path@ == path {
            let i = choose|i: int|
                0 <= i < statistics.len() && (#[trigger] statistics[i]).statistics_path@ == path;
            assert(statistics_paths(statistics)[i] == path);
            assert(statistics_paths(statistics).to_set().contains(path));
        } else if exists|i: int|
            0 <= i < partitions.len() && (#[trigger] partitions[i]).statistics_path@ == path {
            let i = choose|i: int|
                0 <= i < partitions.len() && (#[trigger] partitions[i]).statistics_path@ == path;
            assert(statistics_paths(partitions)[i] == path);
            assert(statistics_paths(partitions).to_set().contains(path));
        } else if path.len() > 0 && exists|i: int|
            0 <= i < snapshots.len() && (#[trigger] snapshots[i]).manifest_list@ == path {
            let i = choose|i: int|
                0 <= i < snapshots.len() && (#[trigger] snapshots[i]).manifest_list@ == path;
            assert(lists[i] == path);
            lists.lemma_filter_contains(present, i);
            assert(kept.to_set().contains(path));
        }
    }
}

/// A manifest list that was told holds a manifest at the path, or a manifest that
/// was told holds an entry whose file lies there.
pub open spec fn told_of(event: OrphanEventView, path: Seq<char>) -> bool {
    match event {
        OrphanEventView::ManifestList(list) => exists|j: int|
            0 <= j < list.len() && (#[trigger] list[j]).manifest_path@ == path,
        OrphanEventView::Manifest(entries) => exists|j: int|
            0 <= j < entries.len() && (#[trigger] entries[j]).data_file.file_path@ == path,
        _ => false,
    }
}

/// The events tell of the paths that manifests and entries hold.
proof fn events_name_what_they_tell(event: OrphanEventView, path: Seq<char>)
    ensures
        names(event, path) <==> told_of(event, path),
{
    match event {
        OrphanEventView::ManifestList(list) => {
            if names(event, path) {
                let j = choose|j: int|
                    0 <= j < manifest_paths(list).len() && manifest_paths(list)[j] == path;
                assert(list[j].manifest_path@ == path);
            }
            if told_of(event, path) {
                let j = choose|j: int|
                    0 <= j < list.len() && (#[trigger] list[j]).manifest_path@ == path;
                assert(manifest_paths(list)[j] == path);
            }
        },
        OrphanEventView::Manifest(entries) => {
            if names(event, path) {
                let j = choose|j: int|
                    0 <= j < entry_paths(entries).len() && entry_paths(entries)[j] == path;
                assert(entries[j].data_file.file_path@ == path);
            }
            if told_of(event, path) {
                let j = choose|j: int|
                    0 <= j < entries.len() && (#[trigger] entries[j]).data_file.file_path@ == path;
                assert(entry_paths(entries)[j] == path);
            }
        },
        _ => {},
    }
}

/// The table metadata names a file, or something that was told does.
pub open spec fn is_in_use(
    settings: OrphanSettings,
    events: Seq<OrphanEventView>,
    path: Seq<char>,
) -> bool {
    ||| table_names(settings.table, path)
    ||| exists|i: int| 0 <= i < events.len() && told_of(#[trigger] events[i], path)
}

/// An event lists a file that is not in use, with a time of modification before
/// the threshold.
pub open spec fn lists_an_orphan(
    settings: OrphanSettings,
    events: Seq<OrphanEventView>,
    event: OrphanEventView,
) -> bool {
    &&& event is Listed
    &&& !event->Listed_0.is_dir
    &&& event->Listed_0.last_modified_ms is Some
    &&& event->Listed_0.last_modified_ms->Some_0 < settings.older_than_ms
    &&& !is_in_use(settings, events, event->Listed_0.path@)
}

/// The files that the events list as orphans, in the order of the events.
pub open spec fn told_orphans(settings: OrphanSettings, events: Seq<OrphanEventView>) -> Seq<
    OrphanFile,
> {
    events.filter(|event: OrphanEventView| lists_an_orphan(settings, events, event)).map_values(
        |event: OrphanEventView|
            OrphanFile { path: event->Listed_0.path, size_bytes: event->Listed_0.size },
    )
}

/// What was found reachable is what is in use.
proof fn reached_is_in_use(
    settings: OrphanSettings,
    events: Seq<OrphanEventView>,
    path: Seq<char>,
)
    ensures
        reached(settings.table, events).contains(path) <==> is_in_use(settings, events, path),
{
    what_is_reached(settings.table, events, path);
    named_files_are_those_of_the_fields(settings.table, path);
    if exists|i: int| 0 <= i < events.len() && names(#[trigger] events[i], path) {
        let i = choose|i: int| 0 <= i < events.len() && names(#[trigger] events[i], path);
        events_name_what_they_tell(events[i], path);
        assert(told_of(events[i], path));
    }
    if exists|i: int| 0 <= i < events.len() && told_of(#[trigger] events[i], path) {
        let i = choose|i: int| 0 <= i < events.len() && told_of(#[trigger] events[i], path);
        events_name_what_they_tell(events[i], path);
        assert(names(events[i], path));
    }
}

/// An event lists a file outside the given set, with a time of modification
/// before the threshold.
spec fn lists_outside(older_than_ms: i64, inside: Set<Seq<char>>, event: OrphanEventView) -> bool {
    &&& event is Listed
    &&& !event->Listed_0.is_dir
    &&& event->Listed_0.last_modified_ms is Some
    &&& event->Listed_0.last_modified_ms->Some_0 < older_than_ms
    &&& !inside.contains(event->Listed_0.path@)
}

/// The orphans among the listed entries are those of the events that list them.
proof fn orphans_among_events(
    events: Seq<OrphanEventView>,
    older_than_ms: i64,
    inside: Set<Seq<char>>,
)
    ensures
        orphans_among(listed_entries(events), older_than_ms, inside) == events.filter(
            |event: OrphanEventView| lists_outside(older_than_ms, inside, event),
        ).map_values(
            |event: OrphanEventView|
                OrphanFile { path: event->Listed_0.path, size_bytes: event->Listed_0.size },
        ),
    decreases events.len(),
{
    let chosen = |event: OrphanEventView| lists_outside(older_than_ms, inside, event);
    let file_of = |event: OrphanEventView|
        OrphanFile { path: event->Listed_0.path, size_bytes: event->Listed_0.size };
    let listed = listed_entries(events);
    reveal(Seq::filter);
    if events.len() == 0 {
        assert(orphans_among(listed, older_than_ms, inside) =~= events.filter(chosen).map_values(
            file_of,
        ));
    } else {
        let before = events.drop_last();
        let event = events.last();
        orphans_among_events(before, older_than_ms, inside);
        assert(events =~= before.push(event));
        before.lemma_filter_push(event, chosen);
        let earlier = before.filter(chosen);
        if let OrphanEventView::Listed(entry) = event {
            orphans_among_push(listed_entries(before), entry, older_than_ms, inside);
            if chosen(event) {
                assert(events.filter(chosen).map_values(file_of) =~= earlier.map_values(
                    file_of,
                ).push(entry.as_orphan()));
            }
        }
    }
}

/// The orphans of an execution are the files that its events list as orphans.
proof fn orphans_are_those_told(settings: OrphanSettings, events: Seq<OrphanEventView>)
    ensures
        orphans_of(settings, events) == told_orphans(settings, events),
{
    let inside = reached(settings.table, events);
    orphans_among_events(events, settings.older_than_ms, inside);
    let outside = |event: OrphanEventView| lists_outside(settings.older_than_ms, inside, event);
    let orphan = |event: OrphanEventView| lists_an_orphan(settings, events, event);
    assert forall|event: OrphanEventView| #[trigger] outside(event) == orphan(event) by {
        reached_is_in_use(settings, events, event->Listed_0.path@);
    }
    assert(outside =~= orphan);
}

/// The files stand in the order of their paths, code point by code point.
pub open spec fn stand_in_order(paths: Seq<Seq<char>>) -> bool {
    forall|i: int, j: int, at: int|
        0 <= i < j < paths.len() ==> !#[trigger] differs_lower_at(paths[j], paths[i], at)
}

/// The order of files is that of their paths, code point by code point.
proof fn order_goes_by_code_points(files: Seq<OrphanFile>, paths: Seq<Seq<char>>)
    requires
        ordered_by_path(files),
        paths.len() == files.len(),
        forall|i: int| 0 <= i < paths.len() ==> #[trigger] paths[i] == files[i].path@,
    ensures
        stand_in_order(paths),
{
    assert forall|i: int, j: int, at: int|
        0 <= i < j < paths.len() implies !#[trigger] differs_lower_at(paths[j], paths[i], at) by {
        text_order_is_lexicographic(paths[j], paths[i]);
        assert(files[i].path@ == paths[i] && files[j].path@ == paths[j]);
    }
}

/// The paths of files.
pub open spec fn paths_of_files(files: Seq<OrphanFile>) -> Seq<Seq<char>> {
    Seq::new(files.len(), |i: int| files[i].path@)
}

/// An execution returns each file that the events list as an orphan as often as
/// they do, with the listed size, and nothing else, in the order of the paths.
pub proof fn what_is_returned(
    settings: OrphanSettings,
    events: Seq<OrphanEventView>,
    states: Seq<OrphanRunView>,
    commands: Seq<OrphanCommandView>,
)
    requires
        is_execution(settings, events, states, commands),
        commands.last() is Return,
    ensures
        commands.last()->Return_0.to_multiset() == told_orphans(settings, events).to_multiset(),
        stand_in_order(paths_of_files(commands.last()->Return_0)),
{
    orphans_are_returned(settings, events, states, commands);
    orphans_are_those_told(settings, events);
    let files = commands.last()->Return_0;
    order_goes_by_code_points(files, paths_of_files(files));
}

/// A file is returned with a size exactly where it was listed with that size and
/// a time of modification before the threshold, as no directory, and is not in
/// use.
pub proof fn which_files_are_returned(
    settings: OrphanSettings,
    events: Seq<OrphanEventView>,
    states: Seq<OrphanRunView>,
    commands: Seq<OrphanCommandView>,
    path: Seq<char>,
    size: u64,
)
    requires
        is_execution(settings, events, states, commands),
        commands.last() is Return,
    ensures
        (exists|i: int|
            0 <= i < commands.last()->Return_0.len() && (
            #[trigger] commands.last()->Return_0[i]).path@ == path
                && commands.last()->Return_0[i].size_bytes == size) <==> !is_in_use(
            settings,
            events,
            path,
        ) && exists|k: int|
            0 <= k < events.len() && lists_file(#[trigger] events[k], settings.older_than_ms, path)
                && events[k]->Listed_0.size == size,
{
    broadcast use vstd::seq_lib::group_to_multiset_ensures;

    what_is_returned(settings, events, states, commands);
    let files = commands.last()->Return_0;
    let told = told_orphans(settings, events);
    if exists|i: int|
        0 <= i < files.len() && (#[trigger] files[i]).path@ == path && files[i].size_bytes
            == size {
        let i = choose|i: int|
            0 <= i < files.len() && (#[trigger] files[i]).path@ == path && files[i].size_bytes
                == size;
        assert(files.contains(files[i]));
        assert(files.to_multiset().count(files[i]) > 0);
        assert(told.contains(files[i]));
        let k = told_orphan_was_listed(settings, events, files[i]);
        assert(lists_file(events[k], settings.older_than_ms, path));
    }
    if !is_in_use(settings, events, path) && exists|k: int|
        0 <= k < events.len() && lists_file(#[trigger] events[k], settings.older_than_ms, path)
            && events[k]->Listed_0.size == size {
        let k = choose|k: int|
            0 <= k < events.len() && lists_file(#[trigger] events[k], settings.older_than_ms, path)
                && events[k]->Listed_0.size == size;
        let file = listed_orphan_is_told(settings, events, k);
        assert(told.to_multiset().count(file) > 0);
        assert(files.contains(file));
        let i = choose|i: int| 0 <= i < files.len() && files[i] == file;
        assert(files[i].path@ == path);
    }
}

/// An event lists a file at the path, with a time of modification before the
/// threshold.
pub open spec fn lists_file(event: OrphanEventView, older_than_ms: i64, path: Seq<char>) -> bool {
    &&& event is Listed
    &&& event->Listed_0.path@ == path
    &&& !event->Listed_0.is_dir
    &&& event->Listed_0.last_modified_ms is Some
    &&& event->Listed_0.last_modified_ms->Some_0 < older_than_ms
}

/// A file that is told as an orphan was listed.
proof fn told_orphan_was_listed(
    settings: OrphanSettings,
    events: Seq<OrphanEventView>,
    file: OrphanFile,
) -> (k: int)
    requires
        told_orphans(settings, events).contains(file),
    ensures
        0 <= k < events.len(),
        lists_file(events[k], settings.older_than_ms, file.path@),
        events[k]->Listed_0.size == file.size_bytes,
        !is_in_use(settings, events, file.path@),
{
    let orphan = |event: OrphanEventView| lists_an_orphan(settings, events, event);
    let chosen = events.filter(orphan);
    let told = told_orphans(settings, events);
    let j = choose|j: int| 0 <= j < told.len() && told[j] == file;
    events.lemma_filter_pred(orphan, j);
    events.lemma_filter_contains_rev(orphan, chosen[j]);
    let k = choose|k: int| 0 <= k < events.len() && events[k] == chosen[j];
    k
}

/// A listed file that is not in use is told as an orphan.
proof fn listed_orphan_is_told(
    settings: OrphanSettings,
    events: Seq<OrphanEventView>,
    k: int,
) -> (file: OrphanFile)
    requires
        0 <= k < events.len(),
        lists_an_orphan(settings, events, events[k]),
    ensures
        told_orphans(settings, events).contains(file),
        file.path@ == events[k]->Listed_0.path@,
        file.size_bytes == events[k]->Listed_0.size,
{
    let orphan = |event: OrphanEventView| lists_an_orphan(settings, events, event);
    let chosen = events.filter(orphan);
    let told = told_orphans(settings, events);
    events.lemma_filter_contains(orphan, k);
    let j = choose|j: int| 0 <= j < chosen.len() && chosen[j] == events[k];
    assert(told.contains(told[j]));
    told[j]
}

/// After a deletion was asked for, nothing is told but what came of it.
proof fn nothing_is_told_after_deletion(
    settings: OrphanSettings,
    events: Seq<OrphanEventView>,
    states: Seq<OrphanRunView>,
    commands: Seq<OrphanCommandView>,
    at: int,
)
    requires
        is_execution(settings, events, states, commands),
        0 < at < commands.len(),
        commands[at] is Delete,
    ensures
        told_orphans(settings, events.take(at)) == told_orphans(settings, events),
{
    assert(states[at - 1].leads_to(events[at - 1], states[at], commands[at]));
    let before = events.take(at);
    if at < events.len() {
        assert(states[at].expects(events[at]));
        assert(states[at].leads_to(events[at], states[at + 1], commands[at + 1]));
        nothing_follows(settings, events, states, commands, at + 1);
        assert(events =~= before.push(events[at]));
        let now = |event: OrphanEventView| lists_an_orphan(settings, events, event);
        let earlier = |event: OrphanEventView| lists_an_orphan(settings, before, event);
        assert forall|event: OrphanEventView| #[trigger] now(event) == earlier(event) by {
            let path = event->Listed_0.path@;
            if exists|i: int| 0 <= i < events.len() && told_of(#[trigger] events[i], path) {
                let i = choose|i: int| 0 <= i < events.len() && told_of(#[trigger] events[i], path);
                assert(i < at);
                assert(told_of(before[i], path));
            }
            if exists|i: int| 0 <= i < before.len() && told_of(#[trigger] before[i], path) {
                let i = choose|i: int| 0 <= i < before.len() && told_of(#[trigger] before[i], path);
                assert(told_of(events[i], path));
            }
        }
        assert(now =~= earlier);
        before.lemma_filter_push(events[at], now);
        assert(!now(events[at]));
    } else {
        assert(before =~= events);
    }
}

/// An execution asks for the deletion of each file that the events list as an
/// orphan as often as they do, and of nothing else, in the order of the paths.
/// It does so only where it is no dry run.
pub proof fn what_is_deleted(
    settings: OrphanSettings,
    events: Seq<OrphanEventView>,
    states: Seq<OrphanRunView>,
    commands: Seq<OrphanCommandView>,
    at: int,
)
    requires
        is_execution(settings, events, states, commands),
        0 <= at < commands.len(),
        commands[at] is Delete,
    ensures
        !settings.dry_run,
        commands[at]->Delete_0.len() == told_orphans(settings, events).len(),
        forall|path: Seq<char>| #[trigger]
            commands[at]->Delete_0.contains(path) <==> exists|i: int|
                0 <= i < told_orphans(settings, events).len() && (#[trigger] told_orphans(
                    settings,
                    events,
                )[i]).path@ == path,
        stand_in_order(commands[at]->Delete_0),
{
    broadcast use vstd::seq_lib::group_to_multiset_ensures;

    orphans_are_deleted(settings, events, states, commands, at);
    nothing_is_told_after_deletion(settings, events, states, commands, at);
    orphans_are_those_told(settings, events.take(at));
    let files = states[at].orphans;
    let told = told_orphans(settings, events);
    let paths = commands[at]->Delete_0;
    assert(files.to_multiset().len() == told.to_multiset().len());
    order_goes_by_code_points(files, paths);
    assert forall|path: Seq<char>| #[trigger] paths.contains(path) <==> exists|i: int|
        0 <= i < told.len() && (#[trigger] told[i]).path@ == path by {
        if paths.contains(path) {
            let i = choose|i: int| 0 <= i < paths.len() && paths[i] == path;
            assert(files.contains(files[i]));
            assert(files.to_multiset().count(files[i]) > 0);
            assert(told.contains(files[i]));
            let j = choose|j: int| 0 <= j < told.len() && told[j] == files[i];
            assert(told[j].path@ == path);
        }
        if exists|i: int| 0 <= i < told.len() && (#[trigger] told[i]).path@ == path {
            let i = choose|i: int| 0 <= i < told.len() && (#[trigger] told[i]).path@ == path;
            assert(told.contains(told[i]));
            assert(told.to_multiset().count(told[i]) > 0);
            assert(files.contains(told[i]));
            let j = choose|j: int| 0 <= j < files.len() && files[j] == told[i];
            assert(paths[j] == path);
        }
    }
}

/// A file is deleted exactly where it was listed with a time of modification
/// before the threshold, as no directory, and is not in use.
pub proof fn which_files_are_deleted(
    settings: OrphanSettings,
    events: Seq<OrphanEventView>,
    states: Seq<OrphanRunView>,
    commands: Seq<OrphanCommandView>,
    at: int,
    path: Seq<char>,
)
    requires
        is_execution(settings, events, states, commands),
        0 <= at < commands.len(),
        commands[at] is Delete,
    ensures
        commands[at]->Delete_0.contains(path) <==> !is_in_use(settings, events, path) && exists|
            k: int,
        |
            0 <= k < events.len() && lists_file(#[trigger] events[k], settings.older_than_ms, path),
{
    what_is_deleted(settings, events, states, commands, at);
    let told = told_orphans(settings, events);
    if commands[at]->Delete_0.contains(path) {
        let i = choose|i: int| 0 <= i < told.len() && (#[trigger] told[i]).path@ == path;
        assert(told.contains(told[i]));
        let k = told_orphan_was_listed(settings, events, told[i]);
        assert(lists_file(events[k], settings.older_than_ms, path));
    }
    if !is_in_use(settings, events, path) && exists|k: int|
        0 <= k < events.len() && lists_file(#[trigger] events[k], settings.older_than_ms, path) {
        let k = choose|k: int|
            0 <= k < events.len() && lists_file(#[trigger] events[k], settings.older_than_ms, path);
        let file = listed_orphan_is_told(settings, events, k);
        let i = choose|i: int| 0 <= i < told.len() && told[i] == file;
        assert(told[i].path@ == path);
    }
}

/// An execution that is no dry run returns what it has asked to be deleted, file
/// by file.
pub proof fn what_is_returned_was_deleted(
    settings: OrphanSettings,
    events: Seq<OrphanEventView>,
    states: Seq<OrphanRunView>,
    commands: Seq<OrphanCommandView>,
)
    requires
        is_execution(settings, events, states, commands),
        commands.last() is Return,
        !settings.dry_run,
    ensures
        commands.len() >= 2,
        commands[commands.len() - 2] is Delete,
        commands[commands.len() - 2]->Delete_0 == paths_of_files(commands.last()->Return_0),
{
    let n = events.len() as int;
    assert(n > 0);
    settings_stay(settings, events, states, commands, n - 1);
    assert(states[n - 1].expects(events[n - 1]));
    assert(states[n - 1].leads_to(events[n - 1], states[n], commands[n]));
    assert(n > 1);
    assert(states[n - 2].expects(events[n - 2]));
    assert(states[n - 2].leads_to(events[n - 2], states[n - 1], commands[n - 1]));
    assert(commands[n - 1]->Delete_0 =~= paths_of_files(commands[n]->Return_0));
}

/// No file that the table metadata names is returned or deleted: not the current
/// metadata file, nor any of the metadata log, nor any statistics file or
/// partition statistics file, nor the manifest list of any snapshot.
pub proof fn metadata_files_are_kept(
    settings: OrphanSettings,
    events: Seq<OrphanEventView>,
    states: Seq<OrphanRunView>,
    commands: Seq<OrphanCommandView>,
    at: int,
)
    requires
        is_execution(settings, events, states, commands),
        0 <= at < commands.len(),
        commands[at] is Delete || (commands[at] is Return && at == commands.len() - 1),
    ensures
        ({
            let table = settings.table;
            let gone = |path: Seq<char>|
                if commands[at] is Delete {
                    commands[at]->Delete_0.contains(path)
                } else {
                    paths_of_files(commands[at]->Return_0).contains(path)
                };
            &&& table.metadata_location matches Some(location) ==> !gone(location@)
            &&& forall|i: int|
                0 <= i < table.metadata.metadata_log@.len() ==> !gone(
                    (#[trigger] table.metadata.metadata_log@[i]).metadata_file@,
                )
            &&& forall|i: int|
                0 <= i < table.metadata.statistics@.len() ==> !gone(
                    (#[trigger] table.metadata.statistics@[i]).statistics_path@,
                )
            &&& forall|i: int|
                0 <= i < table.metadata.partition_statistics@.len() ==> !gone(
                    (#[trigger] table.metadata.partition_statistics@[i]).statistics_path@,
                )
            &&& forall|i: int|
                0 <= i < table.metadata.snapshots@.len() && (
                #[trigger] table.metadata.snapshots@[i]).manifest_list@.len() > 0 ==> !gone(
                    table.metadata.snapshots@[i].manifest_list@,
                )
        }),
{
    let table = settings.table;
    let gone = |path: Seq<char>|
        if commands[at] is Delete {
            commands[at]->Delete_0.contains(path)
        } else {
            paths_of_files(commands[at]->Return_0).contains(path)
        };
    assert forall|path: Seq<char>| table_names(table, path) implies !#[trigger] gone(path) by {
        if commands[at] is Delete {
            which_files_are_deleted(settings, events, states, commands, at, path);
        } else if gone(path) {
            let files = commands[at]->Return_0;
            let i = choose|i: int|
                0 <= i < paths_of_files(files).len() && paths_of_files(files)[i] == path;
            assert(files[i].path@ == path);
            which_files_are_returned(
                settings,
                events,
                states,
                commands,
                path,
                files[i].size_bytes,
            );
        }
    }
    if table.metadata_location is Some {
        assert(table_names(table, table.metadata_location->Some_0@));
    }
    assert forall|i: int| 0 <= i < table.metadata.metadata_log@.len() implies !gone(
        (#[trigger] table.metadata.metadata_log@[i]).metadata_file@,
    ) by {
        assert(table_names(table, table.metadata.metadata_log@[i].metadata_file@));
    }
    assert forall|i: int| 0 <= i < table.metadata.statistics@.len() implies !gone(
        (#[trigger] table.metadata.statistics@[i]).statistics_path@,
    ) by {
        assert(table_names(table, table.metadata.statistics@[i].statistics_path@));
    }
    assert forall|i: int| 0 <= i < table.metadata.partition_statistics@.len() implies !gone(
        (#[trigger] table.metadata.partition_statistics@[i]).statistics_path@,
    ) by {
        assert(table_names(table, table.metadata.partition_statistics@[i].statistics_path@));
    }
    assert forall|i: int|
        0 <= i < table.metadata.snapshots@.len() && (
        #[trigger] table.metadata.snapshots@[i]).manifest_list@.len() > 0 implies !gone(
        table.metadata.snapshots@[i].manifest_list@,
    ) by {
        assert(table_names(table, table.metadata.snapshots@[i].manifest_list@));
    }
}

/// A manifest stands in a list that was told.
pub open spec fn stands_in_a_list(events: Seq<OrphanEventView>, manifest: ManifestFile) -> bool {
    exists|k: int|
        0 <= k < events.len() && (#[trigger] events[k] matches OrphanEventView::ManifestList(list)
            && list.contains(manifest))
}

/// One of the manifests lies at the path.
pub open spec fn lies_at(manifests: Seq<ManifestFile>, path: Seq<char>) -> bool {
    exists|i: int| 0 <= i < manifests.len() && (#[trigger] manifests[i]).manifest_path@ == path
}

/// The manifests that are loaded have paths that differ; each stands in a list
/// that was told, and for each manifest of such a list one of its path is loaded.
/// As many are loaded at a time as was chosen.
pub proof fn which_manifests_are_loaded(
    settings: OrphanSettings,
    events: Seq<OrphanEventView>,
    states: Seq<OrphanRunView>,
    commands: Seq<OrphanCommandView>,
    at: int,
)
    requires
        is_execution(settings, events, states, commands),
        0 <= at < commands.len(),
        commands[at] is LoadManifests,
    ensures
        commands[at]->LoadManifests_1 == settings.load_concurrency,
        forall|i: int, j: int|
            0 <= i < j < commands[at]->LoadManifests_0.len() ==> (
            #[trigger] commands[at]->LoadManifests_0[i]).manifest_path@ != (
            #[trigger] commands[at]->LoadManifests_0[j]).manifest_path@,
        forall|manifest: ManifestFile| #[trigger]
            commands[at]->LoadManifests_0.contains(manifest) ==> stands_in_a_list(
                events.take(at),
                manifest,
            ),
        forall|manifest: ManifestFile| #[trigger]
            stands_in_a_list(events.take(at), manifest) ==> lies_at(
                commands[at]->LoadManifests_0,
                manifest.manifest_path@,
            ),
{
    manifests_are_loaded_once(settings, events, states, commands, at);
    let before = events.take(at);
    let loaded = commands[at]->LoadManifests_0;
    let listed = listed_manifests(before);
    assert forall|i: int, j: int| 0 <= i < j < loaded.len() implies (
    #[trigger] loaded[i]).manifest_path@ != (#[trigger] loaded[j]).manifest_path@ by {
        assert(loaded[i].path() != loaded[j].path());
    }
    assert forall|manifest: ManifestFile| #[trigger] loaded.contains(
        manifest,
    ) implies stands_in_a_list(before, manifest) by {
        let i = choose|i: int| 0 <= i < loaded.len() && loaded[i] == manifest;
        assert(listed.contains(loaded[i]));
        let (k, j) = listed_manifest_was_told(before, manifest);
        assert(before[k]->ManifestList_0.contains(manifest));
    }
    assert forall|manifest: ManifestFile| #[trigger]
        stands_in_a_list(before, manifest) implies lies_at(loaded, manifest.manifest_path@) by {
        let k = choose|k: int|
            0 <= k < before.len() && (
            #[trigger] before[k] matches OrphanEventView::ManifestList(list) && list.contains(
                manifest,
            ));
        let list = before[k]->ManifestList_0;
        let j = choose|j: int| 0 <= j < list.len() && list[j] == manifest;
        listed_manifests_hold(before, k, list, j);
        let a = choose|a: int| 0 <= a < listed.len() && listed[a] == manifest;
        assert(has_manifest(loaded, listed[a].path()));
        let i = choose|i: int|
            0 <= i < loaded.len() && (#[trigger] loaded[i]).path() == manifest.path();
        assert(loaded[i].manifest_path@ == manifest.manifest_path@);
    }
}

/// A listed manifest stands in a list that was told.
proof fn listed_manifest_was_told(
    events: Seq<OrphanEventView>,
    manifest: ManifestFile,
) -> (place: (int, int))
    requires
        listed_manifests(events).contains(manifest),
    ensures
        0 <= place.0 < events.len(),
        events[place.0] is ManifestList,
        0 <= place.1 < events[place.0]->ManifestList_0.len(),
        events[place.0]->ManifestList_0[place.1] == manifest,
    decreases events.len(),
{
    let before = listed_manifests(events.drop_last());
    let listed = listed_manifests(events);
    let a = choose|a: int| 0 <= a < listed.len() && listed[a] == manifest;
    if a < before.len() {
        assert(before[a] == manifest);
        let (k, j) = listed_manifest_was_told(events.drop_last(), manifest);
        assert(events.drop_last()[k] == events[k]);
        (k, j)
    } else {
        (events.len() - 1, a - before.len())
    }
}

/// What follows each answer: once the manifest lists are loaded, manifests are
/// asked for; once these are, the whole table location is listed; once it is,
/// the orphans are returned in a dry run and deleted otherwise, and returned once
/// deleted. A failure is returned as it is. In between nothing new is asked for.
pub proof fn what_follows_each_answer(
    settings: OrphanSettings,
    events: Seq<OrphanEventView>,
    states: Seq<OrphanRunView>,
    commands: Seq<OrphanCommandView>,
    at: int,
)
    requires
        is_execution(settings, events, states, commands),
        0 <= at < events.len(),
    ensures
        commands[0] == OrphanCommandView::LoadManifestLists(
            settings.table.metadata.snapshots@,
            settings.load_concurrency,
        ),
        match events[at] {
            OrphanEventView::ManifestList(list) => commands[at + 1] is Continue,
            OrphanEventView::ManifestListsLoaded => commands[at + 1] is LoadManifests,
            OrphanEventView::Manifest(entries) => commands[at + 1] is Continue,
            OrphanEventView::ManifestsLoaded => commands[at + 1] == OrphanCommandView::List(
                settings.table.metadata.location@,
                true,
            ),
            OrphanEventView::Listed(entry) => commands[at + 1] is Continue,
            OrphanEventView::ListingLoaded => if settings.dry_run {
                commands[at + 1] is Return
            } else {
                commands[at + 1] is Delete
            },
            OrphanEventView::Deleted => commands[at + 1] is Return,
            OrphanEventView::Failed(error) => commands[at + 1] == OrphanCommandView::Fail(error),
        },
{
    settings_stay(settings, events, states, commands, at);
    assert(states[at].leads_to(events[at], states[at + 1], commands[at + 1]));
}

/// The value of an event is what it holds.
pub proof fn events_are_taken_as_they_are(
    list: Vec<ManifestFile>,
    entries: Vec<ManifestEntry>,
    entry: FileEntry,
    error: Error,
)
    ensures
        OrphanEvent::ManifestList(list)@ == OrphanEventView::ManifestList(list@),
        OrphanEvent::ManifestListsLoaded@ == OrphanEventView::ManifestListsLoaded,
        OrphanEvent::Manifest(entries)@ == OrphanEventView::Manifest(entries@),
        OrphanEvent::ManifestsLoaded@ == OrphanEventView::ManifestsLoaded,
        OrphanEvent::Listed(entry)@ == OrphanEventView::Listed(entry),
        OrphanEvent::ListingLoaded@ == OrphanEventView::ListingLoaded,
        OrphanEvent::Deleted@ == OrphanEventView::Deleted,
        OrphanEvent::Failed(error)@ == OrphanEventView::Failed(error),
{
}

/// The value of a command is what it asks for.
pub proof fn commands_are_what_they_ask_for(
    snapshots: Vec<Snapshot>,
    manifests: Vec<ManifestFile>,
    location: String,
    paths: Vec<String>,
    files: Vec<OrphanFile>,
    error: Error,
    concurrency: usize,
    recursive: bool,
)
    ensures
        OrphanCommand::LoadManifestLists(snapshots, concurrency)@
            == OrphanCommandView::LoadManifestLists(snapshots@, concurrency),
        OrphanCommand::LoadManifests(manifests, concurrency)@ == OrphanCommandView::LoadManifests(
            manifests@,
            concurrency,
        ),
        OrphanCommand::List(location, recursive)@ == OrphanCommandView::List(location@, recursive),
        OrphanCommand::Delete(paths)@ == OrphanCommandView::Delete(
            Seq::new(paths@.len(), |i: int| paths@[i]@),
        ),
        OrphanCommand::Continue@ == OrphanCommandView::Continue,
        OrphanCommand::Return(Ok(files))@ == OrphanCommandView::Return(files@),
        OrphanCommand::Return(Err(error))@ == OrphanCommandView::Fail(error),
{
    assert(paths@.map_values(|path: String| path@) =~= Seq::new(
        paths@.len(),
        |i: int| paths@[i]@,
    ));
}

} // verus!

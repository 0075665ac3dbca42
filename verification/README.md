# iceberg_actions

Decisions behind two kinds of change to an Iceberg table, proved with Verus:

- **Removing orphan files**: which files below the table location no snapshot and
  no table metadata refers to, and which of them are old enough to be deleted.
- **Replacing files** (rewrites and overwrites): which manifests of the parent
  snapshot stay, go or are written anew, which entries are recorded as deleted,
  and whether delete files that were added in the meantime stand in the way of
  the commit.

The library does no I/O. Each action is a state machine: it returns a command
(load, list, write, delete, commit), is told what came of it, and returns the
next command. `app/` runs these machines against a storage.

## Layout

- `src/metadata/`: data files, manifests, snapshots and table metadata, as far as
  the actions read them.
- `src/actions/`: orphan files. `remove_orphan_files` holds the action,
  `orphan_run` its execution, `reachable` what can be reached, `laws` what holds
  of every execution.
- `src/transaction/`: replacing files. `replace_files` holds the action and the
  operation, `manifest_scan` and `existing_manifest` the pass over the parent's
  manifests, `commit` the commit, `validation` and `delete_check` the search for
  new delete files, `laws` and `commit_laws` what holds of all of them.
- `src/text.rs`, `src/time.rs`, `src/properties.rs`, `src/error.rs`: order of
  paths, the clock, properties and failures.

What is taken on trust stands in `src/text.rs` and `src/time.rs` (comparing strings,
parsing numbers, reading the clock) and in `src/transaction/snapshot.rs` (drawing
the bits of a UUID); each item says what it claims.

//! Changes to a table that become a new snapshot.

pub mod commit;
pub mod commit_laws;
pub mod delete_check;
pub mod existing_manifest;
pub mod guarantees;
pub mod laws;
pub mod manifest_scan;
pub mod replace_files;
mod sealed;
pub mod snapshot;
pub mod validation;

use vstd::prelude::*;

verus! {

/// Names the size, in bytes, that merged manifests are meant to have.
pub const MANIFEST_TARGET_SIZE_BYTES: &'static str = "commit.manifest.target-size-bytes";

/// The size where none is named: 8 MB.
pub const MANIFEST_TARGET_SIZE_BYTES_DEFAULT: u32 = 8 * 1024 * 1024;

/// Names the number of manifests from which on they are merged.
pub const MANIFEST_MIN_MERGE_COUNT: &'static str = "commit.manifest.min-count-to-merge";

/// The number where none is named.
pub const MANIFEST_MIN_MERGE_COUNT_DEFAULT: u32 = 100;

/// Names the choice whether manifests are merged.
pub const MANIFEST_MERGE_ENABLED: &'static str = "commit.manifest-merge.enabled";

/// The choice where none is named.
pub const MANIFEST_MERGE_ENABLED_DEFAULT: bool = false;

/// The name under which a failure tells that it is a conflict with concurrent deletes.
pub const CONCURRENT_DELETE_CONFLICT_CONTEXT_KEY: &'static str = "conflict";

/// What stands under [`CONCURRENT_DELETE_CONFLICT_CONTEXT_KEY`] in such a failure.
pub const CONCURRENT_DELETE_CONFLICT_CONTEXT_VALUE: &'static str = "concurrent-delete";

} // verus!

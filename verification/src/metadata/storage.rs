//! What the storage of a table holds.

use vstd::prelude::*;

use crate::metadata::manifest::{ManifestEntry, ManifestFile};
use crate::metadata::table::Snapshot;

verus! {

/// What the storage of a table holds, for statements about whole actions: the
/// manifest list of each snapshot and the entries of the manifest at each path.
pub struct Storage {
    /// The manifest list of each snapshot.
    pub lists: spec_fn(Snapshot) -> Seq<ManifestFile>,
    /// The entries of the manifest at each path.
    pub entries: spec_fn(Seq<char>) -> Seq<ManifestEntry>,
}

impl Storage {
    /// The entries of a manifest.
    pub open spec fn entries_of(self, manifest: ManifestFile) -> Seq<ManifestEntry> {
        (self.entries)(manifest.path())
    }

    /// A snapshot refers to a file: the file is its manifest list, a manifest of
    /// that list, or one that an entry of such a manifest names.
    pub open spec fn refers_to(self, snapshot: Snapshot, path: Seq<char>) -> bool {
        ||| path == snapshot.manifest_list@ && path.len() > 0
        ||| exists|i: int|
            0 <= i < (self.lists)(snapshot).len() && self.leads_to(
                #[trigger] (self.lists)(snapshot)[i],
                path,
            )
    }

    /// The file is a manifest, or one that an entry of the manifest names.
    pub open spec fn leads_to(self, manifest: ManifestFile, path: Seq<char>) -> bool {
        ||| manifest.path() == path
        ||| exists|i: int|
            0 <= i < self.entries_of(manifest).len() && (#[trigger] self.entries_of(
                manifest,
            )[i]).path() == path
    }
}

} // verus!

//! The update manifest: for each component, the ordered list of pending
//! updates, oldest first.

use vstd::prelude::*;

use crate::settings::structs::view_opt;

verus! {

/// One pending update of one component.
#[derive(Clone)]
pub struct Update {
    pub chainlink: bool,
    pub checksum: String,
    pub version: String,
    pub changelog: String,
    pub file_size: Option<String>,
}

#[verifier::ext_equal]
pub struct UpdateView {
    pub chainlink: bool,
    pub checksum: Seq<char>,
    pub version: Seq<char>,
    pub changelog: Seq<char>,
    pub file_size: Option<Seq<char>>,
}

impl View for Update {
    type V = UpdateView;

    open spec fn view(&self) -> UpdateView {
        UpdateView {
            chainlink: self.chainlink,
            checksum: self.checksum@,
            version: self.version@,
            changelog: self.changelog@,
            file_size: view_opt(self.file_size),
        }
    }
}

/// The pending updates of one component, oldest first.
#[derive(Clone)]
pub struct ManifestEntry {
    pub component: String,
    pub updates: Vec<Update>,
}

#[verifier::ext_equal]
pub struct ManifestEntryView {
    pub component: Seq<char>,
    pub updates: Seq<UpdateView>,
}

impl View for ManifestEntry {
    type V = ManifestEntryView;

    open spec fn view(&self) -> ManifestEntryView {
        ManifestEntryView {
            component: self.component@,
            updates: self.updates@.map_values(|u: Update| u@),
        }
    }
}

/// The manifest: one entry per component, names pairwise distinct.
#[derive(Clone)]
pub struct UpdateManifest {
    pub list: Vec<ManifestEntry>,
}

impl View for UpdateManifest {
    type V = Seq<ManifestEntryView>;

    open spec fn view(&self) -> Seq<ManifestEntryView> {
        self.list@.map_values(|e: ManifestEntry| e@)
    }
}

/// Component names in the manifest are pairwise distinct.
pub open spec fn spec_manifest_wf(m: Seq<ManifestEntryView>) -> bool {
    forall|i: int, j: int| 0 <= i < j < m.len() ==> m[i].component != m[j].component
}

} // verus!

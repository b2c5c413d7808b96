//! Loading and saving of the configuration record.
//!
//! The record travels to and from disk as a JSON document; the program around
//! the library reads and writes the bytes.  This module owns the value-level
//! half: the agent's own synthetic component entry is appended when a
//! document is loaded and stripped from every document that is saved, and
//! every mutator validates uniqueness before producing the document to
//! persist.

use vstd::prelude::*;

use crate::spec_app_name;
use crate::spec_base_directory;
use crate::app_name;
use crate::base_directory;

pub mod encryption_certificates;
pub mod mqtt_connection;
pub mod structs;
pub mod update_components;

use structs::Settings;
use structs::SettingsView;
use structs::UpdateComponent;
use structs::UpdateComponentView;
use structs::CertificateSettings;
use structs::CertificateSettingsView;

verus! {

/// Why a settings mutation was refused.
#[derive(Clone, Copy, Debug, PartialEq, Eq, Structural)]
pub enum SettingsError {
    /// A component or certificate with that name is already configured.
    AlreadyExists,
    /// No entry with the requested name (or no CA on a self-signed entry).
    NotFound,
}

/// Update-component names are pairwise distinct.
pub open spec fn spec_unique_component_names(cs: Seq<UpdateComponentView>) -> bool {
    forall|i: int, j: int| 0 <= i < j < cs.len() ==> cs[i].name != cs[j].name
}

/// Certificate component names are pairwise distinct.
pub open spec fn spec_unique_certificate_names(cs: Seq<CertificateSettingsView>) -> bool {
    forall|i: int, j: int| 0 <= i < j < cs.len() ==> cs[i].component_name != cs[j].component_name
}

/// Well-formedness of a settings record: both name lists are duplicate-free.
pub open spec fn spec_settings_wf(s: SettingsView) -> bool {
    spec_unique_component_names(s.update_components) && spec_unique_certificate_names(
        s.certificates,
    )
}

/// Some update component carries the given name.
pub open spec fn spec_has_component(cs: Seq<UpdateComponentView>, name: Seq<char>) -> bool {
    exists|i: int| 0 <= i < cs.len() && cs[i].name == name
}

/// Some certificate entry carries the given component name.
pub open spec fn spec_has_certificate(cs: Seq<CertificateSettingsView>, name: Seq<char>) -> bool {
    exists|i: int| 0 <= i < cs.len() && cs[i].component_name == name
}

/// Position of the first component with the given name, or -1.
pub open spec fn spec_first_component_index(cs: Seq<UpdateComponentView>, name: Seq<char>) -> int
    decreases cs.len(),
{
    if cs.len() == 0 {
        -1
    } else if cs[0].name == name {
        0
    } else if spec_first_component_index(cs.drop_first(), name) == -1 {
        -1
    } else {
        spec_first_component_index(cs.drop_first(), name) + 1
    }
}

pub proof fn lemma_first_component_index(cs: Seq<UpdateComponentView>, name: Seq<char>)
    ensures
        spec_first_component_index(cs, name) == -1 <==> !spec_has_component(cs, name),
        spec_first_component_index(cs, name) != -1 ==> {
            let k = spec_first_component_index(cs, name);
            &&& 0 <= k < cs.len()
            &&& cs[k].name == name
            &&& forall|j: int| 0 <= j < k ==> cs[j].name != name
        },
    decreases cs.len(),
{
    if cs.len() == 0 {
    } else if cs[0].name == name {
    } else {
        lemma_first_component_index(cs.drop_first(), name);
        let rest = cs.drop_first();
        if spec_first_component_index(rest, name) == -1 {
            assert forall|i: int| 0 <= i < cs.len() implies cs[i].name != name by {
                if i > 0 {
                    assert(cs[i] == rest[i - 1]);
                }
            }
        } else {
            let k = spec_first_component_index(rest, name);
            assert(cs[k + 1] == rest[k]);
            assert forall|j: int| 0 <= j < k + 1 implies cs[j].name != name by {
                if j > 0 {
                    assert(cs[j] == rest[j - 1]);
                }
            }
        }
    }
}

/// The component entry under which the agent injects itself on load.
pub open spec fn spec_synthetic_agent() -> UpdateComponentView {
    UpdateComponentView {
        name: spec_app_name(),
        version_file_path: Seq::<char>::empty(),
        permission_user: "root"@,
        permission_group: "root"@,
        file_permissions: "700"@,
        container_name: None,
        service_name: Some("neutroncommunicator.service"@),
        restart_command: Seq::<char>::empty(),
    }
}

/// A loaded document with the synthetic agent entry appended.
pub open spec fn spec_append_agent(s: SettingsView) -> SettingsView {
    SettingsView { update_components: s.update_components.push(spec_synthetic_agent()), ..s }
}

/// An in-memory record with the first agent entry (if any) removed: the
/// exact document that goes to disk.
pub open spec fn spec_strip_agent(s: SettingsView) -> SettingsView {
    let k = spec_first_component_index(s.update_components, spec_app_name());
    if k == -1 {
        s
    } else {
        SettingsView { update_components: s.update_components.remove(k), ..s }
    }
}

/// Completes loading of a parsed settings document: the agent itself is
/// appended to the component list so that update searches include it.
pub fn init(doc: Settings) -> (r: Settings)
    ensures
        r@ == spec_append_agent(doc@),
{
    let mut doc = doc;
    let agent = UpdateComponent {
        name: app_name().to_owned(),
        version_file_path: String::new(),
        permission_user: String::from_str("root"),
        permission_group: String::from_str("root"),
        file_permissions: String::from_str("700"),
        container_name: None,
        service_name: Some(String::from_str("neutroncommunicator.service")),
        restart_command: String::new(),
    };
    proof {
        assert(agent@ =~= spec_synthetic_agent());
    }
    let ghost before = doc.update_components@;
    doc.update_components.push(agent);
    proof {
        assert(doc.update_components@.map_values(|c: UpdateComponent| c@) =~= before.map_values(
            |c: UpdateComponent| c@,
        ).push(spec_synthetic_agent()));
        assert(doc@ =~= spec_append_agent(SettingsView {
            update_components: before.map_values(|c: UpdateComponent| c@),
            ..doc@
        }));
    }
    doc
}

/// The document to persist: the in-memory record with the agent's own
/// synthetic component entry stripped (it is injected again on every load
/// and must never reach disk).
pub fn to_saved_document(settings: Settings) -> (r: Settings)
    ensures
        r@ == spec_strip_agent(settings@),
{
    let mut out = settings;
    let ghost orig = out@;
    let app = app_name().to_owned();
    let n = out.update_components.len();
    let mut i: usize = 0;
    let ghost cs = out.update_components@.map_values(|c: UpdateComponent| c@);
    while i < n
        invariant
            i <= n,
            n == out.update_components@.len(),
            orig == settings@,
            out@ == orig,
            cs == out.update_components@.map_values(|c: UpdateComponent| c@),
            app@ == spec_app_name(),
            forall|j: int| 0 <= j < i ==> cs[j].name != spec_app_name(),
        decreases n - i,
    {
        if out.update_components[i].name == app {
            proof {
                lemma_first_component_index(cs, spec_app_name());
                assert(cs[i as int] == out.update_components@[i as int]@);
                assert(cs[i as int].name == spec_app_name());
                let k = spec_first_component_index(cs, spec_app_name());
                assert(k == i);
            }
            out.update_components.remove(i);
            proof {
                assert(out.update_components@.map_values(|c: UpdateComponent| c@)
                    =~= cs.remove(i as int));
                assert(out@ =~= spec_strip_agent(orig));
                assert(out@ == spec_strip_agent(orig));
            }
            return out;
        }
        i = i + 1;
    }
    proof {
        assert(forall|j: int| 0 <= j < cs.len() ==> cs[j].name != spec_app_name());
        lemma_first_component_index(cs, spec_app_name());
        assert(spec_first_component_index(cs, spec_app_name()) == -1);
    }
    out
}

/// Location of the settings document on disk.
pub open spec fn spec_settings_location() -> Seq<char> {
    spec_base_directory() + "settings.json"@
}

/// Location of the settings document on disk.
pub fn get_settings_location() -> (r: String)
    ensures
        r@ == spec_settings_location(),
{
    base_directory().to_owned().concat("settings.json")
}

/// The freshly generated default document, with the path it belongs at.
pub fn write_default() -> (r: (Settings, String))
    ensures
        r.0@ == structs::spec_default_settings(),
        r.1@ == spec_settings_location(),
{
    (Settings::default(), get_settings_location())
}

/// Decides well-formedness of a record: both name lists duplicate-free.
/// The mutators assume this of their input; a caller holding a record of
/// unknown provenance (a freshly parsed file) checks it here first.
pub fn settings_wf(settings: &Settings) -> (r: bool)
    ensures
        r == spec_settings_wf(settings@),
{
    let ghost cs = settings.update_components@.map_values(|c: UpdateComponent| c@);
    let n = settings.update_components.len();
    let mut i: usize = 0;
    while i < n
        invariant
            i <= n,
            n == settings.update_components@.len(),
            cs == settings.update_components@.map_values(|c: UpdateComponent| c@),
            forall|a: int, b: int| 0 <= a < b < i ==> cs[a].name != cs[b].name,
        decreases n - i,
    {
        let mut j: usize = 0;
        while j < i
            invariant
                j <= i < n,
                n == settings.update_components@.len(),
                cs == settings.update_components@.map_values(|c: UpdateComponent| c@),
                forall|b: int| 0 <= b < j ==> cs[b].name != cs[i as int].name,
            decreases i - j,
        {
            proof {
                assert(cs[j as int] == settings.update_components@[j as int]@);
                assert(cs[i as int] == settings.update_components@[i as int]@);
            }
            if settings.update_components[j].name == settings.update_components[i].name {
                proof {
                    assert(cs[j as int].name == cs[i as int].name);
                    assert(!spec_unique_component_names(cs));
                }
                return false;
            }
            j = j + 1;
        }
        i = i + 1;
    }
    let ghost qs = settings.certificates@.map_values(|c: CertificateSettings| c@);
    let m = settings.certificates.len();
    let mut i: usize = 0;
    while i < m
        invariant
            i <= m,
            m == settings.certificates@.len(),
            cs == settings.update_components@.map_values(|c: UpdateComponent| c@),
            spec_unique_component_names(cs),
            qs == settings.certificates@.map_values(|c: CertificateSettings| c@),
            forall|a: int, b: int| 0 <= a < b < i ==> qs[a].component_name != qs[b].component_name,
        decreases m - i,
    {
        let mut j: usize = 0;
        while j < i
            invariant
                j <= i < m,
                m == settings.certificates@.len(),
                cs == settings.update_components@.map_values(|c: UpdateComponent| c@),
                spec_unique_component_names(cs),
                qs == settings.certificates@.map_values(|c: CertificateSettings| c@),
                forall|b: int| 0 <= b < j ==> qs[b].component_name != qs[i as int].component_name,
            decreases i - j,
        {
            proof {
                assert(qs[j as int] == settings.certificates@[j as int]@);
                assert(qs[i as int] == settings.certificates@[i as int]@);
            }
            if settings.certificates[j].component_name == settings.certificates[i].component_name {
                proof {
                    assert(qs[j as int].component_name == qs[i as int].component_name);
                    assert(!spec_unique_certificate_names(qs));
                }
                return false;
            }
            j = j + 1;
        }
        i = i + 1;
    }
    true
}

/// Every document produced for saving from a well-formed record keeps both
/// name lists pairwise distinct and never carries the agent's synthetic
/// component entry.
pub proof fn lemma_saved_document_wf(s: SettingsView)
    requires
        spec_settings_wf(s),
    ensures
        spec_settings_wf(spec_strip_agent(s)),
        !spec_has_component(spec_strip_agent(s).update_components, spec_app_name()),
{
    let cs = s.update_components;
    lemma_first_component_index(cs, spec_app_name());
    let k = spec_first_component_index(cs, spec_app_name());
    if k == -1 {
        assert(!spec_has_component(cs, spec_app_name()));
    } else {
        let rem = cs.remove(k);
        assert forall|i: int, j: int| 0 <= i < j < rem.len() implies rem[i].name != rem[j].name by {
            let i0 = if i < k { i } else { i + 1 };
            let j0 = if j < k { j } else { j + 1 };
            assert(rem[i] == cs[i0]);
            assert(rem[j] == cs[j0]);
        }
        assert forall|i: int| 0 <= i < rem.len() implies rem[i].name != spec_app_name() by {
            let i0 = if i < k { i } else { i + 1 };
            assert(rem[i] == cs[i0]);
            if cs[i0].name == spec_app_name() {
                assert(cs[k].name == cs[i0].name);
            }
        }
    }
}

/// Loading a saved document restores the record it was saved from: for any
/// in-memory record whose last component entry is the synthetic agent and
/// which mentions the agent nowhere else — the shape every loaded record has
/// — stripping for save and re-appending on load is the identity.
pub proof fn lemma_load_save_round_trip(s: SettingsView)
    requires
        s.update_components.len() > 0,
        s.update_components.last() == spec_synthetic_agent(),
        forall|i: int|
            0 <= i < s.update_components.len() - 1 ==> s.update_components[i].name
                != spec_app_name(),
    ensures
        spec_append_agent(spec_strip_agent(s)) == s,
{
    let cs = s.update_components;
    let n = cs.len() as int;
    lemma_first_component_index(cs, spec_app_name());
    assert(cs[n - 1].name == spec_app_name());
    assert(spec_has_component(cs, spec_app_name()));
    let k = spec_first_component_index(cs, spec_app_name());
    assert(cs[k].name == spec_app_name());
    assert(k == n - 1);
    assert(cs.remove(n - 1).push(spec_synthetic_agent()) =~= cs);
    assert(spec_append_agent(spec_strip_agent(s)) =~= s);
}

} // verus!

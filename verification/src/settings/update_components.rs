//! Mutators for the list of managed components.  Each one validates, applies
//! the change to an in-memory copy, and returns the exact document to write
//! back to disk.

use vstd::prelude::*;

use super::SettingsError;
use super::lemma_first_component_index;
use super::lemma_saved_document_wf;
use super::spec_first_component_index;
use super::spec_has_component;
use super::spec_settings_wf;
use super::spec_strip_agent;
use super::to_saved_document;
use super::structs::Settings;
use super::structs::SettingsView;
use super::structs::UpdateComponent;

verus! {

/// Appends the component to the list and returns the document to persist.
/// Only components with a name not yet in the list are accepted.
pub fn add_update_component(settings: Settings, component: UpdateComponent) -> (r: Result<
    Settings,
    SettingsError,
>)
    requires
        spec_settings_wf(settings@),
    ensures
        match r {
            Ok(doc) => {
                &&& !spec_has_component(settings@.update_components, component@.name)
                &&& doc@ == spec_strip_agent(
                    (SettingsView {
                        update_components: settings@.update_components.push(component@),
                        ..settings@
                    }),
                )
                &&& spec_settings_wf(doc@)
            },
            Err(e) => {
                &&& e == SettingsError::AlreadyExists
                &&& spec_has_component(settings@.update_components, component@.name)
            },
        },
{
    let mut s = settings;
    let ghost orig = s@;
    let n = s.update_components.len();
    let mut i: usize = 0;
    let ghost cs = s.update_components@.map_values(|c: UpdateComponent| c@);
    while i < n
        invariant
            i <= n,
            n == s.update_components@.len(),
            orig == settings@,
            orig == s@,
            cs == s.update_components@.map_values(|c: UpdateComponent| c@),
            forall|j: int| 0 <= j < i ==> cs[j].name != component@.name,
        decreases n - i,
    {
        if s.update_components[i].name == component.name {
            proof {
                assert(cs[i as int] == s.update_components@[i as int]@);
                assert(cs[i as int].name == component@.name);
                assert(spec_has_component(cs, component@.name));
            }
            return Err(SettingsError::AlreadyExists);
        }
        i = i + 1;
    }
    let ghost pushed = SettingsView { update_components: cs.push(component@), ..orig };
    s.update_components.push(component);
    proof {
        assert(s.update_components@.map_values(|c: UpdateComponent| c@) =~= cs.push(
            component@,
        ));
        assert(s@ =~= pushed);
        assert(spec_settings_wf(pushed));
        lemma_saved_document_wf(pushed);
    }
    Ok(to_saved_document(s))
}

/// Removes the first component with the given name and returns the document
/// to persist; fails when no component carries that name.
pub fn remove_update_component(settings: Settings, component_name: &str) -> (r: Result<
    Settings,
    SettingsError,
>)
    requires
        spec_settings_wf(settings@),
    ensures
        match r {
            Ok(doc) => {
                &&& spec_has_component(settings@.update_components, component_name@)
                &&& doc@ == spec_strip_agent(
                    (SettingsView {
                        update_components: settings@.update_components.remove(
                            spec_first_component_index(
                                settings@.update_components,
                                component_name@,
                            ),
                        ),
                        ..settings@
                    }),
                )
                &&& spec_settings_wf(doc@)
            },
            Err(e) => {
                &&& e == SettingsError::NotFound
                &&& !spec_has_component(settings@.update_components, component_name@)
            },
        },
{
    let mut s = settings;
    let ghost orig = s@;
    let needle = component_name.to_owned();
    let n = s.update_components.len();
    let mut i: usize = 0;
    let ghost cs = s.update_components@.map_values(|c: UpdateComponent| c@);
    while i < n
        invariant
            i <= n,
            n == s.update_components@.len(),
            orig == settings@,
            orig == s@,
            spec_settings_wf(orig),
            needle@ == component_name@,
            cs == s.update_components@.map_values(|c: UpdateComponent| c@),
            forall|j: int| 0 <= j < i ==> cs[j].name != component_name@,
        decreases n - i,
    {
        if s.update_components[i].name == needle {
            proof {
                lemma_first_component_index(cs, component_name@);
                assert(cs[i as int] == s.update_components@[i as int]@);
                assert(spec_first_component_index(cs, component_name@) == i);
            }
            s.update_components.remove(i);
            let ghost removed = SettingsView { update_components: cs.remove(i as int), ..orig };
            proof {
                assert(s.update_components@.map_values(|c: UpdateComponent| c@)
                    =~= cs.remove(i as int));
                assert(s@ =~= removed);
                assert forall|a: int, b: int|
                    0 <= a < b < cs.remove(i as int).len() implies cs.remove(i as int)[a].name
                    != cs.remove(i as int)[b].name by {
                    let a0 = if a < i { a } else { a + 1 };
                    let b0 = if b < i { b } else { b + 1 };
                    assert(cs.remove(i as int)[a] == cs[a0]);
                    assert(cs.remove(i as int)[b] == cs[b0]);
                }
                assert(spec_settings_wf(removed));
                lemma_saved_document_wf(removed);
                assert(s@ == removed);
                assert(spec_has_component(cs, component_name@));
            }
            return Ok(to_saved_document(s));
        }
        i = i + 1;
    }
    proof {
        assert(forall|j: int| 0 <= j < cs.len() ==> cs[j].name != component_name@);
    }
    Err(SettingsError::NotFound)
}

} // verus!

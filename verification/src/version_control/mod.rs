//! The version-control engine: manifest negotiation, artifact verification,
//! unpacking, planning and the resume path after a self-upgrade.
//!
//! Downloading, file handling and child processes happen outside; this
//! module decides every path, URL, command line and plan, and checks every
//! artifact.

use vstd::prelude::*;

use crate::app_name;
use crate::app_version;
use crate::base_directory;
use crate::neutron_server_ip;
use crate::neutron_server_port;
use crate::neutron_server_protocol;
use crate::spec_app_name;
use crate::spec_app_version;
use crate::spec_base_directory;
use crate::spec_neutron_server_ip;
use crate::spec_neutron_server_port;
use crate::spec_neutron_server_protocol;
use crate::settings::spec_first_component_index;
use crate::settings::spec_has_component;
use crate::settings::structs::UpdateComponent;
use crate::settings::structs::UpdateComponentView;
use crate::state::VersionMap;
use crate::state::spec_vm_entries;
use crate::state::spec_vm_wf;
use crate::textutil::join;
use crate::textutil::spec_join;
use crate::textutil::spec_trim;
use crate::textutil::spec_views;
use crate::textutil::trim;
use crate::settings::structs::view_opt;

pub mod recipe_processor;
pub mod security;
pub mod structs;

use structs::ManifestEntryView;
use structs::UpdateManifest;
use structs::UpdateView;
use recipe_processor::CookbookEntry;
use recipe_processor::CookbookEntryView;
use recipe_processor::Instruction;
use recipe_processor::InstructionStep;
use recipe_processor::InstructionStepView;
use recipe_processor::InstructionView;

verus! {

/// Directory under which artifacts are downloaded and unpacked.
pub open spec fn spec_temp_folder_path() -> Seq<char> {
    spec_base_directory() + ".vc-temp/version_control/"@
}

/// Directory under which artifacts are downloaded and unpacked.
pub fn get_temp_folder_path() -> (r: String)
    ensures
        r@ == spec_temp_folder_path(),
{
    base_directory().to_owned().concat(".vc-temp/version_control/")
}

/// The file that records extracted update directories still to install
/// after the agent upgrades itself.
pub open spec fn spec_leftover_updates_file() -> Seq<char> {
    spec_temp_folder_path() + "unfinished_updates.json"@
}

/// The file that records extracted update directories still to install
/// after the agent upgrades itself.
pub fn leftover_updates_file() -> (r: String)
    ensures
        r@ == spec_leftover_updates_file(),
{
    get_temp_folder_path().concat("unfinished_updates.json")
}

/// The instruction file inside an extracted update directory.
pub open spec fn spec_recipe_path(update_dir: Seq<char>) -> Seq<char> {
    update_dir + "recipe.json"@
}

/// The instruction file inside an extracted update directory.
pub fn recipe_path(update_dir: &str) -> (r: String)
    ensures
        r@ == spec_recipe_path(update_dir@),
{
    update_dir.to_owned().concat("recipe.json")
}

/// The download directory of one component.
pub open spec fn spec_component_temp_dir(component: Seq<char>) -> Seq<char> {
    spec_temp_folder_path() + component
}

/// The download directory of one component.
pub fn component_temp_dir(component: &str) -> (r: String)
    ensures
        r@ == spec_component_temp_dir(component@),
{
    get_temp_folder_path().concat(component)
}

/// Where one update's archive is written: the component's download
/// directory, then the version as the file name.
pub open spec fn spec_update_file_path(component: Seq<char>, version: Seq<char>) -> Seq<char> {
    spec_component_temp_dir(component) + "/"@ + version
}

/// Where one update's archive is written.
pub fn update_file_path(component: &str, version: &str) -> (r: String)
    ensures
        r@ == spec_update_file_path(component@, version@),
{
    component_temp_dir(component).concat("/").concat(version)
}

/// The directory an archive is unpacked into.
pub open spec fn spec_extracted_dir(archive: Seq<char>) -> Seq<char> {
    archive + "-extracted"@
}

/// The path recorded for an unpacked update: the extraction directory with
/// a trailing separator.
pub open spec fn spec_extracted_path(archive: Seq<char>) -> Seq<char> {
    spec_extracted_dir(archive) + "/"@
}

/// The path recorded for an unpacked update.
pub fn extracted_path(archive: &str) -> (r: String)
    ensures
        r@ == spec_extracted_path(archive@),
{
    archive.to_owned().concat("-extracted").concat("/")
}

/// The `unzip` invocation that unpacks one archive.
pub open spec fn spec_unzip_argv(archive: Seq<char>) -> Seq<Seq<char>> {
    seq!["unzip"@, archive, "-d"@, spec_extracted_dir(archive)]
}

/// The `unzip` invocation that unpacks one archive; the archive is removed
/// once it succeeded.
pub fn unzip_argv(archive: &str) -> (r: Vec<String>)
    ensures
        spec_views(r@) == spec_unzip_argv(archive@),
{
    let r: Vec<String> = vec![
        String::from_str("unzip"),
        archive.to_owned(),
        String::from_str("-d"),
        archive.to_owned().concat("-extracted"),
    ];
    proof {
        assert(spec_views(r@) =~= spec_unzip_argv(archive@));
    }
    r
}

/// The manifest-request address, exactly as the update server expects it.
pub open spec fn spec_manifest_url(
    neutron_acc_user: Seq<char>,
    mqtt_user: Seq<char>,
    mqtt_pass: Seq<char>,
    application: Seq<char>,
    branch: Seq<char>,
    components: Seq<Seq<char>>,
    versions: Seq<Seq<char>>,
) -> Seq<char> {
    spec_neutron_server_protocol() + spec_neutron_server_ip() + spec_neutron_server_port()
        + "/api/versioncontrol?neutronuser="@ + neutron_acc_user + "&username="@ + mqtt_user
        + "&password="@ + mqtt_pass + "&application="@ + application + "&branch="@ + branch
        + "&components="@ + spec_join(components, ","@) + "&versions="@ + spec_join(
        versions,
        ","@,
    )
}

/// One update's download address.
pub open spec fn spec_download_url(
    neutron_acc_user: Seq<char>,
    mqtt_user: Seq<char>,
    mqtt_pass: Seq<char>,
    application: Seq<char>,
    branch: Seq<char>,
    component: Seq<char>,
    version: Seq<char>,
) -> Seq<char> {
    spec_neutron_server_protocol() + spec_neutron_server_ip() + spec_neutron_server_port()
        + "/version_control/download?neutronuser="@ + neutron_acc_user + "&username="@ + mqtt_user
        + "&password="@ + mqtt_pass + "&application="@ + application + "&branch="@ + branch
        + "&component="@ + component + "&version="@ + version
}

/// Builds one update's download address.
pub fn download_url(
    neutron_acc_user: &str,
    mqtt_user: &str,
    mqtt_pass: &str,
    application: &str,
    branch: &str,
    component: &str,
    version: &str,
) -> (r: String)
    ensures
        r@ == spec_download_url(
            neutron_acc_user@,
            mqtt_user@,
            mqtt_pass@,
            application@,
            branch@,
            component@,
            version@,
        ),
{
    neutron_server_protocol().to_owned().concat(neutron_server_ip()).concat(
        neutron_server_port(),
    ).concat("/version_control/download?neutronuser=").concat(neutron_acc_user).concat(
        "&username=",
    ).concat(mqtt_user).concat("&password=").concat(mqtt_pass).concat("&application=").concat(
        application,
    ).concat("&branch=").concat(branch).concat("&component=").concat(component).concat(
        "&version=",
    ).concat(version)
}

/// The manifest request for the given account and component table.  Nothing
/// is requested while the table is empty: the manifest slot is to be
/// cleared instead.
pub fn request_update_manifest(
    neutron_acc_user: &str,
    mqtt_user: &str,
    mqtt_pass: &str,
    application: &str,
    branch: &str,
    versions: &VersionMap,
) -> (r: Option<String>)
    ensures
        match r {
            Some(url) => spec_vm_entries(versions).len() > 0 && url@ == spec_manifest_url(
                neutron_acc_user@,
                mqtt_user@,
                mqtt_pass@,
                application@,
                branch@,
                spec_vm_entries(versions).map_values(|e: (Seq<char>, Seq<char>)| e.0),
                spec_vm_entries(versions).map_values(|e: (Seq<char>, Seq<char>)| e.1),
            ),
            None => spec_vm_entries(versions).len() == 0,
        },
{
    if versions.len() == 0 {
        return None;
    }
    let components = versions.keys();
    let version_list = versions.values();
    let component_part = join(&components, ",");
    let version_part = join(&version_list, ",");
    let url = neutron_server_protocol().to_owned().concat(neutron_server_ip()).concat(
        neutron_server_port(),
    ).concat("/api/versioncontrol?neutronuser=").concat(neutron_acc_user).concat(
        "&username=",
    ).concat(mqtt_user).concat("&password=").concat(mqtt_pass).concat("&application=").concat(
        application,
    ).concat("&branch=").concat(branch).concat("&components=").concat(
        component_part.as_str(),
    ).concat("&versions=").concat(version_part.as_str());
    Some(url)
}

/// Fills the component-versions table at startup: the agent itself first,
/// then one entry per component whose version file could be read, its
/// contents trimmed.  Pairs are `(component name, file contents)`, in
/// configuration order; a missing file contributes nothing.
pub fn init_component_versions(loaded: Vec<(String, Option<String>)>) -> (r: VersionMap)
    requires
        forall|i: int, j: int|
            0 <= i < j < loaded@.len() ==> loaded@[i].0@ != loaded@[j].0@,
        forall|i: int| 0 <= i < loaded@.len() ==> loaded@[i].0@ != spec_app_name(),
    ensures
        spec_vm_wf(&r),
        spec_vm_entries(&r) == seq![(spec_app_name(), spec_app_version())]
            + spec_loaded_versions(
            loaded@.map_values(|p: (String, Option<String>)| (p.0@, crate::settings::structs::view_opt(p.1))),
        ),
{
    let mut versions = VersionMap::new();
    versions.insert(app_name(), app_version());
    let ghost pairs = loaded@.map_values(
        |p: (String, Option<String>)| (p.0@, crate::settings::structs::view_opt(p.1)),
    );
    let n = loaded.len();
    let mut i: usize = 0;
    while i < n
        invariant
            i <= n,
            n == loaded@.len(),
            pairs == loaded@.map_values(
                |p: (String, Option<String>)| (p.0@, crate::settings::structs::view_opt(p.1)),
            ),
            forall|a: int, b: int| 0 <= a < b < pairs.len() ==> pairs[a].0 != pairs[b].0,
            forall|a: int| 0 <= a < pairs.len() ==> pairs[a].0 != spec_app_name(),
            spec_vm_wf(&versions),
            spec_vm_entries(&versions) == seq![(spec_app_name(), spec_app_version())]
                + spec_loaded_versions(pairs.take(i as int)),
        decreases n - i,
    {
        proof {
            assert(pairs[i as int] == (
                loaded@[i as int].0@,
                crate::settings::structs::view_opt(loaded@[i as int].1),
            ));
        }
        proof {
            let es = spec_vm_entries(&versions);
            lemma_loaded_versions_keys(pairs.take(i as int));
            assert forall|k: int| 0 <= k < es.len() implies es[k].0 != pairs[i as int].0 by {
                if k == 0 {
                    assert(es[0].0 == spec_app_name());
                } else {
                    assert(es[k] == spec_loaded_versions(pairs.take(i as int))[k - 1]);
                    let j = choose|j: int|
                        0 <= j < pairs.take(i as int).len() && #[trigger] spec_loaded_versions(
                            pairs.take(i as int),
                        )[k - 1].0 == pairs.take(i as int)[j].0;
                    assert(pairs.take(i as int)[j] == pairs[j]);
                }
            }
            assert(!crate::state::spec_vm_has(&versions, pairs[i as int].0));
        }
        match &loaded[i].1 {
            Some(contents) => {
                let version = trim(contents.as_str());
                let ghost before = spec_vm_entries(&versions);
                let _ = versions.insert(loaded[i].0.as_str(), version.as_str());
                proof {
                    lemma_loaded_versions_push(pairs, i as int);
                    assert(spec_vm_entries(&versions) == before.push(
                        (pairs[i as int].0, spec_trim(pairs[i as int].1->0)),
                    ));
                    assert(seq![(spec_app_name(), spec_app_version())] + spec_loaded_versions(
                        pairs.take(i + 1),
                    ) =~= before.push((pairs[i as int].0, spec_trim(pairs[i as int].1->0))));
                }
            },
            None => {
                proof {
                    lemma_loaded_versions_push(pairs, i as int);
                }
            },
        }
        i = i + 1;
    }
    proof {
        assert(pairs.take(n as int) =~= pairs);
    }
    versions
}

/// One recipe file of one extracted update: its directory and, when it
/// could be read and parsed, its instruction list.
pub struct RecipeFile {
    pub path: String,
    pub instructions: Option<Vec<Instruction>>,
}

#[verifier::ext_equal]
pub struct RecipeFileView {
    pub path: Seq<char>,
    pub instructions: Option<Seq<InstructionView>>,
}

impl View for RecipeFile {
    type V = RecipeFileView;

    open spec fn view(&self) -> RecipeFileView {
        RecipeFileView {
            path: self.path@,
            instructions: match self.instructions {
                Some(v) => Some(v@.map_values(|i: Instruction| i@)),
                None => None,
            },
        }
    }
}

/// The recipe files of one component's pending updates, oldest first.
pub struct ComponentRecipes {
    pub component: String,
    pub recipes: Vec<RecipeFile>,
}

#[verifier::ext_equal]
pub struct ComponentRecipesView {
    pub component: Seq<char>,
    pub recipes: Seq<RecipeFileView>,
}

impl View for ComponentRecipes {
    type V = ComponentRecipesView;

    open spec fn view(&self) -> ComponentRecipesView {
        ComponentRecipesView {
            component: self.component@,
            recipes: self.recipes@.map_values(|f: RecipeFile| f@),
        }
    }
}

/// An instruction as the cookbook carries it: its update directory filled
/// in, and — for a `copy` with a configured component — missing permission
/// fields taken from the component's defaults.
pub open spec fn spec_enrich_instruction(
    iv: InstructionView,
    dir: Seq<char>,
    preset: Option<UpdateComponentView>,
) -> InstructionView {
    let step = match iv.step {
        InstructionStepView::Copy {
            file_path,
            destination,
            permission_user,
            permission_group,
            file_permissions,
        } => match preset {
            Some(p) => InstructionStepView::Copy {
                file_path,
                destination,
                permission_user: if permission_user is Some {
                    permission_user
                } else {
                    Some(p.permission_user)
                },
                permission_group: if permission_group is Some {
                    permission_group
                } else {
                    Some(p.permission_group)
                },
                file_permissions: if file_permissions is Some {
                    file_permissions
                } else {
                    Some(p.file_permissions)
                },
            },
            None => iv.step,
        },
        _ => iv.step,
    };
    InstructionView { step, absolute_update_path: dir, ..iv }
}

/// The flattened instruction stream of one component: the instructions of
/// every readable recipe, in recipe order, each enriched with its update
/// directory and the component's permission defaults.
pub open spec fn spec_recipe_instructions(
    files: Seq<RecipeFileView>,
    preset: Option<UpdateComponentView>,
) -> Seq<InstructionView>
    decreases files.len(),
{
    if files.len() == 0 {
        Seq::empty()
    } else {
        (match files[0].instructions {
            Some(is) => is.map_values(|iv: InstructionView|
                spec_enrich_instruction(iv, files[0].path, preset)),
            None => Seq::<InstructionView>::empty(),
        }) + spec_recipe_instructions(files.drop_first(), preset)
    }
}

/// The version carried by the last version-bearing instruction, if any.
/// Recipes are ordered oldest first, so this is the component's
/// post-install version.
pub open spec fn spec_last_version(is: Seq<InstructionView>) -> Option<Seq<char>>
    decreases is.len(),
{
    if is.len() == 0 {
        None
    } else {
        match is.last().version {
            Some(v) => Some(v),
            None => spec_last_version(is.drop_last()),
        }
    }
}

/// Whether any instruction asks for a component restart.
pub open spec fn spec_any_restart(is: Seq<InstructionView>) -> bool {
    exists|i: int| 0 <= i < is.len() && is[i].restart
}

/// The component's permission preset: the first configured component with
/// its name, if any.
pub open spec fn spec_preset_for(
    ps: Seq<UpdateComponentView>,
    name: Seq<char>,
) -> Option<UpdateComponentView> {
    let k = spec_first_component_index(ps, name);
    if k == -1 {
        None
    } else {
        Some(ps[k])
    }
}

/// The cookbook entry of one component, or nothing when no instruction
/// anywhere named a version (such a component is skipped).
pub open spec fn spec_component_entry(
    c: ComponentRecipesView,
    ps: Seq<UpdateComponentView>,
) -> Option<CookbookEntryView> {
    let preset = spec_preset_for(ps, c.component);
    let is = spec_recipe_instructions(c.recipes, preset);
    match spec_last_version(is) {
        None => None,
        Some(v) => Some(
            (CookbookEntryView {
                component: c.component,
                restart_command: match preset {
                    Some(p) => p.restart_command,
                    None => Seq::empty(),
                },
                restart: spec_any_restart(is),
                final_version: v,
                updates: is,
            }),
        ),
    }
}

/// The whole cookbook: one entry per component that yielded a version, in
/// input order.
pub open spec fn spec_cookbook(
    l: Seq<ComponentRecipesView>,
    ps: Seq<UpdateComponentView>,
) -> Seq<CookbookEntryView>
    decreases l.len(),
{
    if l.len() == 0 {
        Seq::empty()
    } else {
        (match spec_component_entry(l[0], ps) {
            Some(e) => seq![e],
            None => Seq::<CookbookEntryView>::empty(),
        }) + spec_cookbook(l.drop_first(), ps)
    }
}

proof fn lemma_cookbook_push(l: Seq<ComponentRecipesView>, ps: Seq<UpdateComponentView>, i: int)
    requires
        0 <= i < l.len(),
    ensures
        spec_component_entry(l[i], ps) is Some ==> spec_cookbook(l.take(i + 1), ps)
            == spec_cookbook(l.take(i), ps).push(spec_component_entry(l[i], ps)->0),
        spec_component_entry(l[i], ps) is None ==> spec_cookbook(l.take(i + 1), ps)
            == spec_cookbook(l.take(i), ps),
    decreases i,
{
    if i == 0 {
        assert(l.take(1) =~= seq![l[0]]);
        assert(l.take(1)[0] == l[0]);
        assert(l.take(1).drop_first() =~= Seq::<ComponentRecipesView>::empty());
        assert(l.take(0) =~= Seq::<ComponentRecipesView>::empty());
        assert(spec_cookbook(Seq::<ComponentRecipesView>::empty(), ps) =~= Seq::<
            CookbookEntryView,
        >::empty());
        match spec_component_entry(l[0], ps) {
            Some(e) => {
                assert(spec_cookbook(l.take(1), ps) =~= Seq::<CookbookEntryView>::empty().push(e));
            },
            None => {
                assert(spec_cookbook(l.take(1), ps) =~= Seq::<CookbookEntryView>::empty());
            },
        }
    } else {
        lemma_cookbook_push(l.drop_first(), ps, i - 1);
        assert(l.take(i + 1).drop_first() =~= l.drop_first().take(i));
        assert(l.take(i).drop_first() =~= l.drop_first().take(i - 1));
        assert(l.drop_first()[i - 1] == l[i]);
        assert(l.take(i + 1)[0] == l[0]);
        assert(l.take(i)[0] == l[0]);
        match spec_component_entry(l[i], ps) {
            Some(e) => {
                assert(spec_cookbook(l.take(i + 1), ps) =~= spec_cookbook(l.take(i), ps).push(e));
            },
            None => {
                assert(spec_cookbook(l.take(i + 1), ps) =~= spec_cookbook(l.take(i), ps));
            },
        }
    }
}

proof fn lemma_recipe_instructions_push(
    files: Seq<RecipeFileView>,
    preset: Option<UpdateComponentView>,
    j: int,
)
    requires
        0 <= j < files.len(),
    ensures
        spec_recipe_instructions(files.take(j + 1), preset) == spec_recipe_instructions(
            files.take(j),
            preset,
        ) + (match files[j].instructions {
            Some(is) => is.map_values(|iv: InstructionView|
                spec_enrich_instruction(iv, files[j].path, preset)),
            None => Seq::<InstructionView>::empty(),
        }),
    decreases j,
{
    if j == 0 {
        assert(files.take(1) =~= seq![files[0]]);
        assert(files.take(1)[0] == files[0]);
        assert(files.take(1).drop_first() =~= Seq::<RecipeFileView>::empty());
        assert(files.take(0) =~= Seq::<RecipeFileView>::empty());
        assert(spec_recipe_instructions(Seq::<RecipeFileView>::empty(), preset) =~= Seq::<
            InstructionView,
        >::empty());
        match files[0].instructions {
            Some(is) => {
                assert(spec_recipe_instructions(files.take(1), preset) =~= Seq::<
                    InstructionView,
                >::empty() + is.map_values(|iv: InstructionView|
                    spec_enrich_instruction(iv, files[0].path, preset)));
            },
            None => {
                assert(spec_recipe_instructions(files.take(1), preset) =~= Seq::<
                    InstructionView,
                >::empty());
            },
        }
    } else {
        lemma_recipe_instructions_push(files.drop_first(), preset, j - 1);
        assert(files.take(j + 1).drop_first() =~= files.drop_first().take(j));
        assert(files.take(j).drop_first() =~= files.drop_first().take(j - 1));
        assert(files.drop_first()[j - 1] == files[j]);
        assert(files.take(j + 1)[0] == files[0]);
        assert(files.take(j)[0] == files[0]);
        match files[j].instructions {
            Some(is) => {
                assert(spec_recipe_instructions(files.take(j + 1), preset)
                    =~= spec_recipe_instructions(files.take(j), preset) + is.map_values(
                    |iv: InstructionView| spec_enrich_instruction(iv, files[j].path, preset),
                ));
            },
            None => {
                assert(spec_recipe_instructions(files.take(j + 1), preset)
                    =~= spec_recipe_instructions(files.take(j), preset) + Seq::<
                    InstructionView,
                >::empty());
            },
        }
    }
}

proof fn lemma_any_restart_push(s: Seq<InstructionView>, x: InstructionView)
    ensures
        spec_any_restart(s.push(x)) == (spec_any_restart(s) || x.restart),
{
    let s2 = s.push(x);
    if spec_any_restart(s) {
        let i = choose|i: int| 0 <= i < s.len() && s[i].restart;
        assert(s2[i] == s[i]);
        assert(spec_any_restart(s2));
    }
    if x.restart {
        assert(s2[s.len() as int] == x);
        assert(spec_any_restart(s2));
    }
    if spec_any_restart(s2) && !x.restart {
        let i = choose|i: int| 0 <= i < s2.len() && s2[i].restart;
        if i < s.len() {
            assert(s[i] == s2[i]);
            assert(spec_any_restart(s));
        } else {
            assert(s2[i] == x);
        }
    }
}

proof fn lemma_last_version_push(s: Seq<InstructionView>, x: InstructionView)
    ensures
        spec_last_version(s.push(x)) == (match x.version {
            Some(v) => Some(v),
            None => spec_last_version(s),
        }),
{
    let s2 = s.push(x);
    assert(s2.last() == x);
    assert(s2.drop_last() =~= s);
}

fn clone_opt_string(o: &Option<String>) -> (r: Option<String>)
    ensures
        view_opt(r) == view_opt(*o),
{
    match o {
        Some(s) => Some(s.clone()),
        None => None,
    }
}

/// Builds the cookbook form of one instruction: the update directory set,
/// and missing `copy` permissions taken from the component's configuration.
fn enrich_instruction(instr: &Instruction, dir: &str, preset: &UpdateComponent) -> (r: Instruction)
    ensures
        r@ == spec_enrich_instruction(instr@, dir@, Some(preset@)),
{
    let step = match &instr.step {
        InstructionStep::Copy {
            file_path,
            destination,
            permission_user,
            permission_group,
            file_permissions,
        } => InstructionStep::Copy {
            file_path: file_path.clone(),
            destination: destination.clone(),
            permission_user: match permission_user {
                Some(u) => Some(u.clone()),
                None => Some(preset.permission_user.clone()),
            },
            permission_group: match permission_group {
                Some(g) => Some(g.clone()),
                None => Some(preset.permission_group.clone()),
            },
            file_permissions: match file_permissions {
                Some(p) => Some(p.clone()),
                None => Some(preset.file_permissions.clone()),
            },
        },
        InstructionStep::CopyDir { folder_path, destination } => InstructionStep::CopyDir {
            folder_path: folder_path.clone(),
            destination: destination.clone(),
        },
        InstructionStep::RunCommand { command } => InstructionStep::RunCommand {
            command: command.clone(),
        },
        InstructionStep::RunScript { file_path } => InstructionStep::RunScript {
            file_path: file_path.clone(),
        },
        InstructionStep::Unknown { kind } => InstructionStep::Unknown { kind: kind.clone() },
    };
    let r = Instruction {
        step,
        restart: instr.restart,
        version: clone_opt_string(&instr.version),
        absolute_update_path: dir.to_owned(),
    };
    proof {
        assert(r@ =~= spec_enrich_instruction(instr@, dir@, Some(preset@)));
    }
    r
}

/// Position of the first configured component with the given name.
fn find_preset(presets: &Vec<UpdateComponent>, name: &str) -> (k: usize)
    requires
        spec_has_component(presets@.map_values(|c: UpdateComponent| c@), name@),
    ensures
        k < presets@.len(),
        k == spec_first_component_index(presets@.map_values(|c: UpdateComponent| c@), name@),
{
    let ghost ps = presets@.map_values(|c: UpdateComponent| c@);
    let needle = name.to_owned();
    let n = presets.len();
    let mut i: usize = 0;
    while i < n
        invariant
            i <= n,
            n == presets@.len(),
            ps == presets@.map_values(|c: UpdateComponent| c@),
            needle@ == name@,
            forall|j: int| 0 <= j < i ==> ps[j].name != name@,
        decreases n - i,
    {
        if presets[i].name == needle {
            proof {
                crate::settings::lemma_first_component_index(ps, name@);
                assert(ps[i as int] == presets@[i as int]@);
                assert(spec_first_component_index(ps, name@) == i);
            }
            return i;
        }
        i = i + 1;
    }
    proof {
        crate::settings::lemma_first_component_index(ps, name@);
        assert(!spec_has_component(ps, name@));
    }
    vstd::pervasive::unreached()
}

/// Builds the cookbook: for every component, flattens the instructions of
/// its readable recipes in order (enriched with their update directory and
/// the component's permission defaults), takes the last version named
/// anywhere as the final version, and joins the restart requests.
/// Components in whose recipes no version was found are skipped.
pub fn get_recipes(
    update_paths: Vec<ComponentRecipes>,
    permission_presets: &Vec<UpdateComponent>,
) -> (r: Vec<CookbookEntry>)
    requires
        forall|i: int|
            0 <= i < update_paths@.len() ==> spec_has_component(
                permission_presets@.map_values(|c: UpdateComponent| c@),
                #[trigger] update_paths@[i]@.component,
            ),
    ensures
        r@.map_values(|e: CookbookEntry| e@) == spec_cookbook(
            update_paths@.map_values(|c: ComponentRecipes| c@),
            permission_presets@.map_values(|c: UpdateComponent| c@),
        ),
{
    let ghost l = update_paths@.map_values(|c: ComponentRecipes| c@);
    let ghost ps = permission_presets@.map_values(|c: UpdateComponent| c@);
    let mut out: Vec<CookbookEntry> = Vec::new();
    let n = update_paths.len();
    let mut i: usize = 0;
    proof {
        assert(spec_cookbook(l.take(0), ps) =~= Seq::<CookbookEntryView>::empty());
        assert(out@.map_values(|e: CookbookEntry| e@) =~= Seq::<CookbookEntryView>::empty());
    }
    while i < n
        invariant
            i <= n,
            n == update_paths@.len(),
            l == update_paths@.map_values(|c: ComponentRecipes| c@),
            ps == permission_presets@.map_values(|c: UpdateComponent| c@),
            forall|a: int|
                0 <= a < update_paths@.len() ==> spec_has_component(
                    ps,
                    #[trigger] update_paths@[a]@.component,
                ),
            out@.map_values(|e: CookbookEntry| e@) == spec_cookbook(l.take(i as int), ps),
        decreases n - i,
    {
        proof {
            assert(l[i as int] == update_paths@[i as int]@);
        }
        let ghost cv = l[i as int];
        let preset_idx = find_preset(permission_presets, update_paths[i].component.as_str());
        let ghost presetv = ps[preset_idx as int];
        proof {
            assert(presetv == permission_presets@[preset_idx as int]@);
            assert(spec_preset_for(ps, cv.component) == Some(presetv));
        }
        let mut instrs: Vec<Instruction> = Vec::new();
        let mut restart_comp = false;
        let mut final_version: Option<String> = None;
        let m = update_paths[i].recipes.len();
        let mut j: usize = 0;
        proof {
            assert(spec_recipe_instructions(cv.recipes.take(0), Some(presetv)) =~= Seq::<
                InstructionView,
            >::empty());
            assert(instrs@.map_values(|x: Instruction| x@) =~= Seq::<InstructionView>::empty());
        }
        while j < m
            invariant
                j <= m,
                i < n,
                n == update_paths@.len(),
                m == update_paths@[i as int].recipes@.len(),
                l == update_paths@.map_values(|c: ComponentRecipes| c@),
                ps == permission_presets@.map_values(|c: UpdateComponent| c@),
                cv == update_paths@[i as int]@,
                preset_idx < permission_presets@.len(),
                presetv == permission_presets@[preset_idx as int]@,
                instrs@.map_values(|x: Instruction| x@) == spec_recipe_instructions(
                    cv.recipes.take(j as int),
                    Some(presetv),
                ),
                restart_comp == spec_any_restart(
                    instrs@.map_values(|x: Instruction| x@),
                ),
                view_opt(final_version) == spec_last_version(
                    instrs@.map_values(|x: Instruction| x@),
                ),
            decreases m - j,
        {
            proof {
                assert(cv.recipes[j as int] == update_paths@[i as int].recipes@[j as int]@);
            }
            let ghost file_v = cv.recipes[j as int];
            let ghost before = instrs@.map_values(|x: Instruction| x@);
            match &update_paths[i].recipes[j].instructions {
                Some(list) => {
                    let ghost list_v = file_v.instructions->0;
                    let path = update_paths[i].recipes[j].path.clone();
                    let q = list.len();
                    let mut k: usize = 0;
                    proof {
                        assert(list_v =~= list@.map_values(|x: Instruction| x@));
                        assert(list_v.take(0).map_values(
                            |iv: InstructionView|
                                spec_enrich_instruction(iv, file_v.path, Some(presetv)),
                        ) =~= Seq::<InstructionView>::empty());
                        assert(instrs@.map_values(|x: Instruction| x@) =~= before + list_v.take(
                            0,
                        ).map_values(
                            |iv: InstructionView|
                                spec_enrich_instruction(iv, file_v.path, Some(presetv)),
                        ));
                    }
                    while k < q
                        invariant
                            k <= q,
                            i < n,
                            j < m,
                            n == update_paths@.len(),
                            m == update_paths@[i as int].recipes@.len(),
                            l == update_paths@.map_values(|c: ComponentRecipes| c@),
                            ps == permission_presets@.map_values(|c: UpdateComponent| c@),
                            cv == update_paths@[i as int]@,
                            file_v == cv.recipes[j as int],
                            preset_idx < permission_presets@.len(),
                            presetv == permission_presets@[preset_idx as int]@,
                            update_paths@[i as int].recipes@[j as int].instructions matches Some(
                                lst,
                            ) && q == lst@.len() && list_v == lst@.map_values(
                                |x: Instruction| x@,
                            ),
                            file_v.instructions == Some(list_v),
                            path@ == file_v.path,
                            instrs@.map_values(|x: Instruction| x@) == before + list_v.take(
                                k as int,
                            ).map_values(
                                |iv: InstructionView|
                                    spec_enrich_instruction(iv, file_v.path, Some(presetv)),
                            ),
                            restart_comp == spec_any_restart(
                                instrs@.map_values(|x: Instruction| x@),
                            ),
                            view_opt(final_version) == spec_last_version(
                                instrs@.map_values(|x: Instruction| x@),
                            ),
                        decreases q - k,
                    {
                        let one = match &update_paths[i].recipes[j].instructions {
                            Some(lst) => enrich_instruction(
                                &lst[k],
                                path.as_str(),
                                &permission_presets[preset_idx],
                            ),
                            None => vstd::pervasive::unreached(),
                        };
                        let ghost cur = instrs@.map_values(|x: Instruction| x@);
                        proof {
                            assert(list_v[k as int] == update_paths@[i as int].recipes@[j as int]
                                .instructions->0@[k as int]@);
                            lemma_any_restart_push(cur, one@);
                            lemma_last_version_push(cur, one@);
                        }
                        if one.restart {
                            restart_comp = true;
                        }
                        match &one.version {
                            Some(v) => {
                                final_version = Some(v.clone());
                            },
                            None => {},
                        }
                        instrs.push(one);
                        proof {
                            assert(instrs@.map_values(|x: Instruction| x@) =~= cur.push(
                                spec_enrich_instruction(
                                    list_v[k as int],
                                    file_v.path,
                                    Some(presetv),
                                ),
                            ));
                            assert(list_v.take(k + 1).map_values(
                                |iv: InstructionView|
                                    spec_enrich_instruction(iv, file_v.path, Some(presetv)),
                            ) =~= list_v.take(k as int).map_values(
                                |iv: InstructionView|
                                    spec_enrich_instruction(iv, file_v.path, Some(presetv)),
                            ).push(
                                spec_enrich_instruction(
                                    list_v[k as int],
                                    file_v.path,
                                    Some(presetv),
                                ),
                            ));
                            assert(instrs@.map_values(|x: Instruction| x@) =~= before
                                + list_v.take(k + 1).map_values(
                                |iv: InstructionView|
                                    spec_enrich_instruction(iv, file_v.path, Some(presetv)),
                            ));
                        }
                        k = k + 1;
                    }
                    proof {
                        lemma_recipe_instructions_push(cv.recipes, Some(presetv), j as int);
                        assert(list_v.take(q as int) =~= list_v);
                        assert(instrs@.map_values(|x: Instruction| x@)
                            =~= spec_recipe_instructions(
                            cv.recipes.take(j + 1),
                            Some(presetv),
                        ));
                    }
                },
                None => {
                    proof {
                        lemma_recipe_instructions_push(cv.recipes, Some(presetv), j as int);
                        assert(instrs@.map_values(|x: Instruction| x@) =~= before + Seq::<
                            InstructionView,
                        >::empty());
                        assert(instrs@.map_values(|x: Instruction| x@)
                            =~= spec_recipe_instructions(
                            cv.recipes.take(j + 1),
                            Some(presetv),
                        ));
                    }
                },
            }
            j = j + 1;
        }
        proof {
            assert(cv.recipes.take(m as int) =~= cv.recipes);
            lemma_cookbook_push(l, ps, i as int);
        }
        match final_version {
            Some(v) => {
                let entry = CookbookEntry {
                    component: update_paths[i].component.clone(),
                    restart_command: permission_presets[preset_idx].restart_command.clone(),
                    restart: restart_comp,
                    final_version: v,
                    updates: instrs,
                };
                let ghost out_before = out@.map_values(|e: CookbookEntry| e@);
                out.push(entry);
                proof {
                    assert(entry@ =~= spec_component_entry(cv, ps)->0);
                    assert(out@.map_values(|e: CookbookEntry| e@) =~= out_before.push(
                        spec_component_entry(cv, ps)->0,
                    ));
                }
            },
            None => {
                proof {
                    assert(spec_component_entry(cv, ps) is None);
                }
            },
        }
        i = i + 1;
    }
    proof {
        assert(l.take(n as int) =~= l);
    }
    out
}

/// The extracted update directories of one component.
pub struct ComponentPaths {
    pub component: String,
    pub paths: Vec<String>,
}

#[verifier::ext_equal]
pub struct ComponentPathsView {
    pub component: Seq<char>,
    pub paths: Seq<Seq<char>>,
}

impl View for ComponentPaths {
    type V = ComponentPathsView;

    open spec fn view(&self) -> ComponentPathsView {
        ComponentPathsView {
            component: self.component@,
            paths: self.paths@.map_values(|p: String| p@),
        }
    }
}

/// The entries that concern the agent itself.
pub open spec fn spec_agent_part(l: Seq<ComponentPathsView>) -> Seq<ComponentPathsView>
    decreases l.len(),
{
    if l.len() == 0 {
        Seq::empty()
    } else if l[0].component == spec_app_name() {
        seq![l[0]] + spec_agent_part(l.drop_first())
    } else {
        spec_agent_part(l.drop_first())
    }
}

/// The entries of every other component, order kept: exactly what the
/// leftover manifest records before a self-upgrade.
pub open spec fn spec_other_part(l: Seq<ComponentPathsView>) -> Seq<ComponentPathsView>
    decreases l.len(),
{
    if l.len() == 0 {
        Seq::empty()
    } else if l[0].component == spec_app_name() {
        spec_other_part(l.drop_first())
    } else {
        seq![l[0]] + spec_other_part(l.drop_first())
    }
}

proof fn lemma_split_push(l: Seq<ComponentPathsView>, i: int)
    requires
        0 <= i < l.len(),
    ensures
        l[i].component == spec_app_name() ==> spec_agent_part(l.take(i + 1)) == spec_agent_part(
            l.take(i),
        ).push(l[i]) && spec_other_part(l.take(i + 1)) == spec_other_part(l.take(i)),
        l[i].component != spec_app_name() ==> spec_other_part(l.take(i + 1)) == spec_other_part(
            l.take(i),
        ).push(l[i]) && spec_agent_part(l.take(i + 1)) == spec_agent_part(l.take(i)),
    decreases i,
{
    if i == 0 {
        assert(l.take(1) =~= seq![l[0]]);
        assert(l.take(1)[0] == l[0]);
        assert(l.take(1).drop_first() =~= Seq::<ComponentPathsView>::empty());
        assert(l.take(0) =~= Seq::<ComponentPathsView>::empty());
        assert(spec_agent_part(Seq::<ComponentPathsView>::empty()) =~= Seq::<
            ComponentPathsView,
        >::empty());
        assert(spec_other_part(Seq::<ComponentPathsView>::empty()) =~= Seq::<
            ComponentPathsView,
        >::empty());
        if l[0].component == spec_app_name() {
            assert(spec_agent_part(l.take(1)) =~= Seq::<ComponentPathsView>::empty().push(l[0]));
        } else {
            assert(spec_other_part(l.take(1)) =~= Seq::<ComponentPathsView>::empty().push(l[0]));
        }
    } else {
        lemma_split_push(l.drop_first(), i - 1);
        assert(l.take(i + 1).drop_first() =~= l.drop_first().take(i));
        assert(l.take(i).drop_first() =~= l.drop_first().take(i - 1));
        assert(l.drop_first()[i - 1] == l[i]);
        assert(l.take(i + 1)[0] == l[0]);
        assert(l.take(i)[0] == l[0]);
        if l[i].component == spec_app_name() {
            assert(spec_agent_part(l.take(i + 1)) =~= spec_agent_part(l.take(i)).push(l[i]));
            assert(spec_other_part(l.take(i + 1)) =~= spec_other_part(l.take(i)));
        } else {
            assert(spec_other_part(l.take(i + 1)) =~= spec_other_part(l.take(i)).push(l[i]));
            assert(spec_agent_part(l.take(i + 1)) =~= spec_agent_part(l.take(i)));
        }
    }
}

/// Splits the unpacked updates before installing: the agent's own entries
/// are installed now, every other component's entries are set aside as the
/// leftover set, each side keeping its order.
pub fn split_self_upgrade(list: Vec<ComponentPaths>) -> (r: (
    Vec<ComponentPaths>,
    Vec<ComponentPaths>,
))
    ensures
        r.0@.map_values(|c: ComponentPaths| c@) == spec_agent_part(
            list@.map_values(|c: ComponentPaths| c@),
        ),
        r.1@.map_values(|c: ComponentPaths| c@) == spec_other_part(
            list@.map_values(|c: ComponentPaths| c@),
        ),
{
    let ghost l = list@.map_values(|c: ComponentPaths| c@);
    let app = app_name().to_owned();
    let mut neco: Vec<ComponentPaths> = Vec::new();
    let mut others: Vec<ComponentPaths> = Vec::new();
    let n = list.len();
    let mut i: usize = 0;
    proof {
        assert(spec_agent_part(l.take(0)) =~= Seq::<ComponentPathsView>::empty());
        assert(spec_other_part(l.take(0)) =~= Seq::<ComponentPathsView>::empty());
        assert(neco@.map_values(|c: ComponentPaths| c@) =~= Seq::<ComponentPathsView>::empty());
        assert(others@.map_values(|c: ComponentPaths| c@) =~= Seq::<ComponentPathsView>::empty());
    }
    let mut list = list;
    while i < n
        invariant
            i <= n,
            n == l.len(),
            list@.len() == n - i,
            list@.map_values(|c: ComponentPaths| c@) == l.skip(i as int),
            app@ == spec_app_name(),
            neco@.map_values(|c: ComponentPaths| c@) == spec_agent_part(l.take(i as int)),
            others@.map_values(|c: ComponentPaths| c@) == spec_other_part(l.take(i as int)),
        decreases n - i,
    {
        let ghost pre = list@;
        let entry = list.remove(0);
        proof {
            assert(entry@ == pre.map_values(|c: ComponentPaths| c@)[0]);
            assert(l.skip(i as int)[0] == l[i as int]);
            assert(entry@ == l[i as int]);
            assert forall|t: int| 0 <= t < list@.len() implies #[trigger] list@[t]@ == l.skip(
                i + 1,
            )[t] by {
                assert(list@[t] == pre[t + 1]);
                assert(pre.map_values(|c: ComponentPaths| c@)[t + 1] == pre[t + 1]@);
                assert(l.skip(i as int)[t + 1] == l[i + 1 + t]);
            }
            assert(list@.map_values(|c: ComponentPaths| c@) =~= l.skip(i + 1));
            lemma_split_push(l, i as int);
        }
        if entry.component == app {
            let ghost before = neco@.map_values(|c: ComponentPaths| c@);
            neco.push(entry);
            proof {
                assert(neco@.map_values(|c: ComponentPaths| c@) =~= before.push(l[i as int]));
            }
        } else {
            let ghost before = others@.map_values(|c: ComponentPaths| c@);
            others.push(entry);
            proof {
                assert(others@.map_values(|c: ComponentPaths| c@) =~= before.push(l[i as int]));
            }
        }
        i = i + 1;
    }
    proof {
        assert(l.take(n as int) =~= l);
    }
    (neco, others)
}

/// Whether some entry belongs to the agent itself.
pub fn contains_agent(list: &Vec<ComponentPaths>) -> (r: bool)
    ensures
        r == exists|i: int|
            0 <= i < list@.len() && #[trigger] list@[i]@.component == spec_app_name(),
{
    let app = app_name().to_owned();
    let n = list.len();
    let mut i: usize = 0;
    while i < n
        invariant
            i <= n,
            n == list@.len(),
            app@ == spec_app_name(),
            forall|j: int| 0 <= j < i ==> #[trigger] list@[j]@.component != spec_app_name(),
        decreases n - i,
    {
        if list[i].component == app {
            proof {
                assert(list@[i as int]@.component == spec_app_name());
            }
            return true;
        }
        i = i + 1;
    }
    false
}

/// The planning inputs of every component but the agent.
pub open spec fn spec_other_recipes(l: Seq<ComponentRecipesView>) -> Seq<ComponentRecipesView>
    decreases l.len(),
{
    if l.len() == 0 {
        Seq::empty()
    } else if l[0].component == spec_app_name() {
        spec_other_recipes(l.drop_first())
    } else {
        seq![l[0]] + spec_other_recipes(l.drop_first())
    }
}

/// The cookbook entries of every component but the agent.
pub open spec fn spec_other_entries(cb: Seq<CookbookEntryView>) -> Seq<CookbookEntryView>
    decreases cb.len(),
{
    if cb.len() == 0 {
        Seq::empty()
    } else if cb[0].component == spec_app_name() {
        spec_other_entries(cb.drop_first())
    } else {
        seq![cb[0]] + spec_other_entries(cb.drop_first())
    }
}

/// Split-and-resume: planning only the set-aside components — the leftover
/// set a self-upgrade leaves behind — yields exactly the cookbook of the
/// full plan with the agent's entries removed.  Resuming from the leftover
/// manifest therefore has the same effect as if the agent had not been in
/// the original plan.
pub proof fn lemma_split_and_resume(l: Seq<ComponentRecipesView>, ps: Seq<UpdateComponentView>)
    ensures
        spec_cookbook(spec_other_recipes(l), ps) == spec_other_entries(spec_cookbook(l, ps)),
    decreases l.len(),
{
    if l.len() == 0 {
        assert(spec_other_recipes(l) =~= Seq::<ComponentRecipesView>::empty());
        assert(spec_cookbook(l, ps) =~= Seq::<CookbookEntryView>::empty());
        assert(spec_cookbook(spec_other_recipes(l), ps) =~= Seq::<CookbookEntryView>::empty());
        assert(spec_other_entries(spec_cookbook(l, ps)) =~= Seq::<CookbookEntryView>::empty());
    } else {
        lemma_split_and_resume(l.drop_first(), ps);
        let rest_cb = spec_cookbook(l.drop_first(), ps);
        match spec_component_entry(l[0], ps) {
            Some(e) => {
                assert(e.component == l[0].component);
                assert(spec_cookbook(l, ps) == seq![e] + rest_cb);
                assert((seq![e] + rest_cb).drop_first() =~= rest_cb);
                if l[0].component == spec_app_name() {
                    assert(spec_other_entries(seq![e] + rest_cb) == spec_other_entries(rest_cb));
                    assert(spec_cookbook(spec_other_recipes(l), ps) == spec_cookbook(
                        spec_other_recipes(l.drop_first()),
                        ps,
                    ));
                } else {
                    assert(spec_other_entries(seq![e] + rest_cb) == seq![e] + spec_other_entries(
                        rest_cb,
                    ));
                    let others = spec_other_recipes(l);
                    assert(others == seq![l[0]] + spec_other_recipes(l.drop_first()));
                    assert(others[0] == l[0]);
                    assert(others.drop_first() =~= spec_other_recipes(l.drop_first()));
                    assert(spec_cookbook(others, ps) == seq![e] + spec_cookbook(
                        spec_other_recipes(l.drop_first()),
                        ps,
                    ));
                }
            },
            None => {
                assert(spec_cookbook(l, ps) == Seq::<CookbookEntryView>::empty() + rest_cb);
                assert(Seq::<CookbookEntryView>::empty() + rest_cb =~= rest_cb);
                if l[0].component == spec_app_name() {
                    assert(spec_cookbook(spec_other_recipes(l), ps) == spec_cookbook(
                        spec_other_recipes(l.drop_first()),
                        ps,
                    ));
                } else {
                    let others = spec_other_recipes(l);
                    assert(others == seq![l[0]] + spec_other_recipes(l.drop_first()));
                    assert(others[0] == l[0]);
                    assert(others.drop_first() =~= spec_other_recipes(l.drop_first()));
                    assert(spec_cookbook(others, ps) == Seq::<CookbookEntryView>::empty()
                        + spec_cookbook(spec_other_recipes(l.drop_first()), ps));
                    assert(Seq::<CookbookEntryView>::empty() + spec_cookbook(
                        spec_other_recipes(l.drop_first()),
                        ps,
                    ) =~= spec_cookbook(spec_other_recipes(l.drop_first()), ps));
                }
            },
        }
    }
}

/// Every update in the manifest, in manifest order, oldest first within a
/// component.
pub open spec fn spec_flat_updates(m: Seq<ManifestEntryView>) -> Seq<UpdateView>
    decreases m.len(),
{
    if m.len() == 0 {
        Seq::empty()
    } else {
        m[0].updates + spec_flat_updates(m.drop_first())
    }
}

/// The changelog digest sent after a manifest arrives: every update's
/// changelog followed by a blank line, newest update first.
pub open spec fn spec_changelog_cat(cs: Seq<Seq<char>>) -> Seq<char>
    decreases cs.len(),
{
    if cs.len() == 0 {
        Seq::empty()
    } else {
        cs.last() + "\r\n\r\n"@ + spec_changelog_cat(cs.drop_last())
    }
}

proof fn lemma_changelog_cat_front(cs: Seq<Seq<char>>, x: Seq<char>)
    ensures
        spec_changelog_cat(seq![x] + cs) == spec_changelog_cat(cs) + x + "\r\n\r\n"@,
    decreases cs.len(),
{
    let whole = seq![x] + cs;
    if cs.len() == 0 {
        assert(whole =~= seq![x]);
        assert(whole.drop_last() =~= Seq::<Seq<char>>::empty());
        assert(spec_changelog_cat(Seq::<Seq<char>>::empty()) == Seq::<char>::empty());
        assert(spec_changelog_cat(whole) =~= x + "\r\n\r\n"@);
        assert(spec_changelog_cat(cs) + x + "\r\n\r\n"@ =~= x + "\r\n\r\n"@);
    } else {
        lemma_changelog_cat_front(cs.drop_last(), x);
        assert(whole.last() == cs.last());
        assert(whole.drop_last() =~= seq![x] + cs.drop_last());
        assert(spec_changelog_cat(whole) == cs.last() + "\r\n\r\n"@ + spec_changelog_cat(
            seq![x] + cs.drop_last(),
        ));
        assert(spec_changelog_cat(whole) =~= spec_changelog_cat(cs) + x + "\r\n\r\n"@);
    }
}

proof fn lemma_flat_updates_push(m: Seq<ManifestEntryView>, i: int)
    requires
        0 <= i < m.len(),
    ensures
        spec_flat_updates(m.take(i + 1)) == spec_flat_updates(m.take(i)) + m[i].updates,
    decreases i,
{
    if i == 0 {
        assert(m.take(1) =~= seq![m[0]]);
        assert(m.take(1)[0] == m[0]);
        assert(m.take(1).drop_first() =~= Seq::<ManifestEntryView>::empty());
        assert(m.take(0) =~= Seq::<ManifestEntryView>::empty());
        assert(spec_flat_updates(Seq::<ManifestEntryView>::empty()) =~= Seq::<UpdateView>::empty());
        assert(spec_flat_updates(m.take(1)) =~= Seq::<UpdateView>::empty() + m[0].updates);
    } else {
        lemma_flat_updates_push(m.drop_first(), i - 1);
        assert(m.take(i + 1).drop_first() =~= m.drop_first().take(i));
        assert(m.take(i).drop_first() =~= m.drop_first().take(i - 1));
        assert(m.drop_first()[i - 1] == m[i]);
        assert(m.take(i + 1)[0] == m[0]);
        assert(m.take(i)[0] == m[0]);
        assert(spec_flat_updates(m.take(i + 1)) =~= spec_flat_updates(m.take(i)) + m[i].updates);
    }
}

/// Concatenates the changelogs of every update in the manifest, each ended
/// by a blank line, newest first.
pub fn collect_changelogs(manifest: &UpdateManifest) -> (r: String)
    ensures
        r@ == spec_changelog_cat(
            spec_flat_updates(manifest@).map_values(|u: UpdateView| u.changelog),
        ),
{
    let mut logs: Vec<String> = Vec::new();
    let n = manifest.list.len();
    let mut i: usize = 0;
    proof {
        assert(spec_flat_updates(manifest@.take(0)) =~= Seq::<UpdateView>::empty());
        assert(logs@.map_values(|s: String| s@) =~= Seq::<UpdateView>::empty().map_values(
            |u: UpdateView| u.changelog,
        ));
    }
    while i < n
        invariant
            i <= n,
            n == manifest.list@.len(),
            logs@.map_values(|s: String| s@) == spec_flat_updates(manifest@.take(i as int)).map_values(
                |u: UpdateView| u.changelog,
            ),
        decreases n - i,
    {
        let m = manifest.list[i].updates.len();
        let mut j: usize = 0;
        proof {
            assert(manifest@[i as int] == manifest.list@[i as int]@);
            assert(manifest@[i as int].updates.take(0) =~= Seq::<UpdateView>::empty());
        }
        while j < m
            invariant
                j <= m,
                i < n,
                n == manifest.list@.len(),
                m == manifest.list@[i as int].updates@.len(),
                logs@.map_values(|s: String| s@) == (spec_flat_updates(manifest@.take(i as int))
                    + manifest@[i as int].updates.take(j as int)).map_values(
                    |u: UpdateView| u.changelog,
                ),
            decreases m - j,
        {
            let ghost before = logs@.map_values(|s: String| s@);
            logs.push(manifest.list[i].updates[j].changelog.clone());
            proof {
                assert(manifest@[i as int].updates[j as int] == manifest.list@[i as int].updates@[
                    j as int
                ]@);
                assert(manifest@[i as int].updates.take(j + 1) =~= manifest@[
                    i as int
                ].updates.take(j as int).push(manifest@[i as int].updates[j as int]));
                assert(logs@.map_values(|s: String| s@) =~= before.push(
                    manifest@[i as int].updates[j as int].changelog,
                ));
                assert(logs@.map_values(|s: String| s@) =~= (spec_flat_updates(
                    manifest@.take(i as int),
                ) + manifest@[i as int].updates.take(j + 1)).map_values(
                    |u: UpdateView| u.changelog,
                ));
            }
            j = j + 1;
        }
        proof {
            lemma_flat_updates_push(manifest@, i as int);
            assert(manifest@[i as int].updates.take(m as int) =~= manifest@[i as int].updates);
        }
        i = i + 1;
    }
    proof {
        assert(manifest@.take(n as int) =~= manifest@);
    }
    let ghost cs = spec_flat_updates(manifest@).map_values(|u: UpdateView| u.changelog);
    let mut acc = String::new();
    let total = logs.len();
    let mut t: usize = total;
    proof {
        assert(cs.skip(total as int) =~= Seq::<Seq<char>>::empty());
        assert(spec_changelog_cat(cs.skip(total as int)) == Seq::<char>::empty());
    }
    while t > 0
        invariant
            t <= total,
            total == logs@.len(),
            cs == logs@.map_values(|s: String| s@),
            acc@ == spec_changelog_cat(cs.skip(t as int)),
        decreases t,
    {
        t = t - 1;
        acc = acc.concat(logs[t].as_str()).concat("\r\n\r\n");
        proof {
            assert(cs[t as int] == logs@[t as int]@);
            assert(cs.skip(t as int) =~= seq![cs[t as int]] + cs.skip(t + 1));
            lemma_changelog_cat_front(cs.skip(t + 1), cs[t as int]);
        }
    }
    proof {
        assert(cs.skip(0) =~= cs);
    }
    acc
}

/// What the manifest-request path does with the server's parsed answer.
pub enum ManifestDecision {
    /// Store the manifest and announce the changelogs.
    Found { manifest: UpdateManifest, changelogs: String },
    /// Announce that no updates were found; clear the manifest slot.
    NoUpdates,
    /// The response carried no message at all; announce that and clear.
    EmptyResponse,
    /// The server answered with an error message; log it and clear.
    ServerError(String),
}

/// Interprets the parsed manifest response: `result_true` is the response's
/// result field, `msg_is_null` whether its message was missing, and
/// `manifest` the parsed manifest when one was present and non-empty.
pub fn interpret_manifest_response(
    result_true: bool,
    msg_is_null: bool,
    manifest: Option<UpdateManifest>,
    server_msg: String,
) -> (r: ManifestDecision)
    ensures
        match r {
            ManifestDecision::Found { manifest: m, changelogs } => {
                &&& result_true
                &&& manifest matches Some(given) && m == given
                &&& m@.len() > 0
                &&& changelogs@ == spec_changelog_cat(
                    spec_flat_updates(m@).map_values(|u: UpdateView| u.changelog),
                )
            },
            ManifestDecision::NoUpdates => result_true && (manifest matches Some(m) ==> m@.len()
                == 0),
            ManifestDecision::EmptyResponse => !result_true && msg_is_null,
            ManifestDecision::ServerError(msg) => !result_true && !msg_is_null && msg@
                == server_msg@,
        },
{
    if result_true {
        match manifest {
            Some(m) => {
                if m.list.len() > 0 {
                    let changelogs = collect_changelogs(&m);
                    ManifestDecision::Found { manifest: m, changelogs }
                } else {
                    proof {
                        assert(m@.len() == 0);
                    }
                    ManifestDecision::NoUpdates
                }
            },
            None => ManifestDecision::NoUpdates,
        }
    } else if msg_is_null {
        ManifestDecision::EmptyResponse
    } else {
        ManifestDecision::ServerError(server_msg)
    }
}

/// One downloaded artifact: where it was written, its bytes, and the
/// checksum the manifest states for it.
pub struct DownloadedUpdate {
    pub path: String,
    pub data: Vec<u8>,
    pub checksum: String,
}

#[verifier::ext_equal]
pub struct DownloadedUpdateView {
    pub path: Seq<char>,
    pub data: Seq<u8>,
    pub checksum: Seq<char>,
}

impl View for DownloadedUpdate {
    type V = DownloadedUpdateView;

    open spec fn view(&self) -> DownloadedUpdateView {
        DownloadedUpdateView { path: self.path@, data: self.data@, checksum: self.checksum@ }
    }
}

/// The paths of the downloads whose digest matches their checksum.
pub open spec fn spec_verified_paths(ds: Seq<DownloadedUpdateView>) -> Seq<Seq<char>>
    decreases ds.len(),
{
    if ds.len() == 0 {
        Seq::empty()
    } else if security::spec_checksum_ok(ds[0].data, ds[0].checksum) {
        seq![ds[0].path] + spec_verified_paths(ds.drop_first())
    } else {
        spec_verified_paths(ds.drop_first())
    }
}

/// The paths of the downloads that failed verification.
pub open spec fn spec_dirty_paths(ds: Seq<DownloadedUpdateView>) -> Seq<Seq<char>>
    decreases ds.len(),
{
    if ds.len() == 0 {
        Seq::empty()
    } else if security::spec_checksum_ok(ds[0].data, ds[0].checksum) {
        spec_dirty_paths(ds.drop_first())
    } else {
        seq![ds[0].path] + spec_dirty_paths(ds.drop_first())
    }
}

proof fn lemma_verify_push(ds: Seq<DownloadedUpdateView>, i: int)
    requires
        0 <= i < ds.len(),
    ensures
        security::spec_checksum_ok(ds[i].data, ds[i].checksum) ==> spec_verified_paths(
            ds.take(i + 1),
        ) == spec_verified_paths(ds.take(i)).push(ds[i].path) && spec_dirty_paths(ds.take(i + 1))
            == spec_dirty_paths(ds.take(i)),
        !security::spec_checksum_ok(ds[i].data, ds[i].checksum) ==> spec_dirty_paths(
            ds.take(i + 1),
        ) == spec_dirty_paths(ds.take(i)).push(ds[i].path) && spec_verified_paths(ds.take(i + 1))
            == spec_verified_paths(ds.take(i)),
    decreases i,
{
    if i == 0 {
        assert(ds.take(1) =~= seq![ds[0]]);
        assert(ds.take(1)[0] == ds[0]);
        assert(ds.take(1).drop_first() =~= Seq::<DownloadedUpdateView>::empty());
        assert(ds.take(0) =~= Seq::<DownloadedUpdateView>::empty());
        assert(spec_verified_paths(Seq::<DownloadedUpdateView>::empty()) =~= Seq::<
            Seq<char>,
        >::empty());
        assert(spec_dirty_paths(Seq::<DownloadedUpdateView>::empty()) =~= Seq::<Seq<char>>::empty());
        if security::spec_checksum_ok(ds[0].data, ds[0].checksum) {
            assert(spec_verified_paths(ds.take(1)) =~= Seq::<Seq<char>>::empty().push(ds[0].path));
        } else {
            assert(spec_dirty_paths(ds.take(1)) =~= Seq::<Seq<char>>::empty().push(ds[0].path));
        }
    } else {
        lemma_verify_push(ds.drop_first(), i - 1);
        assert(ds.take(i + 1).drop_first() =~= ds.drop_first().take(i));
        assert(ds.take(i).drop_first() =~= ds.drop_first().take(i - 1));
        assert(ds.drop_first()[i - 1] == ds[i]);
        assert(ds.take(i + 1)[0] == ds[0]);
        assert(ds.take(i)[0] == ds[0]);
        if security::spec_checksum_ok(ds[i].data, ds[i].checksum) {
            assert(spec_verified_paths(ds.take(i + 1)) =~= spec_verified_paths(ds.take(i)).push(
                ds[i].path,
            ));
            assert(spec_dirty_paths(ds.take(i + 1)) =~= spec_dirty_paths(ds.take(i)));
        } else {
            assert(spec_dirty_paths(ds.take(i + 1)) =~= spec_dirty_paths(ds.take(i)).push(
                ds[i].path,
            ));
            assert(spec_verified_paths(ds.take(i + 1)) =~= spec_verified_paths(ds.take(i)));
        }
    }
}

/// Sorts one component's downloads into the verified set and the dirty
/// set: an artifact is admitted exactly when the lowercase hex SHA-256 of
/// its bytes equals the manifest's checksum.  Dirty files are to be deleted
/// before anything else runs.
pub fn verify_downloads(downloads: Vec<DownloadedUpdate>) -> (r: (Vec<String>, Vec<String>))
    ensures
        r.0@.map_values(|s: String| s@) == spec_verified_paths(
            downloads@.map_values(|d: DownloadedUpdate| d@),
        ),
        r.1@.map_values(|s: String| s@) == spec_dirty_paths(
            downloads@.map_values(|d: DownloadedUpdate| d@),
        ),
{
    let ghost ds = downloads@.map_values(|d: DownloadedUpdate| d@);
    let mut kept: Vec<String> = Vec::new();
    let mut dirty: Vec<String> = Vec::new();
    let n = downloads.len();
    let mut i: usize = 0;
    proof {
        assert(ds.take(0) =~= Seq::<DownloadedUpdateView>::empty());
        assert(spec_verified_paths(ds.take(0)) =~= Seq::<Seq<char>>::empty());
        assert(spec_dirty_paths(ds.take(0)) =~= Seq::<Seq<char>>::empty());
        assert(kept@.map_values(|s: String| s@) =~= Seq::<Seq<char>>::empty());
        assert(dirty@.map_values(|s: String| s@) =~= Seq::<Seq<char>>::empty());
    }
    while i < n
        invariant
            i <= n,
            n == downloads@.len(),
            ds == downloads@.map_values(|d: DownloadedUpdate| d@),
            kept@.map_values(|s: String| s@) == spec_verified_paths(ds.take(i as int)),
            dirty@.map_values(|s: String| s@) == spec_dirty_paths(ds.take(i as int)),
        decreases n - i,
    {
        proof {
            assert(ds[i as int] == downloads@[i as int]@);
            lemma_verify_push(ds, i as int);
        }
        let ok = security::compare_hash(&downloads[i].data, downloads[i].checksum.as_str());
        if ok {
            let ghost before = kept@.map_values(|s: String| s@);
            kept.push(downloads[i].path.clone());
            proof {
                assert(kept@.map_values(|s: String| s@) =~= before.push(ds[i as int].path));
            }
        } else {
            let ghost before = dirty@.map_values(|s: String| s@);
            dirty.push(downloads[i].path.clone());
            proof {
                assert(dirty@.map_values(|s: String| s@) =~= before.push(ds[i as int].path));
            }
        }
        i = i + 1;
    }
    proof {
        assert(ds.take(n as int) =~= ds);
    }
    (kept, dirty)
}

/// The shell command that asks whether a systemd service is active.
pub open spec fn spec_service_state_command(name: Seq<char>) -> Seq<char> {
    "systemctl is-active "@ + name
}

/// The shell command that asks whether a systemd service is active.
pub fn service_state_command(name: &str) -> (r: String)
    ensures
        r@ == spec_service_state_command(name@),
{
    String::from_str("systemctl is-active ").concat(name)
}

/// The shell command that looks up a container's identifier; the container
/// is up exactly when the output is non-empty.
pub open spec fn spec_container_state_command(name: Seq<char>) -> Seq<char> {
    "docker ps -qf \"name=^"@ + name + "$\""@
}

/// The shell command that looks up a container's identifier.
pub fn container_state_command(name: &str) -> (r: String)
    ensures
        r@ == spec_container_state_command(name@),
{
    String::from_str("docker ps -qf \"name=^").concat(name).concat("$\"")
}

/// The shell command that reads a service's journal.
pub open spec fn spec_service_log_command(name: Seq<char>) -> Seq<char> {
    "journalctl --no-pager -u "@ + name
}

/// The shell command that reads a service's journal.
pub fn service_log_command(name: &str) -> (r: String)
    ensures
        r@ == spec_service_log_command(name@),
{
    String::from_str("journalctl --no-pager -u ").concat(name)
}

/// The shell command that reads a container's log.
pub open spec fn spec_container_log_command(name: Seq<char>) -> Seq<char> {
    "docker logs -t "@ + name
}

/// The shell command that reads a container's log.
pub fn container_log_command(name: &str) -> (r: String)
    ensures
        r@ == spec_container_log_command(name@),
{
    String::from_str("docker logs -t ").concat(name)
}

/// One state probe: the component under its published label, its recorded
/// version, and the shell command whose outcome gives the state.
pub struct StateQuery {
    pub component: String,
    pub version: String,
    pub command: String,
}

#[verifier::ext_equal]
pub struct StateQueryView {
    pub component: Seq<char>,
    pub version: Seq<char>,
    pub command: Seq<char>,
}

impl View for StateQuery {
    type V = StateQueryView;

    open spec fn view(&self) -> StateQueryView {
        StateQueryView {
            component: self.component@,
            version: self.version@,
            command: self.command@,
        }
    }
}

/// The recorded version of a component, or `Unknown`.
pub open spec fn spec_version_or_unknown(vm: &VersionMap, name: Seq<char>) -> Seq<char> {
    match crate::state::spec_vm_get(vm, name) {
        Some(v) => v,
        None => "Unknown"@,
    }
}

/// The state probes of one component: its container form first, then its
/// service form, each under the label the interface publishes.
pub open spec fn spec_component_queries(c: UpdateComponentView, vm: &VersionMap) -> Seq<
    StateQueryView,
> {
    (match c.container_name {
        Some(n) => seq![
            StateQueryView {
                component: c.name + " - Container"@,
                version: spec_version_or_unknown(vm, c.name),
                command: spec_container_state_command(n),
            },
        ],
        None => Seq::<StateQueryView>::empty(),
    }) + (match c.service_name {
        Some(n) => seq![
            StateQueryView {
                component: c.name + " - Service"@,
                version: spec_version_or_unknown(vm, c.name),
                command: spec_service_state_command(n),
            },
        ],
        None => Seq::<StateQueryView>::empty(),
    })
}

/// The state probes of the whole component list, the agent itself skipped.
pub open spec fn spec_state_queries(cs: Seq<UpdateComponentView>, vm: &VersionMap) -> Seq<
    StateQueryView,
>
    decreases cs.len(),
{
    if cs.len() == 0 {
        Seq::empty()
    } else {
        (if cs[0].name == spec_app_name() {
            Seq::<StateQueryView>::empty()
        } else {
            spec_component_queries(cs[0], vm)
        }) + spec_state_queries(cs.drop_first(), vm)
    }
}

proof fn lemma_state_queries_push(cs: Seq<UpdateComponentView>, vm: &VersionMap, i: int)
    requires
        0 <= i < cs.len(),
    ensures
        spec_state_queries(cs.take(i + 1), vm) == spec_state_queries(cs.take(i), vm) + (if cs[i].name
            == spec_app_name() {
            Seq::<StateQueryView>::empty()
        } else {
            spec_component_queries(cs[i], vm)
        }),
    decreases i,
{
    if i == 0 {
        assert(cs.take(1) =~= seq![cs[0]]);
        assert(cs.take(1)[0] == cs[0]);
        assert(cs.take(1).drop_first() =~= Seq::<UpdateComponentView>::empty());
        assert(cs.take(0) =~= Seq::<UpdateComponentView>::empty());
        assert(spec_state_queries(Seq::<UpdateComponentView>::empty(), vm) =~= Seq::<
            StateQueryView,
        >::empty());
        assert(spec_state_queries(cs.take(1), vm) =~= Seq::<StateQueryView>::empty() + (if cs[0].name
            == spec_app_name() {
            Seq::<StateQueryView>::empty()
        } else {
            spec_component_queries(cs[0], vm)
        }));
    } else {
        lemma_state_queries_push(cs.drop_first(), vm, i - 1);
        assert(cs.take(i + 1).drop_first() =~= cs.drop_first().take(i));
        assert(cs.take(i).drop_first() =~= cs.drop_first().take(i - 1));
        assert(cs.drop_first()[i - 1] == cs[i]);
        assert(cs.take(i + 1)[0] == cs[0]);
        assert(cs.take(i)[0] == cs[0]);
        assert(spec_state_queries(cs.take(i + 1), vm) =~= spec_state_queries(cs.take(i), vm) + (
        if cs[i].name == spec_app_name() {
            Seq::<StateQueryView>::empty()
        } else {
            spec_component_queries(cs[i], vm)
        }));
    }
}

/// Assembles the state probes for the component-states report: for every
/// component but the agent, one probe per configured container and service,
/// with the component's recorded version (or `Unknown`).
pub fn get_component_states(components: &Vec<UpdateComponent>, versions: &VersionMap) -> (r: Vec<
    StateQuery,
>)
    ensures
        r@.map_values(|q: StateQuery| q@) == spec_state_queries(
            components@.map_values(|c: UpdateComponent| c@),
            versions,
        ),
{
    let ghost cs = components@.map_values(|c: UpdateComponent| c@);
    let app = app_name().to_owned();
    let mut out: Vec<StateQuery> = Vec::new();
    let n = components.len();
    let mut i: usize = 0;
    proof {
        assert(cs.take(0) =~= Seq::<UpdateComponentView>::empty());
        assert(spec_state_queries(cs.take(0), versions) =~= Seq::<StateQueryView>::empty());
        assert(out@.map_values(|q: StateQuery| q@) =~= Seq::<StateQueryView>::empty());
    }
    while i < n
        invariant
            i <= n,
            n == components@.len(),
            cs == components@.map_values(|c: UpdateComponent| c@),
            app@ == spec_app_name(),
            out@.map_values(|q: StateQuery| q@) == spec_state_queries(cs.take(i as int), versions),
        decreases n - i,
    {
        proof {
            assert(cs[i as int] == components@[i as int]@);
            lemma_state_queries_push(cs, versions, i as int);
        }
        if !(components[i].name == app) {
            let version = match versions.get(components[i].name.as_str()) {
                Some(v) => v,
                None => String::from_str("Unknown"),
            };
            proof {
                assert(version@ == spec_version_or_unknown(versions, cs[i as int].name));
            }
            match &components[i].container_name {
                Some(cname) => {
                    let ghost before = out@.map_values(|q: StateQuery| q@);
                    let q = StateQuery {
                        component: components[i].name.clone().concat(" - Container"),
                        version: version.clone(),
                        command: container_state_command(cname.as_str()),
                    };
                    out.push(q);
                    proof {
                        assert(out@.map_values(|q2: StateQuery| q2@) =~= before.push(
                            (StateQueryView {
                                component: cs[i as int].name + " - Container"@,
                                version: spec_version_or_unknown(versions, cs[i as int].name),
                                command: spec_container_state_command(
                                    cs[i as int].container_name->0,
                                ),
                            }),
                        ));
                    }
                },
                None => {},
            }
            match &components[i].service_name {
                Some(sname) => {
                    let ghost before = out@.map_values(|q: StateQuery| q@);
                    let q = StateQuery {
                        component: components[i].name.clone().concat(" - Service"),
                        version: version.clone(),
                        command: service_state_command(sname.as_str()),
                    };
                    out.push(q);
                    proof {
                        assert(out@.map_values(|q2: StateQuery| q2@) =~= before.push(
                            (StateQueryView {
                                component: cs[i as int].name + " - Service"@,
                                version: spec_version_or_unknown(versions, cs[i as int].name),
                                command: spec_service_state_command(cs[i as int].service_name->0),
                            }),
                        ));
                    }
                },
                None => {},
            }
            proof {
                assert(out@.map_values(|q: StateQuery| q@) =~= spec_state_queries(
                    cs.take(i + 1),
                    versions,
                ));
            }
        } else {
            proof {
                assert(cs[i as int].name == spec_app_name());
            }
        }
        i = i + 1;
    }
    proof {
        assert(cs.take(n as int) =~= cs);
    }
    out
}

/// One answered state probe, ready for rendering.
pub struct ComponentStateRow {
    pub component: String,
    pub version: String,
    pub state: bool,
}

/// The JSON form of one answered probe.
pub open spec fn spec_state_row_json(component: Seq<char>, version: Seq<char>, state: bool) -> Seq<
    char,
> {
    "{\"component\":"@ + crate::json_text::spec_json_string(component) + ",\"version\":"@
        + crate::json_text::spec_json_string(version) + ",\"state\":"@ + (if state {
        "true"@
    } else {
        "false"@
    }) + "}"@
}

/// The rows joined with commas, in probe order.
pub open spec fn spec_state_rows_json(rows: Seq<(Seq<char>, Seq<char>, bool)>) -> Seq<char>
    decreases rows.len(),
{
    if rows.len() == 0 {
        Seq::empty()
    } else if rows.len() == 1 {
        spec_state_row_json(rows[0].0, rows[0].1, rows[0].2)
    } else {
        spec_state_row_json(rows[0].0, rows[0].1, rows[0].2) + ","@ + spec_state_rows_json(
            rows.drop_first(),
        )
    }
}

proof fn lemma_state_rows_push(rows: Seq<(Seq<char>, Seq<char>, bool)>, x: (Seq<char>, Seq<char>, bool))
    ensures
        rows.len() == 0 ==> spec_state_rows_json(rows.push(x)) == spec_state_row_json(
            x.0,
            x.1,
            x.2,
        ),
        rows.len() > 0 ==> spec_state_rows_json(rows.push(x)) =~= spec_state_rows_json(rows)
            + ","@ + spec_state_row_json(x.0, x.1, x.2),
    decreases rows.len(),
{
    if rows.len() == 0 {
        assert(rows.push(x)[0] == x);
        assert(rows.push(x).len() == 1);
    } else if rows.len() == 1 {
        assert(rows.push(x).drop_first() =~= seq![x]);
        assert(rows.push(x)[0] == rows[0]);
        assert(seq![x].len() == 1);
        assert(seq![x][0] == x);
        assert(spec_state_rows_json(seq![x]) == spec_state_row_json(x.0, x.1, x.2));
        assert(spec_state_rows_json(rows.push(x)) == spec_state_row_json(
            rows[0].0,
            rows[0].1,
            rows[0].2,
        ) + ","@ + spec_state_row_json(x.0, x.1, x.2));
    } else {
        lemma_state_rows_push(rows.drop_first(), x);
        assert(rows.push(x).drop_first() =~= rows.drop_first().push(x));
        assert(rows.push(x)[0] == rows[0]);
        assert(spec_state_rows_json(rows.push(x)) =~= spec_state_row_json(
            rows[0].0,
            rows[0].1,
            rows[0].2,
        ) + ","@ + (spec_state_rows_json(rows.drop_first()) + ","@ + spec_state_row_json(
            x.0,
            x.1,
            x.2,
        )));
    }
}

/// The component-states report: the broker identity and one entry per
/// answered probe.
pub open spec fn spec_component_states_json(
    id: Seq<char>,
    rows: Seq<(Seq<char>, Seq<char>, bool)>,
) -> Seq<char> {
    "{\"id\":"@ + crate::json_text::spec_json_string(id) + ",\"components\":["@
        + spec_state_rows_json(rows) + "]}"@
}

/// Renders the component-states report.
pub fn render_component_states(id: &str, rows: &Vec<ComponentStateRow>) -> (r: String)
    ensures
        r@ == spec_component_states_json(
            id@,
            rows@.map_values(|w: ComponentStateRow| (w.component@, w.version@, w.state)),
        ),
{
    let ghost rv = rows@.map_values(|w: ComponentStateRow| (w.component@, w.version@, w.state));
    let mut body = String::new();
    let n = rows.len();
    let mut i: usize = 0;
    proof {
        assert(rv.take(0) =~= Seq::<(Seq<char>, Seq<char>, bool)>::empty());
        assert(spec_state_rows_json(rv.take(0)) == Seq::<char>::empty());
    }
    while i < n
        invariant
            i <= n,
            n == rows@.len(),
            rv == rows@.map_values(|w: ComponentStateRow| (w.component@, w.version@, w.state)),
            body@ == spec_state_rows_json(rv.take(i as int)),
        decreases n - i,
    {
        proof {
            assert(rv[i as int] == (rows@[i as int].component@, rows@[i as int].version@, rows@[
                i as int
            ].state));
        }
        if i > 0 {
            body = body.concat(",");
        }
        let mut row = String::from_str("{\"component\":");
        crate::json_text::push_json_string(&mut row, rows[i].component.as_str());
        let mut row = row.concat(",\"version\":");
        crate::json_text::push_json_string(&mut row, rows[i].version.as_str());
        let row = row.concat(",\"state\":").concat(
            if rows[i].state {
                "true"
            } else {
                "false"
            },
        ).concat("}");
        proof {
            assert(row@ =~= spec_state_row_json(
                rv[i as int].0,
                rv[i as int].1,
                rv[i as int].2,
            ));
        }
        body = body.concat(row.as_str());
        proof {
            lemma_state_rows_push(rv.take(i as int), rv[i as int]);
            assert(rv.take(i + 1) =~= rv.take(i as int).push(rv[i as int]));
            assert(body@ =~= spec_state_rows_json(rv.take(i + 1)));
        }
        i = i + 1;
    }
    proof {
        assert(rv.take(n as int) =~= rv);
    }
    let mut out = String::from_str("{\"id\":");
    crate::json_text::push_json_string(&mut out, id);
    let r = out.concat(",\"components\":[").concat(body.as_str()).concat("]}");
    proof {
        assert(r@ =~= spec_component_states_json(id@, rv));
    }
    r
}

/// Why a log request cannot be answered.
#[derive(Clone, Copy, Debug, PartialEq, Eq, Structural)]
pub enum LogError {
    /// The component field does not split into a name and a form.
    BadComponentField,
    /// The form is neither `Service` nor `Container`.
    UnknownType,
    /// No component carries the requested name.
    NotFound,
    /// The component does not have the requested form configured.
    NoLogSource,
}

/// Position of the first ` - ` separator, or -1.
pub open spec fn spec_first_sep(s: Seq<char>) -> int
    decreases s.len(),
{
    if s.len() < 3 {
        -1
    } else if s[0] == ' ' && s[1] == '-' && s[2] == ' ' {
        0
    } else if spec_first_sep(s.drop_first()) == -1 {
        -1
    } else {
        spec_first_sep(s.drop_first()) + 1
    }
}

pub proof fn lemma_first_sep(s: Seq<char>)
    ensures
        spec_first_sep(s) == -1 <==> (forall|i: int|
            0 <= i <= s.len() - 3 ==> !(#[trigger] s[i] == ' ' && s[i + 1] == '-' && s[i + 2]
                == ' ')),
        spec_first_sep(s) != -1 ==> {
            let k = spec_first_sep(s);
            &&& 0 <= k <= s.len() - 3
            &&& s[k] == ' ' && s[k + 1] == '-' && s[k + 2] == ' '
            &&& forall|j: int|
                0 <= j < k ==> !(#[trigger] s[j] == ' ' && s[j + 1] == '-' && s[j + 2] == ' ')
        },
    decreases s.len(),
{
    if s.len() < 3 {
    } else if s[0] == ' ' && s[1] == '-' && s[2] == ' ' {
    } else {
        lemma_first_sep(s.drop_first());
        let rest = s.drop_first();
        if spec_first_sep(rest) == -1 {
            assert forall|i: int|
                0 <= i <= s.len() - 3 implies !(#[trigger] s[i] == ' ' && s[i + 1] == '-' && s[i
                + 2] == ' ') by {
                if i > 0 {
                    assert(s[i] == rest[i - 1]);
                    assert(s[i + 1] == rest[i]);
                    assert(s[i + 2] == rest[i + 1]);
                }
            }
        } else {
            let k = spec_first_sep(rest);
            assert(s[k + 1] == rest[k]);
            assert(s[k + 2] == rest[k + 1]);
            assert(s[k + 3] == rest[k + 2]);
            assert forall|j: int|
                0 <= j < k + 1 implies !(#[trigger] s[j] == ' ' && s[j + 1] == '-' && s[j + 2]
                == ' ') by {
                if j > 0 {
                    assert(s[j] == rest[j - 1]);
                    assert(s[j + 1] == rest[j]);
                    assert(s[j + 2] == rest[j + 1]);
                }
            }
        }
    }
}

/// The component field split at its single ` - ` separator into the
/// component name and the requested form.
pub open spec fn spec_split_component_field(s: Seq<char>) -> Option<(Seq<char>, Seq<char>)> {
    let k = spec_first_sep(s);
    if k == -1 {
        None
    } else if spec_first_sep(s.skip(k + 3)) != -1 {
        None
    } else {
        Some((s.take(k), s.skip(k + 3)))
    }
}

/// An answerable log request: the command to run and the identifier to
/// answer under.
pub struct LogQuery {
    pub request: String,
    pub command: String,
}

fn find_sep(s: &str) -> (r: Option<usize>)
    ensures
        match r {
            Some(k) => k == spec_first_sep(s@),
            None => spec_first_sep(s@) == -1,
        },
{
    let n = s.unicode_len();
    if n < 3 {
        proof {
            lemma_first_sep(s@);
        }
        return None;
    }
    let mut i: usize = 0;
    while i <= n - 3
        invariant
            n >= 3,
            i <= n - 2,
            n == s@.len(),
            forall|j: int|
                0 <= j < i ==> !(#[trigger] s@[j] == ' ' && s@[j + 1] == '-' && s@[j + 2] == ' '),
        decreases n - i,
    {
        if s.get_char(i) == ' ' && s.get_char(i + 1) == '-' && s.get_char(i + 2) == ' ' {
            proof {
                lemma_first_sep(s@);
            }
            return Some(i);
        }
        i = i + 1;
    }
    proof {
        lemma_first_sep(s@);
    }
    None
}

/// Resolves a log request: splits the component field at its single ` - `
/// separator, looks the component up, and picks the journal command for a
/// `Service` form or the container-log command for a `Container` form.
pub fn get_component_log(request: &str, component_field: &str, components: &Vec<UpdateComponent>)
    -> (r: Result<LogQuery, LogError>)
    ensures
        match r {
            Ok(q) => {
                &&& q.request@ == request@
                &&& spec_split_component_field(component_field@) matches Some((name, form))
                &&& {
                    let cs = components@.map_values(|c: UpdateComponent| c@);
                    let k = spec_first_component_index(cs, name);
                    &&& spec_has_component(cs, name)
                    &&& (form == "Service"@ ==> (cs[k].service_name matches Some(sn) && q.command@
                        == spec_service_log_command(sn)))
                    &&& (form == "Container"@ ==> (cs[k].container_name matches Some(cn)
                        && q.command@ == spec_container_log_command(cn)))
                    &&& (form == "Service"@ || form == "Container"@)
                }
            },
            Err(e) => {
                let cs = components@.map_values(|c: UpdateComponent| c@);
                match spec_split_component_field(component_field@) {
                    None => e == LogError::BadComponentField,
                    Some((name, form)) => {
                        let k = spec_first_component_index(cs, name);
                        if !spec_has_component(cs, name) {
                            e == LogError::NotFound
                        } else if form != "Service"@ && form != "Container"@ {
                            e == LogError::UnknownType
                        } else {
                            e == LogError::NoLogSource && ((form == "Service"@ && cs[k].service_name
                                is None) || (form == "Container"@ && cs[k].container_name is None))
                        }
                    },
                }
            },
        },
{
    let k = match find_sep(component_field) {
        Some(k) => k,
        None => {
            return Err(LogError::BadComponentField);
        },
    };
    proof {
        lemma_first_sep(component_field@);
    }
    let n = component_field.unicode_len();
    let name = component_field.substring_char(0, k).to_owned();
    let form = component_field.substring_char(k + 3, n).to_owned();
    if find_sep(form.as_str()).is_some() {
        return Err(LogError::BadComponentField);
    }
    proof {
        assert(name@ == component_field@.take(k as int));
        assert(form@ == component_field@.skip(k + 3));
        assert(spec_split_component_field(component_field@) == Some((name@, form@)));
    }
    let ghost cs = components@.map_values(|c: UpdateComponent| c@);
    let m = components.len();
    let mut i: usize = 0;
    while i < m
        invariant
            i <= m,
            m == components@.len(),
            cs == components@.map_values(|c: UpdateComponent| c@),
            spec_split_component_field(component_field@) == Some((name@, form@)),
            forall|j: int| 0 <= j < i ==> cs[j].name != name@,
        decreases m - i,
    {
        if components[i].name == name {
            proof {
                crate::settings::lemma_first_component_index(cs, name@);
                assert(cs[i as int] == components@[i as int]@);
                assert(spec_first_component_index(cs, name@) == i);
                assert(spec_has_component(cs, name@));
            }
            let service_kind = String::from_str("Service");
            let container_kind = String::from_str("Container");
            if form == service_kind {
                match &components[i].service_name {
                    Some(sn) => {
                        proof {
                            reveal_strlit("Service");
                            reveal_strlit("Container");
                            assert("Service"@ != "Container"@);
                            assert(form@ == "Service"@);
                            assert(cs[i as int].service_name == Some(sn@));
                        }
                        return Ok(
                            LogQuery {
                                request: request.to_owned(),
                                command: service_log_command(sn.as_str()),
                            },
                        );
                    },
                    None => {
                        proof {
                            assert(form@ == "Service"@);
                            assert(cs[i as int].service_name is None);
                        }
                        return Err(LogError::NoLogSource);
                    },
                }
            } else if form == container_kind {
                match &components[i].container_name {
                    Some(cn) => {
                        proof {
                            reveal_strlit("Service");
                            reveal_strlit("Container");
                            assert("Service"@ != "Container"@);
                            assert(form@ == "Container"@);
                            assert(cs[i as int].container_name == Some(cn@));
                        }
                        return Ok(
                            LogQuery {
                                request: request.to_owned(),
                                command: container_log_command(cn.as_str()),
                            },
                        );
                    },
                    None => {
                        proof {
                            assert(form@ == "Container"@);
                            assert(cs[i as int].container_name is None);
                        }
                        return Err(LogError::NoLogSource);
                    },
                }
            } else {
                proof {
                    assert(form@ != "Service"@ && form@ != "Container"@);
                }
                return Err(LogError::UnknownType);
            }
        }
        i = i + 1;
    }
    proof {
        assert(forall|j: int| 0 <= j < cs.len() ==> cs[j].name != name@);
    }
    Err(LogError::NotFound)
}

/// Version monotonicity: every cookbook entry's final version is exactly
/// the version of the last version-bearing instruction of that component's
/// recipes, in manifest order — the value the versions table receives when
/// the component's install commits.
pub proof fn lemma_cookbook_final_versions(
    l: Seq<ComponentRecipesView>,
    ps: Seq<UpdateComponentView>,
)
    ensures
        forall|i: int|
            0 <= i < spec_cookbook(l, ps).len() ==> spec_last_version(
                #[trigger] spec_cookbook(l, ps)[i].updates,
            ) == Some(spec_cookbook(l, ps)[i].final_version),
    decreases l.len(),
{
    if l.len() > 0 {
        lemma_cookbook_final_versions(l.drop_first(), ps);
        let rest = spec_cookbook(l.drop_first(), ps);
        match spec_component_entry(l[0], ps) {
            Some(e) => {
                assert(spec_cookbook(l, ps) == seq![e] + rest);
                assert(spec_last_version(e.updates) == Some(e.final_version));
                assert forall|i: int|
                    0 <= i < spec_cookbook(l, ps).len() implies spec_last_version(
                    #[trigger] spec_cookbook(l, ps)[i].updates,
                ) == Some(spec_cookbook(l, ps)[i].final_version) by {
                    if i == 0 {
                        assert(spec_cookbook(l, ps)[0] == e);
                    } else {
                        assert(spec_cookbook(l, ps)[i] == rest[i - 1]);
                    }
                }
            },
            None => {
                assert(spec_cookbook(l, ps) == Seq::<CookbookEntryView>::empty() + rest);
                assert(Seq::<CookbookEntryView>::empty() + rest =~= rest);
            },
        }
    }
}

/// The version entries contributed by the component version files: one pair
/// per readable file, contents trimmed, in order.
pub open spec fn spec_loaded_versions(pairs: Seq<(Seq<char>, Option<Seq<char>>)>) -> Seq<
    (Seq<char>, Seq<char>),
>
    decreases pairs.len(),
{
    if pairs.len() == 0 {
        Seq::empty()
    } else {
        let rest = spec_loaded_versions(pairs.drop_first());
        match pairs[0].1 {
            Some(contents) => seq![(pairs[0].0, spec_trim(contents))] + rest,
            None => rest,
        }
    }
}

proof fn lemma_loaded_versions_keys(pairs: Seq<(Seq<char>, Option<Seq<char>>)>)
    ensures
        forall|k: int|
            0 <= k < spec_loaded_versions(pairs).len() ==> exists|j: int|
                0 <= j < pairs.len() && #[trigger] spec_loaded_versions(pairs)[k].0 == pairs[j].0,
    decreases pairs.len(),
{
    if pairs.len() > 0 {
        lemma_loaded_versions_keys(pairs.drop_first());
        let rest = spec_loaded_versions(pairs.drop_first());
        assert forall|k: int|
            0 <= k < spec_loaded_versions(pairs).len() implies exists|j: int|
            0 <= j < pairs.len() && #[trigger] spec_loaded_versions(pairs)[k].0 == pairs[j].0 by {
            match pairs[0].1 {
                Some(_) => {
                    if k == 0 {
                        assert(spec_loaded_versions(pairs)[0].0 == pairs[0].0);
                    } else {
                        assert(spec_loaded_versions(pairs)[k] == rest[k - 1]);
                        let j0 = choose|j0: int|
                            0 <= j0 < pairs.drop_first().len() && #[trigger] rest[k - 1].0
                                == pairs.drop_first()[j0].0;
                        assert(pairs.drop_first()[j0] == pairs[j0 + 1]);
                    }
                },
                None => {
                    assert(spec_loaded_versions(pairs)[k] == rest[k]);
                    let j0 = choose|j0: int|
                        0 <= j0 < pairs.drop_first().len() && #[trigger] rest[k].0
                            == pairs.drop_first()[j0].0;
                    assert(pairs.drop_first()[j0] == pairs[j0 + 1]);
                },
            }
        }
    }
}

proof fn lemma_loaded_versions_push(pairs: Seq<(Seq<char>, Option<Seq<char>>)>, i: int)
    requires
        0 <= i < pairs.len(),
    ensures
        pairs[i].1 is Some ==> spec_loaded_versions(pairs.take(i + 1)) == spec_loaded_versions(
            pairs.take(i),
        ).push((pairs[i].0, spec_trim(pairs[i].1->0))),
        pairs[i].1 is None ==> spec_loaded_versions(pairs.take(i + 1)) == spec_loaded_versions(
            pairs.take(i),
        ),
    decreases i,
{
    if i == 0 {
        assert(pairs.take(1) =~= seq![pairs[0]]);
        assert(pairs.take(1)[0] == pairs[0]);
        assert(pairs.take(1).drop_first() =~= Seq::<(Seq<char>, Option<Seq<char>>)>::empty());
        assert(pairs.take(0) =~= Seq::<(Seq<char>, Option<Seq<char>>)>::empty());
        assert(spec_loaded_versions(Seq::<(Seq<char>, Option<Seq<char>>)>::empty())
            =~= Seq::<(Seq<char>, Seq<char>)>::empty());
        match pairs[0].1 {
            Some(c) => {
                assert(spec_loaded_versions(pairs.take(1)) == seq![(pairs[0].0, spec_trim(c))]
                    + spec_loaded_versions(pairs.take(1).drop_first()));
                assert(spec_loaded_versions(pairs.take(1)) =~= Seq::<
                    (Seq<char>, Seq<char>),
                >::empty().push((pairs[0].0, spec_trim(c))));
            },
            None => {},
        }
    } else {
        lemma_loaded_versions_push(pairs.drop_first(), i - 1);
        assert(pairs.take(i + 1).drop_first() =~= pairs.drop_first().take(i));
        assert(pairs.take(i).drop_first() =~= pairs.drop_first().take(i - 1));
        assert(pairs.drop_first()[i - 1] == pairs[i]);
        match pairs.take(i + 1)[0].1 {
            Some(c) => {
                assert(pairs.take(i + 1)[0] == pairs[0]);
                assert(pairs.take(i)[0] == pairs[0]);
                if pairs[i].1 is Some {
                    assert(spec_loaded_versions(pairs.take(i + 1)) =~= spec_loaded_versions(
                        pairs.take(i),
                    ).push((pairs[i].0, spec_trim(pairs[i].1->0))));
                } else {
                    assert(spec_loaded_versions(pairs.take(i + 1)) =~= spec_loaded_versions(
                        pairs.take(i),
                    ));
                }
            },
            None => {
                assert(pairs.take(i + 1)[0] == pairs[0]);
                assert(pairs.take(i)[0] == pairs[0]);
                if pairs[i].1 is Some {
                    assert(spec_loaded_versions(pairs.take(i + 1)) =~= spec_loaded_versions(
                        pairs.take(i),
                    ).push((pairs[i].0, spec_trim(pairs[i].1->0))));
                } else {
                    assert(spec_loaded_versions(pairs.take(i + 1)) =~= spec_loaded_versions(
                        pairs.take(i),
                    ));
                }
            },
        }
    }
}

} // verus!

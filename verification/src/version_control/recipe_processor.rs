//! The recipe processor: typed recipe instructions, the per-instruction
//! execution plans, and the restart/version-commit step that runs after each
//! component's instructions.
//!
//! The surrounding program executes the plans (copies, child processes) and
//! reports which file-placement steps failed; everything that is decided —
//! argument lists, paths, the restart routing, the version-table change — is
//! decided here.

use vstd::prelude::*;

use crate::app_name;
use crate::spec_app_name;
use crate::settings::structs::view_opt;
use crate::state::RestartFlag;
use crate::state::VersionMap;
use crate::state::spec_vm_entries;
use crate::state::spec_vm_get;
use crate::state::spec_vm_has;
use crate::state::spec_vm_index;
use crate::state::spec_vm_wf;
use crate::textutil::spec_views;
use super::security::set_file_permissions;
use super::security::spec_chmod_argv;
use super::security::spec_chown_argv;

verus! {

/// What one recipe instruction does; unrecognised kinds are carried along
/// and reported, not executed.
pub enum InstructionStep {
    Copy {
        file_path: String,
        destination: String,
        permission_user: Option<String>,
        permission_group: Option<String>,
        file_permissions: Option<String>,
    },
    CopyDir { folder_path: String, destination: String },
    RunCommand { command: String },
    RunScript { file_path: String },
    Unknown { kind: String },
}

#[verifier::ext_equal]
pub enum InstructionStepView {
    Copy {
        file_path: Seq<char>,
        destination: Seq<char>,
        permission_user: Option<Seq<char>>,
        permission_group: Option<Seq<char>>,
        file_permissions: Option<Seq<char>>,
    },
    CopyDir { folder_path: Seq<char>, destination: Seq<char> },
    RunCommand { command: Seq<char> },
    RunScript { file_path: Seq<char> },
    Unknown { kind: Seq<char> },
}

impl View for InstructionStep {
    type V = InstructionStepView;

    open spec fn view(&self) -> InstructionStepView {
        match self {
            InstructionStep::Copy {
                file_path,
                destination,
                permission_user,
                permission_group,
                file_permissions,
            } => InstructionStepView::Copy {
                file_path: file_path@,
                destination: destination@,
                permission_user: view_opt(*permission_user),
                permission_group: view_opt(*permission_group),
                file_permissions: view_opt(*file_permissions),
            },
            InstructionStep::CopyDir { folder_path, destination } => InstructionStepView::CopyDir {
                folder_path: folder_path@,
                destination: destination@,
            },
            InstructionStep::RunCommand { command } => InstructionStepView::RunCommand {
                command: command@,
            },
            InstructionStep::RunScript { file_path } => InstructionStepView::RunScript {
                file_path: file_path@,
            },
            InstructionStep::Unknown { kind } => InstructionStepView::Unknown { kind: kind@ },
        }
    }
}

/// One instruction of one update's recipe, together with the fields shared
/// by every kind.
pub struct Instruction {
    pub step: InstructionStep,
    pub restart: bool,
    pub version: Option<String>,
    pub absolute_update_path: String,
}

#[verifier::ext_equal]
pub struct InstructionView {
    pub step: InstructionStepView,
    pub restart: bool,
    pub version: Option<Seq<char>>,
    pub absolute_update_path: Seq<char>,
}

impl View for Instruction {
    type V = InstructionView;

    open spec fn view(&self) -> InstructionView {
        InstructionView {
            step: self.step@,
            restart: self.restart,
            version: view_opt(self.version),
            absolute_update_path: self.absolute_update_path@,
        }
    }
}

/// The planned work of one component: its flattened instruction stream and
/// the values the commit step needs.
pub struct CookbookEntry {
    pub component: String,
    pub restart_command: String,
    pub restart: bool,
    pub final_version: String,
    pub updates: Vec<Instruction>,
}

#[verifier::ext_equal]
pub struct CookbookEntryView {
    pub component: Seq<char>,
    pub restart_command: Seq<char>,
    pub restart: bool,
    pub final_version: Seq<char>,
    pub updates: Seq<InstructionView>,
}

impl View for CookbookEntry {
    type V = CookbookEntryView;

    open spec fn view(&self) -> CookbookEntryView {
        CookbookEntryView {
            component: self.component@,
            restart_command: self.restart_command@,
            restart: self.restart,
            final_version: self.final_version@,
            updates: self.updates@.map_values(|i: Instruction| i@),
        }
    }
}

/// What the caller must do after a component's commit step: nothing, run
/// that component's restart command, or go look for leftover updates (the
/// agent itself finished installing without a restart).
pub enum FollowUp {
    Nothing,
    RunRestartCommand(String),
    InstallLeftovers,
}

/// The string an optional field contributes to a command: its value, or
/// nothing.
pub open spec fn spec_opt_or_empty(o: Option<Seq<char>>) -> Seq<char> {
    match o {
        Some(s) => s,
        None => Seq::empty(),
    }
}

fn opt_or_empty(o: &Option<String>) -> (r: String)
    ensures
        r@ == spec_opt_or_empty(view_opt(*o)),
{
    match o {
        Some(s) => s.clone(),
        None => String::new(),
    }
}

/// The executable form of one instruction.  `Copy` and `CopyDir` failures
/// mark the component erroneous; command and script failures are only
/// logged.  Within `Copy`, `chown` must not run when its `chmod` failed, and
/// the copy must not happen when the source permission setting failed.
pub enum InstructionPlan {
    Copy {
        pre_chmod: Vec<String>,
        pre_chown: Vec<String>,
        src: String,
        dst: String,
        post_chmod: Vec<String>,
        post_chown: Vec<String>,
    },
    CopyDir { from: String, to: String },
    RunCommand { command: String },
    RunScript { path: String },
    Nothing,
}

/// The plan is exactly the given instruction's executable form: a `copy`
/// roots the source (`root:root` with the target mode), copies
/// `absolute_update_path + file_path` to `destination + file_path`, and
/// applies the configured owner and mode at the destination; the other
/// kinds carry their paths and command verbatim; an unknown kind plans
/// nothing.
pub open spec fn spec_plan_matches(p: InstructionPlan, iv: InstructionView) -> bool {
    match iv.step {
        InstructionStepView::Copy {
            file_path,
            destination,
            permission_user,
            permission_group,
            file_permissions,
        } => {
            let perms = spec_opt_or_empty(file_permissions);
            let src = iv.absolute_update_path + file_path;
            let dst = destination + file_path;
            p matches InstructionPlan::Copy {
                pre_chmod,
                pre_chown,
                src: psrc,
                dst: pdst,
                post_chmod,
                post_chown,
            } && spec_views(pre_chmod@) == spec_chmod_argv(perms, src) && spec_views(pre_chown@)
                == spec_chown_argv("root"@, "root"@, src) && psrc@ == src && pdst@ == dst
                && spec_views(post_chmod@) == spec_chmod_argv(perms, dst) && spec_views(
                post_chown@,
            ) == spec_chown_argv(
                spec_opt_or_empty(permission_user),
                spec_opt_or_empty(permission_group),
                dst,
            )
        },
        InstructionStepView::CopyDir { folder_path, destination } => p
            matches InstructionPlan::CopyDir { from, to } && from@ == folder_path && to@
            == destination,
        InstructionStepView::RunCommand { command } => p matches InstructionPlan::RunCommand {
            command: c,
        } && c@ == command,
        InstructionStepView::RunScript { file_path } => p matches InstructionPlan::RunScript {
            path,
        } && path@ == iv.absolute_update_path + file_path,
        InstructionStepView::Unknown { .. } => p is Nothing,
    }
}

/// Turns one recipe instruction into its execution plan.
///
/// A `copy` first roots the source (`root:root` with the target mode), then
/// copies `absolute_update_path + file_path` to `destination + file_path`,
/// then applies the configured owner and mode at the destination — so a
/// half-finished copy is never owned by the target user.
pub fn instruction_plan(instr: &Instruction) -> (r: InstructionPlan)
    ensures
        spec_plan_matches(r, instr@),
{
    match &instr.step {
        InstructionStep::Copy {
            file_path,
            destination,
            permission_user,
            permission_group,
            file_permissions,
        } => {
            let perms = opt_or_empty(file_permissions);
            let user = opt_or_empty(permission_user);
            let group = opt_or_empty(permission_group);
            let src = instr.absolute_update_path.clone().concat(file_path.as_str());
            let dst = destination.clone().concat(file_path.as_str());
            let (pre_chmod, pre_chown) = set_file_permissions(
                src.as_str(),
                "root",
                "root",
                perms.as_str(),
            );
            let (post_chmod, post_chown) = set_file_permissions(
                dst.as_str(),
                user.as_str(),
                group.as_str(),
                perms.as_str(),
            );
            InstructionPlan::Copy { pre_chmod, pre_chown, src, dst, post_chmod, post_chown }
        },
        InstructionStep::CopyDir { folder_path, destination } => InstructionPlan::CopyDir {
            from: folder_path.clone(),
            to: destination.clone(),
        },
        InstructionStep::RunCommand { command } => InstructionPlan::RunCommand {
            command: command.clone(),
        },
        InstructionStep::RunScript { file_path } => InstructionPlan::RunScript {
            path: instr.absolute_update_path.clone().concat(file_path.as_str()),
        },
        InstructionStep::Unknown { .. } => InstructionPlan::Nothing,
    }
}

/// The execution plans of one cookbook entry: one plan per instruction, in
/// instruction order, each the exact executable form of its instruction.
pub fn cook_instruction_plans(entry: &CookbookEntry) -> (r: Vec<InstructionPlan>)
    ensures
        r@.len() == entry@.updates.len(),
        forall|i: int|
            0 <= i < r@.len() ==> spec_plan_matches(#[trigger] r@[i], entry@.updates[i]),
{
    let mut out: Vec<InstructionPlan> = Vec::new();
    let n = entry.updates.len();
    let mut i: usize = 0;
    while i < n
        invariant
            i <= n,
            n == entry.updates@.len(),
            out@.len() == i,
            forall|j: int|
                0 <= j < out@.len() ==> spec_plan_matches(#[trigger] out@[j], entry@.updates[j]),
        decreases n - i,
    {
        let one = instruction_plan(&entry.updates[i]);
        proof {
            assert(entry@.updates[i as int] == entry.updates@[i as int]@);
        }
        out.push(one);
        i = i + 1;
    }
    out
}

/// The restart/version-commit step after a component's instructions.
///
/// For the agent itself: a requested restart raises the restart flag (and
/// nothing else happens now — the installation resumes after the restart);
/// without one, the leftover-update discovery must run next.  For any other
/// component a requested restart means running its restart command.  In
/// every case the versions table is set to the component's final version;
/// the result is false when the component had no entry before (the caller
/// logs a warning).
pub fn restart_set_component_version(
    restart: bool,
    component_name: &str,
    restart_command: &str,
    version: &str,
    versions: &mut VersionMap,
    restart_flag: &mut RestartFlag,
) -> (r: (FollowUp, bool))
    requires
        spec_vm_wf(old(versions)),
    ensures
        spec_vm_wf(final(versions)),
        spec_vm_get(final(versions), component_name@) == Some(version@),
        r.1 == spec_vm_has(old(versions), component_name@),
        r.1 ==> spec_vm_entries(final(versions)) == spec_vm_entries(old(versions)).update(
            spec_vm_index(old(versions), component_name@),
            (component_name@, version@),
        ),
        !r.1 ==> spec_vm_entries(final(versions)) == spec_vm_entries(old(versions)).push(
            (component_name@, version@),
        ),
        component_name@ == spec_app_name() && restart ==> final(restart_flag).spec_requested()
            && r.0 is Nothing,
        component_name@ == spec_app_name() && !restart ==> *final(restart_flag)
            == *old(restart_flag) && r.0 is InstallLeftovers,
        component_name@ != spec_app_name() ==> *final(restart_flag) == *old(restart_flag) && (
        restart ==> (r.0 matches FollowUp::RunRestartCommand(c) && c@ == restart_command@)) && (
        !restart ==> r.0 is Nothing),
        old(restart_flag).spec_requested() ==> final(restart_flag).spec_requested(),
{
    let app = app_name().to_owned();
    let needle = component_name.to_owned();
    let follow_up: FollowUp;
    if needle == app {
        if restart {
            restart_flag.request();
            follow_up = FollowUp::Nothing;
        } else {
            follow_up = FollowUp::InstallLeftovers;
        }
    } else {
        if restart {
            follow_up = FollowUp::RunRestartCommand(restart_command.to_owned());
        } else {
            follow_up = FollowUp::Nothing;
        }
    }
    let had = versions.insert(component_name, version);
    (follow_up, had)
}

/// Outcome of a whole cook run, as the caller reports it: true exactly when
/// the cookbook was empty or its last component committed without error.
pub fn cook_success(component_ok: &Vec<bool>) -> (r: bool)
    ensures
        r == (component_ok@.len() == 0 || component_ok@.last()),
{
    if component_ok.len() == 0 {
        true
    } else {
        component_ok[component_ok.len() - 1]
    }
}

} // verus!

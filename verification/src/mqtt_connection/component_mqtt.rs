//! The component-bus session: subscription topology, the messages sent to
//! the external interface, and the dispatch of inbound commands.

use vstd::prelude::*;

use super::OutboundMessage;
use super::component_structs::Command;
use super::component_structs::CommandType;
use super::component_structs::spec_command_tag;
use crate::json_text::spec_command_envelope;

verus! {

/// The topic every agent listens on.
pub open spec fn spec_root_neco_topic() -> Seq<char> {
    "neutron_communicators"@
}

/// The topic every agent listens on.
pub fn root_neco_topic() -> (r: &'static str)
    ensures
        r@ == spec_root_neco_topic(),
{
    "neutron_communicators"
}

/// The topic the agent publishes its reports and status lines on.
pub open spec fn spec_external_interface_topic() -> Seq<char> {
    "external_interface"@
}

/// The topic the agent publishes its reports and status lines on.
pub fn external_interface_topic() -> (r: &'static str)
    ensures
        r@ == spec_external_interface_topic(),
{
    "external_interface"
}

/// What to subscribe once the component-bus connection stands: the shared
/// agent topic and the agent's own subtopic, both at quality one.  The
/// caller then publishes an initial component-states report.
pub fn connection_success(client_id: &str) -> (r: Vec<(String, i32)>)
    ensures
        r@.len() == 2,
        r@[0].0@ == spec_root_neco_topic() && r@[0].1 == 1,
        r@[1].0@ == spec_root_neco_topic() + "/"@ + client_id@ && r@[1].1 == 1,
{
    let own = root_neco_topic().to_owned().concat("/").concat(client_id);
    let r: Vec<(String, i32)> = vec![(root_neco_topic().to_owned(), 1), (own, 1)];
    r
}

fn external_message(tag: CommandType, data: &str) -> (r: OutboundMessage)
    ensures
        r.topic@ == spec_external_interface_topic(),
        r.payload@ == spec_command_envelope(spec_command_tag(tag), data@),
        r.qos == 1,
{
    let payload = match Command::new(tag, data).to_string() {
        Some(p) => p,
        None => vstd::pervasive::unreached(),
    };
    OutboundMessage { topic: external_interface_topic().to_owned(), payload, qos: 1 }
}

/// A user-visible status line for the external interface.
pub fn send_state(state: &str) -> (r: OutboundMessage)
    ensures
        r.topic@ == spec_external_interface_topic(),
        r.payload@ == spec_command_envelope("State"@, state@),
        r.qos == 1,
{
    external_message(CommandType::State, state)
}

/// The concatenated changelogs of a found manifest, for the external
/// interface.
pub fn send_changelogs(changelogs: &str) -> (r: OutboundMessage)
    ensures
        r.topic@ == spec_external_interface_topic(),
        r.payload@ == spec_command_envelope("Changelogs"@, changelogs@),
        r.qos == 1,
{
    external_message(CommandType::Changelogs, changelogs)
}

/// The announcement that the installation procedure has begun.
pub fn send_update_started() -> (r: OutboundMessage)
    ensures
        r.topic@ == spec_external_interface_topic(),
        r.payload@ == spec_command_envelope("UpdateStarted"@, Seq::<char>::empty()),
        r.qos == 1,
{
    proof {
        reveal_strlit("");
        assert(""@ =~= Seq::<char>::empty());
    }
    external_message(CommandType::UpdateStarted, "")
}

/// The component-states report, already rendered, for the external
/// interface.
pub fn send_component_states(states_json: &str) -> (r: OutboundMessage)
    ensures
        r.topic@ == spec_external_interface_topic(),
        r.payload@ == spec_command_envelope("ComponentStates"@, states_json@),
        r.qos == 1,
{
    external_message(CommandType::ComponentStates, states_json)
}

/// A component's log answer, already rendered, for the external interface.
pub fn send_component_log(log_json: &str) -> (r: OutboundMessage)
    ensures
        r.topic@ == spec_external_interface_topic(),
        r.payload@ == spec_command_envelope("ComponentLog"@, log_json@),
        r.qos == 1,
{
    external_message(CommandType::ComponentLog, log_json)
}

/// What an inbound component-bus command asks for.
#[derive(Clone, Copy, Debug, PartialEq, Eq, Structural)]
pub enum ComponentDispatch {
    /// Run the manifest negotiation.
    RefreshManifest,
    /// Announce the start, then run the install pipeline.
    StartInstall,
    /// Answer with the component-states report.
    SendComponentStates,
    /// Answer with the requested component log (the command's data holds
    /// the request).
    SendComponentLog,
    /// Outbound-only tags are ignored when they arrive.
    Ignore,
}

/// Routes an inbound component-bus command.
pub fn process_command(cmd: &Command) -> (r: ComponentDispatch)
    ensures
        r == (match cmd.command {
            CommandType::RefreshUpdateManifest => ComponentDispatch::RefreshManifest,
            CommandType::StartUpdateDownloadAndInstall => ComponentDispatch::StartInstall,
            CommandType::ComponentStates => ComponentDispatch::SendComponentStates,
            CommandType::ComponentLog => ComponentDispatch::SendComponentLog,
            _ => ComponentDispatch::Ignore,
        }),
{
    match cmd.command {
        CommandType::RefreshUpdateManifest => ComponentDispatch::RefreshManifest,
        CommandType::StartUpdateDownloadAndInstall => ComponentDispatch::StartInstall,
        CommandType::ComponentStates => ComponentDispatch::SendComponentStates,
        CommandType::ComponentLog => ComponentDispatch::SendComponentLog,
        _ => ComponentDispatch::Ignore,
    }
}

} // verus!

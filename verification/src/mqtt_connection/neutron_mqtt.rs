//! The central-bus session: its topics, the online/offline announcements,
//! and the dispatch of inbound commands.

use vstd::prelude::*;

use super::OutboundMessage;
use super::neutron_structs::Command;
use super::neutron_structs::CommandType;
use super::neutron_structs::spec_command_tag;
use crate::json_text::spec_command_envelope;

verus! {

/// The fleet controller's shared topic (subscribe only).
pub open spec fn spec_root_topic() -> Seq<char> {
    "LSOC/communicators"@
}

/// The fleet controller's shared topic (subscribe only).
pub fn root_topic() -> (r: &'static str)
    ensures
        r@ == spec_root_topic(),
{
    "LSOC/communicators"
}

/// The agent's own inbound topic (subscribe only).
pub open spec fn spec_own_topic(client_id: Seq<char>) -> Seq<char> {
    spec_root_topic() + "/"@ + client_id
}

/// The agent's own inbound topic (subscribe only).
pub fn own_topic(client_id: &str) -> (r: String)
    ensures
        r@ == spec_own_topic(client_id@),
{
    root_topic().to_owned().concat("/").concat(client_id)
}

/// The agent's outbound topic.
pub open spec fn spec_own_topic_out(client_id: Seq<char>) -> Seq<char> {
    spec_own_topic(client_id) + "/out"@
}

/// The agent's outbound topic.
pub fn own_topic_out(client_id: &str) -> (r: String)
    ensures
        r@ == spec_own_topic_out(client_id@),
{
    own_topic(client_id).concat("/out")
}

/// The online or offline announcement on the agent's outbound topic.
pub fn send_state(state: bool, client_id: &str) -> (r: OutboundMessage)
    ensures
        r.topic@ == spec_own_topic_out(client_id@),
        state ==> r.payload@ == spec_command_envelope("Online"@, Seq::<char>::empty()),
        !state ==> r.payload@ == spec_command_envelope("Offline"@, Seq::<char>::empty()),
        r.qos == 1,
{
    proof {
        reveal_strlit("");
        assert(""@ =~= Seq::<char>::empty());
    }
    let tag = if state {
        CommandType::Online
    } else {
        CommandType::Offline
    };
    let payload = match Command::new(tag, "").to_string() {
        Some(p) => p,
        None => vstd::pervasive::unreached(),
    };
    OutboundMessage { topic: own_topic_out(client_id), payload, qos: 1 }
}

/// What to do once the central-bus connection stands: subscribe the shared
/// topic and the agent's own topic at quality one, then announce the agent
/// online.
pub fn connection_success(client_id: &str) -> (r: (Vec<(String, i32)>, OutboundMessage))
    ensures
        r.0@.len() == 2,
        r.0@[0].0@ == spec_root_topic() && r.0@[0].1 == 1,
        r.0@[1].0@ == spec_own_topic(client_id@) && r.0@[1].1 == 1,
        r.1.topic@ == spec_own_topic_out(client_id@),
        r.1.payload@ == spec_command_envelope("Online"@, Seq::<char>::empty()),
        r.1.qos == 1,
{
    let subs: Vec<(String, i32)> = vec![(root_topic().to_owned(), 1), (own_topic(client_id), 1)];
    (subs, send_state(true, client_id))
}

/// What an inbound central-bus command asks for.
#[derive(Clone, Copy, Debug, PartialEq, Eq, Structural)]
pub enum NeutronDispatch {
    /// Install the carried SSH key and report the host's address.
    StartSshServer,
    /// Reserved and outbound-only tags do nothing.
    Ignore,
}

/// Routes an inbound central-bus command.
pub fn process_command(cmd: &Command) -> (r: NeutronDispatch)
    ensures
        r == (match cmd.command {
            CommandType::RemoteManagement => NeutronDispatch::StartSshServer,
            _ => NeutronDispatch::Ignore,
        }),
{
    match cmd.command {
        CommandType::RemoteManagement => NeutronDispatch::StartSshServer,
        _ => NeutronDispatch::Ignore,
    }
}

} // verus!

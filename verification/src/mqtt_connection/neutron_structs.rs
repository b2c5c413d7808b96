//! The command envelope of the central bus.

use vstd::prelude::*;

use crate::json_text::command_envelope;
use crate::json_text::spec_command_envelope;

verus! {

/// The central-bus command tags.
#[derive(Clone, Copy, Debug, PartialEq, Eq, Structural)]
pub enum CommandType {
    /// Outbound: the agent came online.
    Online,
    /// Outbound (testament): the agent went offline.
    Offline,
    /// Reserved inbound command; currently does nothing.
    UpdateInstall,
    /// Inbound: install the carried SSH key and report the host's address.
    RemoteManagement,
    /// Reserved inbound command; currently does nothing.
    MQTTServerCA,
}

/// The textual name under which a tag travels.
pub open spec fn spec_command_tag(t: CommandType) -> Seq<char> {
    match t {
        CommandType::Online => "Online"@,
        CommandType::Offline => "Offline"@,
        CommandType::UpdateInstall => "UpdateInstall"@,
        CommandType::RemoteManagement => "RemoteManagement"@,
        CommandType::MQTTServerCA => "MQTTServerCA"@,
    }
}

/// The textual name under which a tag travels.
pub fn command_tag(t: CommandType) -> (r: &'static str)
    ensures
        r@ == spec_command_tag(t),
{
    match t {
        CommandType::Online => "Online",
        CommandType::Offline => "Offline",
        CommandType::UpdateInstall => "UpdateInstall",
        CommandType::RemoteManagement => "RemoteManagement",
        CommandType::MQTTServerCA => "MQTTServerCA",
    }
}

/// One command as it travels over the central bus.
pub struct Command {
    pub command: CommandType,
    pub data: String,
}

impl Command {
    /// A command with the given tag and data.
    pub fn new(command: CommandType, data: &str) -> (r: Command)
        ensures
            r.command == command,
            r.data@ == data@,
    {
        Command { command, data: data.to_owned() }
    }

    /// The JSON text of the envelope.  Encoding a tag and a string cannot
    /// fail; the option mirrors the transport interface, which drops a
    /// message it cannot encode.
    pub fn to_string(&self) -> (r: Option<String>)
        ensures
            r matches Some(s) && s@ == spec_command_envelope(
                spec_command_tag(self.command),
                self.data@,
            ),
    {
        Some(command_envelope(command_tag(self.command), self.data.as_str()))
    }
}

} // verus!

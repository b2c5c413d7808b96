//! The command envelope of the component bus.

use vstd::prelude::*;

use crate::json_text::command_envelope;
use crate::json_text::spec_command_envelope;

verus! {

/// The component-bus command tags.
#[derive(Clone, Copy, Debug, PartialEq, Eq, Structural)]
pub enum CommandType {
    /// Ask the update server for a fresh manifest.
    RefreshUpdateManifest,
    /// Run the download-and-install pipeline.
    StartUpdateDownloadAndInstall,
    /// Outbound: the concatenated changelogs of a found manifest.
    Changelogs,
    /// Outbound: the installation procedure has begun.
    UpdateStarted,
    /// Outbound: a user-visible status line.
    State,
    /// Reply with (or outbound: carry) the component-states report.
    ComponentStates,
    /// Reply with (or outbound: carry) a component's log.
    ComponentLog,
}

/// The textual name under which a tag travels.
pub open spec fn spec_command_tag(t: CommandType) -> Seq<char> {
    match t {
        CommandType::RefreshUpdateManifest => "RefreshUpdateManifest"@,
        CommandType::StartUpdateDownloadAndInstall => "StartUpdateDownloadAndInstall"@,
        CommandType::Changelogs => "Changelogs"@,
        CommandType::UpdateStarted => "UpdateStarted"@,
        CommandType::State => "State"@,
        CommandType::ComponentStates => "ComponentStates"@,
        CommandType::ComponentLog => "ComponentLog"@,
    }
}

/// The textual name under which a tag travels.
pub fn command_tag(t: CommandType) -> (r: &'static str)
    ensures
        r@ == spec_command_tag(t),
{
    match t {
        CommandType::RefreshUpdateManifest => "RefreshUpdateManifest",
        CommandType::StartUpdateDownloadAndInstall => "StartUpdateDownloadAndInstall",
        CommandType::Changelogs => "Changelogs",
        CommandType::UpdateStarted => "UpdateStarted",
        CommandType::State => "State",
        CommandType::ComponentStates => "ComponentStates",
        CommandType::ComponentLog => "ComponentLog",
    }
}

/// One command as it travels over the component bus.
pub struct Command {
    pub command: CommandType,
    pub data: String,
}

impl Command {
    /// A command with the given tag and data.
    pub fn new(command: CommandType, data: &str) -> (r: Command)
        ensures
            r.command == command,
            r.data@ == data@,
    {
        Command { command, data: data.to_owned() }
    }

    /// The JSON text of the envelope.  Encoding a tag and a string cannot
    /// fail; the option mirrors the transport interface, which drops a
    /// message it cannot encode.
    pub fn to_string(&self) -> (r: Option<String>)
        ensures
            r matches Some(s) && s@ == spec_command_envelope(
                spec_command_tag(self.command),
                self.data@,
            ),
    {
        Some(command_envelope(command_tag(self.command), self.data.as_str()))
    }
}

} // verus!

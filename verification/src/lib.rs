//! Fleet agent core: version-control planning, certificate lifecycle
//! decisions, and the command plane, with the process-wide state they share.
//!
//! The library computes; the surrounding program performs I/O (child
//! processes, HTTP, MQTT, the filesystem) and feeds results back in as plain
//! values.

use vstd::prelude::*;

pub mod encryption_certificates;
pub mod json_text;
pub mod mqtt_connection;
pub mod remote_management;
pub mod settings;
pub mod state;
pub mod version_control;
pub mod textutil;

verus! {

/// Name under which the agent itself appears in the component list.
pub open spec fn spec_app_name() -> Seq<char> {
    "NeutronCommunicator"@
}

/// Name under which the agent itself appears in the component list.
pub fn app_name() -> (r: &'static str)
    ensures
        r@ == spec_app_name(),
{
    "NeutronCommunicator"
}

/// The agent's own version, reported alongside the managed components.
pub open spec fn spec_app_version() -> Seq<char> {
    "0.1.0"@
}

/// The agent's own version, reported alongside the managed components.
pub fn app_version() -> (r: &'static str)
    ensures
        r@ == spec_app_version(),
{
    "0.1.0"
}

/// Scheme of the update server's base address.
pub open spec fn spec_neutron_server_protocol() -> Seq<char> {
    "https://"@
}

/// Scheme of the update server's base address.
pub fn neutron_server_protocol() -> (r: &'static str)
    ensures
        r@ == spec_neutron_server_protocol(),
{
    "https://"
}

/// Host of the update server.
pub open spec fn spec_neutron_server_ip() -> Seq<char> {
    "127.0.0.1"@
}

/// Host of the update server.
pub fn neutron_server_ip() -> (r: &'static str)
    ensures
        r@ == spec_neutron_server_ip(),
{
    "127.0.0.1"
}

/// Port suffix of the update server's base address.
pub open spec fn spec_neutron_server_port() -> Seq<char> {
    ":8002"@
}

/// Port suffix of the update server's base address.
pub fn neutron_server_port() -> (r: &'static str)
    ensures
        r@ == spec_neutron_server_port(),
{
    ":8002"
}

/// Directory that holds the settings file and the temporary update tree.
pub open spec fn spec_base_directory() -> Seq<char> {
    "/etc/NeutronCommunicator/"@
}

/// Directory that holds the settings file and the temporary update tree.
pub fn base_directory() -> (r: &'static str)
    ensures
        r@ == spec_base_directory(),
{
    "/etc/NeutronCommunicator/"
}

} // verus!

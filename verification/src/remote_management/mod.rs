//! Remote management: the plan that installs a fleet controller's SSH key
//! and answers with this host's address.

use vstd::prelude::*;

use crate::json_text::spec_command_envelope;
use crate::mqtt_connection::OutboundMessage;
use crate::mqtt_connection::neutron_mqtt::spec_own_topic_out;
use crate::mqtt_connection::neutron_structs::Command;
use crate::mqtt_connection::neutron_structs::CommandType;

verus! {

/// Where the authorized keys live.
pub open spec fn spec_authorized_keys_file() -> Seq<char> {
    "/root/.ssh/authorized_keys"@
}

/// Where the authorized keys live.
pub fn authorized_keys_file() -> (r: &'static str)
    ensures
        r@ == spec_authorized_keys_file(),
{
    "/root/.ssh/authorized_keys"
}

/// The shell command that reads this host's public address.
pub fn wan_ip_command() -> (r: &'static str)
    ensures
        r@ == "curl https://api.ipify.org"@,
{
    "curl https://api.ipify.org"
}

/// Everything the SSH bootstrap does, in order: write the key file, tighten
/// its permissions, restart the SSH service, and — only when all of that
/// succeeded — publish the host's address back to the fleet controller.
pub struct SshSetupPlan {
    pub auth_file_path: String,
    pub key_contents: String,
    pub permissions_command: String,
    pub restart_command: String,
    pub reply: OutboundMessage,
}

/// Plans the SSH bootstrap for a received public key, with the host's
/// address (read beforehand) as the reply.
pub fn start_ssh_server(pub_key: &str, client_id: &str, wan_ip: &str) -> (r: SshSetupPlan)
    ensures
        r.auth_file_path@ == spec_authorized_keys_file(),
        r.key_contents@ == pub_key@,
        r.permissions_command@ == "chmod 700 /root/.ssh && chmod 600 /root/.ssh/authorized_keys"@,
        r.restart_command@ == "systemctl restart sshd"@,
        r.reply.topic@ == spec_own_topic_out(client_id@),
        r.reply.payload@ == spec_command_envelope("RemoteManagement"@, wan_ip@),
        r.reply.qos == 1,
{
    let payload = match Command::new(CommandType::RemoteManagement, wan_ip).to_string() {
        Some(p) => p,
        None => vstd::pervasive::unreached(),
    };
    SshSetupPlan {
        auth_file_path: authorized_keys_file().to_owned(),
        key_contents: pub_key.to_owned(),
        permissions_command: String::from_str(
            "chmod 700 /root/.ssh && chmod 600 /root/.ssh/authorized_keys",
        ),
        restart_command: String::from_str("systemctl restart sshd"),
        reply: OutboundMessage {
            topic: crate::mqtt_connection::neutron_mqtt::own_topic_out(client_id),
            payload,
            qos: 1,
        },
    }
}

} // verus!

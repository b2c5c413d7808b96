//! The broker client pair: everything both MQTT sessions decide — the
//! connection parameters, the subscription topology, the messages published
//! and the dispatch of inbound commands.  The broker library itself runs
//! outside; it is handed these plans and values.

use vstd::prelude::*;

use crate::settings::structs::ComponentMqttClient;
use crate::settings::structs::NeutronMqttClient;
use crate::spec_neutron_server_ip;
use crate::neutron_server_ip;

pub mod component_mqtt;
pub mod component_structs;
pub mod neutron_mqtt;
pub mod neutron_structs;

verus! {

/// A message to publish: topic, JSON payload, quality of service.
pub struct OutboundMessage {
    pub topic: String,
    pub payload: String,
    pub qos: i32,
}

/// Milliseconds to wait before another connection attempt after a failure
/// or a lost connection.
pub fn reconnect_timeout_ms() -> (r: u64)
    ensures
        r == 2500,
{
    2500
}

/// The fixed connection parameters of one broker session.
pub struct MqttConnectPlan {
    pub address: String,
    pub client_id: String,
    pub keep_alive_secs: u64,
    pub clean_session: bool,
    pub username: String,
    pub password: String,
    pub trust_store: Option<String>,
    pub will_message: Option<OutboundMessage>,
}

/// The component-bus session: TLS to the configured address with the
/// configured trust store, the client named by its username, thirty-second
/// keep-alive, clean session, no testament.
pub fn init_component_mqtt(mqtt_config: &ComponentMqttClient) -> (r: MqttConnectPlan)
    ensures
        r.address@ == "ssl://"@ + mqtt_config.ip@ + ":"@ + mqtt_config.port@,
        r.client_id@ == mqtt_config.username@,
        r.keep_alive_secs == 30,
        r.clean_session,
        r.username@ == mqtt_config.username@,
        r.password@ == mqtt_config.password@,
        r.trust_store matches Some(t) && t@ == mqtt_config.cafile@,
        r.will_message is None,
{
    MqttConnectPlan {
        address: String::from_str("ssl://").concat(mqtt_config.ip.as_str()).concat(":").concat(
            mqtt_config.port.as_str(),
        ),
        client_id: mqtt_config.username.clone(),
        keep_alive_secs: 30,
        clean_session: true,
        username: mqtt_config.username.clone(),
        password: mqtt_config.password.clone(),
        trust_store: Some(mqtt_config.cafile.clone()),
        will_message: None,
    }
}

/// The central-bus session: TLS to the update server's broker port, a
/// testament that reports the agent offline, thirty-second keep-alive,
/// clean session.
pub fn init_neutron_mqtt(mqtt_config: &NeutronMqttClient) -> (r: MqttConnectPlan)
    ensures
        r.address@ == "ssl://"@ + spec_neutron_server_ip() + ":1883"@,
        r.client_id@ == mqtt_config.username@,
        r.keep_alive_secs == 30,
        r.clean_session,
        r.username@ == mqtt_config.username@,
        r.password@ == mqtt_config.password@,
        r.trust_store is None,
        r.will_message matches Some(w) && w.topic@ == neutron_mqtt::spec_own_topic_out(
            mqtt_config.username@,
        ) && w.payload@ == crate::json_text::spec_command_envelope(
            "Offline"@,
            Seq::<char>::empty(),
        ) && w.qos == 1,
{
    let will = neutron_mqtt::send_state(false, mqtt_config.username.as_str());
    MqttConnectPlan {
        address: String::from_str("ssl://").concat(neutron_server_ip()).concat(":1883"),
        client_id: mqtt_config.username.clone(),
        keep_alive_secs: 30,
        clean_session: true,
        username: mqtt_config.username.clone(),
        password: mqtt_config.password.clone(),
        trust_store: None,
        will_message: Some(will),
    }
}

} // verus!

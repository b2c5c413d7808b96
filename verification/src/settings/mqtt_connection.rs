//! Credential setters: each replaces its slice of the record and returns the
//! document to persist.

use vstd::prelude::*;

use super::spec_strip_agent;
use super::to_saved_document;
use super::structs::NeutronMqttClient;
use super::structs::NeutronMqttClientView;
use super::structs::ComponentMqttClient;
use super::structs::ComponentMqttClientView;
use super::structs::Settings;
use super::structs::SettingsView;

verus! {

/// Sets the neutron account name and the central-broker credentials and
/// returns the document to persist.
pub fn save_neutron_creds(settings: Settings, neutron_user: &str, username: &str, password: &str)
    -> (doc: Settings)
    ensures
        doc@ == spec_strip_agent(
            (SettingsView {
                neutron_account_username: neutron_user@,
                neutron_mqtt_client: (NeutronMqttClientView {
                    username: username@,
                    password: password@,
                }),
                ..settings@
            }),
        ),
{
    let mut s = settings;
    s.neutron_account_username = neutron_user.to_owned();
    s.neutron_mqtt_client = NeutronMqttClient {
        username: username.to_owned(),
        password: password.to_owned(),
    };
    proof {
        assert(s@ =~= (SettingsView {
            neutron_account_username: neutron_user@,
            neutron_mqtt_client: (NeutronMqttClientView {
                username: username@,
                password: password@,
            }),
            ..settings@
        }));
    }
    to_saved_document(s)
}

/// Sets the component-broker address, credentials and trust store and
/// returns the document to persist.
pub fn save_component_creds(
    settings: Settings,
    ip: &str,
    port: &str,
    username: &str,
    password: &str,
    ca_path: &str,
) -> (doc: Settings)
    ensures
        doc@ == spec_strip_agent(
            (SettingsView {
                component_mqtt_client: (ComponentMqttClientView {
                    ip: ip@,
                    port: port@,
                    username: username@,
                    password: password@,
                    cafile: ca_path@,
                }),
                ..settings@
            }),
        ),
{
    let mut s = settings;
    s.component_mqtt_client = ComponentMqttClient {
        ip: ip.to_owned(),
        port: port.to_owned(),
        username: username.to_owned(),
        password: password.to_owned(),
        cafile: ca_path.to_owned(),
    };
    proof {
        assert(s@ =~= (SettingsView {
            component_mqtt_client: (ComponentMqttClientView {
                ip: ip@,
                port: port@,
                username: username@,
                password: password@,
                cafile: ca_path@,
            }),
            ..settings@
        }));
    }
    to_saved_document(s)
}

} // verus!

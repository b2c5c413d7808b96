use neutron_communicator::json_text::{command_envelope, json_string, log_response};
use neutron_communicator::mqtt_connection::component_mqtt::{
    connection_success, process_command, send_changelogs, send_component_log,
    send_component_states, send_state, send_update_started, ComponentDispatch,
};
use neutron_communicator::mqtt_connection::component_structs as comp;
use neutron_communicator::mqtt_connection::neutron_mqtt;
use neutron_communicator::mqtt_connection::neutron_structs as neutron;
use neutron_communicator::mqtt_connection::{
    init_component_mqtt, init_neutron_mqtt, reconnect_timeout_ms,
};
use neutron_communicator::remote_management::{start_ssh_server, wan_ip_command};
use neutron_communicator::settings::structs::{ComponentMqttClient, NeutronMqttClient};
use neutron_communicator::textutil::{find_char, i64_to_string, join, trim, u64_to_string};

#[test]
fn json_strings_escape_exactly_as_published() {
    assert_eq!(json_string("plain"), "\"plain\"");
    assert_eq!(json_string("a\"b"), "\"a\\\"b\"");
    assert_eq!(json_string("a\\b"), "\"a\\\\b\"");
    assert_eq!(json_string("line\nbreak\tand\r"), "\"line\\nbreak\\tand\\r\"");
    assert_eq!(json_string("ctl:\u{1}"), "\"ctl:\\u0001\"");
    assert_eq!(json_string("ctl:\u{1f}"), "\"ctl:\\u001f\"");
}

#[test]
fn command_envelopes_are_exact() {
    assert_eq!(
        command_envelope("State", "Found updates."),
        "{\"command\":\"State\",\"data\":\"Found updates.\"}"
    );
    let c = comp::Command::new(comp::CommandType::State, "hi \"there\"");
    assert_eq!(c.to_string().unwrap(), "{\"command\":\"State\",\"data\":\"hi \\\"there\\\"\"}");
    let n = neutron::Command::new(neutron::CommandType::Online, "");
    assert_eq!(n.to_string().unwrap(), "{\"command\":\"Online\",\"data\":\"\"}");
}

#[test]
fn log_responses_are_exact() {
    assert_eq!(
        log_response("r1", "some journal text"),
        "{\"request\":\"r1\",\"data\":\"some journal text\"}"
    );
}

#[test]
fn component_bus_messages() {
    let m = send_state("Looking for updates...");
    assert_eq!(m.topic, "external_interface");
    assert_eq!(m.qos, 1);
    assert_eq!(m.payload, "{\"command\":\"State\",\"data\":\"Looking for updates...\"}");

    assert_eq!(
        send_changelogs("c\r\n\r\n").payload,
        "{\"command\":\"Changelogs\",\"data\":\"c\\r\\n\\r\\n\"}"
    );
    assert_eq!(send_update_started().payload, "{\"command\":\"UpdateStarted\",\"data\":\"\"}");
    assert_eq!(
        send_component_states("{}").payload,
        "{\"command\":\"ComponentStates\",\"data\":\"{}\"}"
    );
    assert_eq!(
        send_component_log("{}").payload,
        "{\"command\":\"ComponentLog\",\"data\":\"{}\"}"
    );
}

#[test]
fn component_bus_subscriptions() {
    let subs = connection_success("client7");
    assert_eq!(subs.len(), 2);
    assert_eq!(subs[0], (String::from("neutron_communicators"), 1));
    assert_eq!(subs[1], (String::from("neutron_communicators/client7"), 1));
}

#[test]
fn component_bus_dispatch() {
    let c = |t| comp::Command::new(t, "");
    assert_eq!(
        process_command(&c(comp::CommandType::RefreshUpdateManifest)),
        ComponentDispatch::RefreshManifest
    );
    assert_eq!(
        process_command(&c(comp::CommandType::StartUpdateDownloadAndInstall)),
        ComponentDispatch::StartInstall
    );
    assert_eq!(
        process_command(&c(comp::CommandType::ComponentStates)),
        ComponentDispatch::SendComponentStates
    );
    assert_eq!(
        process_command(&c(comp::CommandType::ComponentLog)),
        ComponentDispatch::SendComponentLog
    );
    assert_eq!(process_command(&c(comp::CommandType::State)), ComponentDispatch::Ignore);
}

#[test]
fn central_bus_topics_and_dispatch() {
    assert_eq!(neutron_mqtt::own_topic("id1"), "LSOC/communicators/id1");
    assert_eq!(neutron_mqtt::own_topic_out("id1"), "LSOC/communicators/id1/out");

    let (subs, online) = neutron_mqtt::connection_success("id1");
    assert_eq!(subs[0].0, "LSOC/communicators");
    assert_eq!(subs[1].0, "LSOC/communicators/id1");
    assert_eq!(online.topic, "LSOC/communicators/id1/out");
    assert_eq!(online.payload, "{\"command\":\"Online\",\"data\":\"\"}");

    let offline = neutron_mqtt::send_state(false, "id1");
    assert_eq!(offline.payload, "{\"command\":\"Offline\",\"data\":\"\"}");

    let c = |t| neutron::Command::new(t, "ssh-ed25519 KEY");
    assert_eq!(
        neutron_mqtt::process_command(&c(neutron::CommandType::RemoteManagement)),
        neutron_mqtt::NeutronDispatch::StartSshServer
    );
    assert_eq!(
        neutron_mqtt::process_command(&c(neutron::CommandType::UpdateInstall)),
        neutron_mqtt::NeutronDispatch::Ignore
    );
}

#[test]
fn connection_plans() {
    assert_eq!(reconnect_timeout_ms(), 2500);
    let plan = init_component_mqtt(&ComponentMqttClient {
        ip: String::from("10.0.0.2"),
        port: String::from("8883"),
        username: String::from("cu"),
        password: String::from("cp"),
        cafile: String::from("/etc/ca.crt"),
    });
    assert_eq!(plan.address, "ssl://10.0.0.2:8883");
    assert_eq!(plan.client_id, "cu");
    assert_eq!(plan.keep_alive_secs, 30);
    assert!(plan.clean_session);
    assert_eq!(plan.trust_store.as_deref(), Some("/etc/ca.crt"));
    assert!(plan.will_message.is_none());

    let plan = init_neutron_mqtt(&NeutronMqttClient {
        username: String::from("nu"),
        password: String::from("np"),
    });
    assert_eq!(plan.address, "ssl://127.0.0.1:1883");
    let will = plan.will_message.unwrap();
    assert_eq!(will.topic, "LSOC/communicators/nu/out");
    assert_eq!(will.payload, "{\"command\":\"Offline\",\"data\":\"\"}");
}

#[test]
fn ssh_bootstrap_plan() {
    let plan = start_ssh_server("ssh-ed25519 KEY", "id1", "203.0.113.9");
    assert_eq!(plan.auth_file_path, "/root/.ssh/authorized_keys");
    assert_eq!(plan.key_contents, "ssh-ed25519 KEY");
    assert_eq!(plan.permissions_command, "chmod 700 /root/.ssh && chmod 600 /root/.ssh/authorized_keys");
    assert_eq!(plan.restart_command, "systemctl restart sshd");
    assert_eq!(plan.reply.topic, "LSOC/communicators/id1/out");
    assert_eq!(
        plan.reply.payload,
        "{\"command\":\"RemoteManagement\",\"data\":\"203.0.113.9\"}"
    );
    assert_eq!(wan_ip_command(), "curl https://api.ipify.org");
}

#[test]
fn text_helpers() {
    assert_eq!(u64_to_string(0), "0");
    assert_eq!(u64_to_string(90210), "90210");
    assert_eq!(i64_to_string(-365), "-365");
    assert_eq!(i64_to_string(i64::MIN), "-9223372036854775808");
    assert_eq!(join(&vec![], ","), "");
    assert_eq!(join(&vec![String::from("a")], ","), "a");
    assert_eq!(join(&vec![String::from("a"), String::from("b")], ", "), "a, b");
    assert_eq!(trim("  v1.2 \r\n"), "v1.2");
    assert_eq!(trim("\t\t"), "");
    assert_eq!(find_char("a.b", '.'), Some(1));
    assert_eq!(find_char("ab", '.'), None);
}

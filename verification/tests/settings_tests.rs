use neutron_communicator::settings::structs::{
    CACertificate, CertificatePaths, CertificateSettings, ComponentMqttClient, MainCertificate,
    NeutronMqttClient, Settings, UpdateComponent,
};
use neutron_communicator::settings::{
    get_settings_location, init, settings_wf, to_saved_document, write_default, SettingsError,
};
use neutron_communicator::settings::encryption_certificates::{
    add_certificate, append_cert_aux_paths, certificate_exists, save_certificates,
};
use neutron_communicator::settings::mqtt_connection::{save_component_creds, save_neutron_creds};
use neutron_communicator::settings::update_components::{
    add_update_component, remove_update_component,
};

fn component(name: &str) -> UpdateComponent {
    UpdateComponent {
        name: String::from(name),
        version_file_path: String::from("/etc/x.version"),
        permission_user: String::from("root"),
        permission_group: String::from("root"),
        file_permissions: String::from("700"),
        container_name: None,
        service_name: Some(String::from("x.service")),
        restart_command: String::from("sudo systemctl restart x.service"),
    }
}

fn paths(key: &str, cert: &str) -> CertificatePaths {
    CertificatePaths { key: String::from(key), cert: String::from(cert) }
}

fn main_certificate() -> MainCertificate {
    MainCertificate {
        encrypted: true,
        duration: 365,
        key_len: 2048,
        subj: String::from("/C=HR/ST=Croatia"),
        main_paths: paths("/tmp/x.key", "/tmp/x.crt"),
        auxiliary_paths: vec![],
        service_ips: vec![String::from("IP:127.0.0.1")],
        date_issued: None,
        passphrase: String::new(),
    }
}

fn certificate(name: &str) -> CertificateSettings {
    CertificateSettings {
        component_name: String::from(name),
        algorithm: String::from("rsa:2048"),
        cert_authority: None,
        main_certificate: main_certificate(),
    }
}

fn base_settings() -> Settings {
    Settings {
        neutron_account_username: String::from("acct"),
        neutron_mqtt_client: NeutronMqttClient {
            username: String::from("nu"),
            password: String::from("np"),
        },
        component_mqtt_client: ComponentMqttClient {
            ip: String::from("10.0.0.2"),
            port: String::from("8883"),
            username: String::from("cu"),
            password: String::from("cp"),
            cafile: String::from("/etc/ca.crt"),
        },
        application_name: String::from("LSOC"),
        update_branch: String::from("stable"),
        update_components: vec![component("BlackBox")],
        certificates: vec![certificate("x")],
    }
}

#[test]
fn default_document_has_stock_values() {
    let (doc, path) = write_default();
    assert_eq!(doc.application_name, "LSOC");
    assert_eq!(doc.update_branch, "stable");
    assert!(doc.update_components.is_empty());
    assert!(doc.certificates.is_empty());
    assert_eq!(path, "/etc/NeutronCommunicator/settings.json");
    assert_eq!(get_settings_location(), "/etc/NeutronCommunicator/settings.json");
}

#[test]
fn load_appends_synthetic_agent() {
    let loaded = init(base_settings());
    assert_eq!(loaded.update_components.len(), 2);
    let agent = loaded.update_components.last().unwrap();
    assert_eq!(agent.name, "NeutronCommunicator");
    assert_eq!(agent.permission_user, "root");
    assert_eq!(agent.permission_group, "root");
    assert_eq!(agent.file_permissions, "700");
    assert_eq!(agent.service_name.as_deref(), Some("neutroncommunicator.service"));
    assert!(agent.container_name.is_none());
    assert!(agent.version_file_path.is_empty());
    assert!(agent.restart_command.is_empty());
}

#[test]
fn save_strips_the_agent_round_trip() {
    let loaded = init(base_settings());
    let doc = to_saved_document(loaded);
    assert_eq!(doc.update_components.len(), 1);
    assert_eq!(doc.update_components[0].name, "BlackBox");
    let reloaded = init(doc);
    assert_eq!(reloaded.update_components.len(), 2);
    assert_eq!(reloaded.update_components[0].name, "BlackBox");
    assert_eq!(reloaded.update_components[1].name, "NeutronCommunicator");
}

#[test]
fn add_component_rejects_duplicates() {
    let s = base_settings();
    match add_update_component(s, component("BlackBox")) {
        Err(SettingsError::AlreadyExists) => {}
        _ => panic!("duplicate component accepted"),
    }
    let s = base_settings();
    let doc = add_update_component(s, component("Mosquitto")).unwrap();
    assert_eq!(doc.update_components.len(), 2);
    assert_eq!(doc.update_components[1].name, "Mosquitto");
}

#[test]
fn remove_component_by_name() {
    let s = base_settings();
    let doc = remove_update_component(s, "BlackBox").unwrap();
    assert!(doc.update_components.is_empty());
    let s = base_settings();
    match remove_update_component(s, "NoSuch") {
        Err(SettingsError::NotFound) => {}
        _ => panic!("missing component removed"),
    }
}

#[test]
fn credential_setters_replace_their_fields() {
    let doc = save_neutron_creds(base_settings(), "acct2", "user2", "pass2");
    assert_eq!(doc.neutron_account_username, "acct2");
    assert_eq!(doc.neutron_mqtt_client.username, "user2");
    assert_eq!(doc.neutron_mqtt_client.password, "pass2");

    let doc = save_component_creds(base_settings(), "10.1.1.1", "1883", "u", "p", "/ca.pem");
    assert_eq!(doc.component_mqtt_client.ip, "10.1.1.1");
    assert_eq!(doc.component_mqtt_client.port, "1883");
    assert_eq!(doc.component_mqtt_client.username, "u");
    assert_eq!(doc.component_mqtt_client.password, "p");
    assert_eq!(doc.component_mqtt_client.cafile, "/ca.pem");
}

#[test]
fn add_certificate_rejects_duplicate_names() {
    let s = base_settings();
    assert!(certificate_exists(&s, "x"));
    assert!(!certificate_exists(&s, "y"));
    match add_certificate(base_settings(), certificate("x")) {
        Err(SettingsError::AlreadyExists) => {}
        _ => panic!("duplicate certificate accepted"),
    }
    let doc = add_certificate(base_settings(), certificate("y")).unwrap();
    assert_eq!(doc.certificates.len(), 2);
    assert_eq!(doc.certificates[1].component_name, "y");
}

#[test]
fn save_certificates_replaces_the_list() {
    let doc = save_certificates(base_settings(), vec![certificate("z")]);
    assert_eq!(doc.certificates.len(), 1);
    assert_eq!(doc.certificates[0].component_name, "z");
}

#[test]
fn aux_path_population_updates_the_main_certificate() {
    // The scenario of appending a main-certificate auxiliary pair: the
    // updated record lists it under the certificate's auxiliary paths.
    let s = base_settings();
    let (updated, idx) = append_cert_aux_paths(s, "x", "main", "/tmp/a.key", "/tmp/a.crt").unwrap();
    assert_eq!(idx, 0);
    let aux = &updated.certificates[0].main_certificate.auxiliary_paths;
    assert_eq!(aux.len(), 1);
    assert_eq!(aux[0].key, "/tmp/a.key");
    assert_eq!(aux[0].cert, "/tmp/a.crt");
}

#[test]
fn aux_path_errors() {
    match append_cert_aux_paths(base_settings(), "nope", "main", "/k", "/c") {
        Err(SettingsError::NotFound) => {}
        _ => panic!("unknown component accepted"),
    }
    // "ca" requested of a self-signed certificate.
    match append_cert_aux_paths(base_settings(), "x", "ca", "/k", "/c") {
        Err(SettingsError::NotFound) => {}
        _ => panic!("ca path accepted on self-signed entry"),
    }
}

#[test]
fn aux_path_population_on_ca() {
    let mut s = base_settings();
    s.certificates[0].cert_authority = Some(CACertificate {
        encrypted: false,
        duration: 3650,
        extensions: String::from("v3_ca"),
        subj: String::from("/C=HR"),
        main_paths: paths("/tmp/ca.key", "/tmp/ca.crt"),
        auxiliary_paths: vec![],
        date_issued: None,
        passphrase: String::new(),
    });
    let (updated, _) = append_cert_aux_paths(s, "x", "ca", "/tmp/b.key", "/tmp/b.crt").unwrap();
    let ca = updated.certificates[0].cert_authority.as_ref().unwrap();
    assert_eq!(ca.auxiliary_paths.len(), 1);
    assert_eq!(ca.auxiliary_paths[0].key, "/tmp/b.key");
}

#[test]
fn well_formedness_rejects_duplicate_names() {
    assert!(settings_wf(&base_settings()));
    let mut s = base_settings();
    s.update_components.push(component("BlackBox"));
    assert!(!settings_wf(&s));
    let mut s = base_settings();
    s.certificates.push(certificate("x"));
    assert!(!settings_wf(&s));
}

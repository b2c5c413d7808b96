//! The canonical configuration record and its pieces, together with their
//! mathematical views (every string as a sequence of characters).

use vstd::prelude::*;

verus! {

/// Credentials for the central broker account.
#[derive(Clone)]
pub struct NeutronMqttClient {
    pub username: String,
    pub password: String,
}

#[verifier::ext_equal]
pub struct NeutronMqttClientView {
    pub username: Seq<char>,
    pub password: Seq<char>,
}

impl View for NeutronMqttClient {
    type V = NeutronMqttClientView;

    open spec fn view(&self) -> NeutronMqttClientView {
        NeutronMqttClientView { username: self.username@, password: self.password@ }
    }
}

/// Credentials and trust-store location for the component broker.
#[derive(Clone)]
pub struct ComponentMqttClient {
    pub ip: String,
    pub port: String,
    pub username: String,
    pub password: String,
    pub cafile: String,
}

#[verifier::ext_equal]
pub struct ComponentMqttClientView {
    pub ip: Seq<char>,
    pub port: Seq<char>,
    pub username: Seq<char>,
    pub password: Seq<char>,
    pub cafile: Seq<char>,
}

impl View for ComponentMqttClient {
    type V = ComponentMqttClientView;

    open spec fn view(&self) -> ComponentMqttClientView {
        ComponentMqttClientView {
            ip: self.ip@,
            port: self.port@,
            username: self.username@,
            password: self.password@,
            cafile: self.cafile@,
        }
    }
}

/// One component whose files and version this agent manages.
#[derive(Clone)]
pub struct UpdateComponent {
    pub name: String,
    pub version_file_path: String,
    pub permission_user: String,
    pub permission_group: String,
    pub file_permissions: String,
    pub container_name: Option<String>,
    pub service_name: Option<String>,
    pub restart_command: String,
}

#[verifier::ext_equal]
pub struct UpdateComponentView {
    pub name: Seq<char>,
    pub version_file_path: Seq<char>,
    pub permission_user: Seq<char>,
    pub permission_group: Seq<char>,
    pub file_permissions: Seq<char>,
    pub container_name: Option<Seq<char>>,
    pub service_name: Option<Seq<char>>,
    pub restart_command: Seq<char>,
}

/// View of an optional string.
pub open spec fn view_opt(o: Option<String>) -> Option<Seq<char>> {
    match o {
        Some(s) => Some(s@),
        None => None,
    }
}

impl View for UpdateComponent {
    type V = UpdateComponentView;

    open spec fn view(&self) -> UpdateComponentView {
        UpdateComponentView {
            name: self.name@,
            version_file_path: self.version_file_path@,
            permission_user: self.permission_user@,
            permission_group: self.permission_group@,
            file_permissions: self.file_permissions@,
            container_name: view_opt(self.container_name),
            service_name: view_opt(self.service_name),
            restart_command: self.restart_command@,
        }
    }
}

/// A key-file and certificate-file location pair.
#[derive(Clone)]
pub struct CertificatePaths {
    pub key: String,
    pub cert: String,
}

#[verifier::ext_equal]
pub struct CertificatePathsView {
    pub key: Seq<char>,
    pub cert: Seq<char>,
}

impl View for CertificatePaths {
    type V = CertificatePathsView;

    open spec fn view(&self) -> CertificatePathsView {
        CertificatePathsView { key: self.key@, cert: self.cert@ }
    }
}

/// Certificate-authority material settings; presence makes the leaf CA-signed.
#[derive(Clone)]
pub struct CACertificate {
    pub encrypted: bool,
    pub duration: i64,
    pub extensions: String,
    pub subj: String,
    pub main_paths: CertificatePaths,
    pub auxiliary_paths: Vec<CertificatePaths>,
    pub date_issued: Option<String>,
    pub passphrase: String,
}

#[verifier::ext_equal]
pub struct CACertificateView {
    pub encrypted: bool,
    pub duration: int,
    pub extensions: Seq<char>,
    pub subj: Seq<char>,
    pub main_paths: CertificatePathsView,
    pub auxiliary_paths: Seq<CertificatePathsView>,
    pub date_issued: Option<Seq<char>>,
    pub passphrase: Seq<char>,
}

impl View for CACertificate {
    type V = CACertificateView;

    open spec fn view(&self) -> CACertificateView {
        CACertificateView {
            encrypted: self.encrypted,
            duration: self.duration as int,
            extensions: self.extensions@,
            subj: self.subj@,
            main_paths: self.main_paths@,
            auxiliary_paths: self.auxiliary_paths@.map_values(|p: CertificatePaths| p@),
            date_issued: view_opt(self.date_issued),
            passphrase: self.passphrase@,
        }
    }
}

/// Leaf certificate material settings.
#[derive(Clone)]
pub struct MainCertificate {
    pub encrypted: bool,
    pub duration: i64,
    pub key_len: i64,
    pub subj: String,
    pub main_paths: CertificatePaths,
    pub auxiliary_paths: Vec<CertificatePaths>,
    pub service_ips: Vec<String>,
    pub date_issued: Option<String>,
    pub passphrase: String,
}

#[verifier::ext_equal]
pub struct MainCertificateView {
    pub encrypted: bool,
    pub duration: int,
    pub key_len: int,
    pub subj: Seq<char>,
    pub main_paths: CertificatePathsView,
    pub auxiliary_paths: Seq<CertificatePathsView>,
    pub service_ips: Seq<Seq<char>>,
    pub date_issued: Option<Seq<char>>,
    pub passphrase: Seq<char>,
}

impl View for MainCertificate {
    type V = MainCertificateView;

    open spec fn view(&self) -> MainCertificateView {
        MainCertificateView {
            encrypted: self.encrypted,
            duration: self.duration as int,
            key_len: self.key_len as int,
            subj: self.subj@,
            main_paths: self.main_paths@,
            auxiliary_paths: self.auxiliary_paths@.map_values(|p: CertificatePaths| p@),
            service_ips: self.service_ips@.map_values(|s: String| s@),
            date_issued: view_opt(self.date_issued),
            passphrase: self.passphrase@,
        }
    }
}

/// The certificate configuration for one component.
#[derive(Clone)]
pub struct CertificateSettings {
    pub component_name: String,
    pub algorithm: String,
    pub cert_authority: Option<CACertificate>,
    pub main_certificate: MainCertificate,
}

#[verifier::ext_equal]
pub struct CertificateSettingsView {
    pub component_name: Seq<char>,
    pub algorithm: Seq<char>,
    pub cert_authority: Option<CACertificateView>,
    pub main_certificate: MainCertificateView,
}

impl View for CertificateSettings {
    type V = CertificateSettingsView;

    open spec fn view(&self) -> CertificateSettingsView {
        CertificateSettingsView {
            component_name: self.component_name@,
            algorithm: self.algorithm@,
            cert_authority: match self.cert_authority {
                Some(ca) => Some(ca@),
                None => None,
            },
            main_certificate: self.main_certificate@,
        }
    }
}

/// The whole durable configuration record.
#[derive(Clone)]
pub struct Settings {
    pub neutron_account_username: String,
    pub neutron_mqtt_client: NeutronMqttClient,
    pub component_mqtt_client: ComponentMqttClient,
    pub application_name: String,
    pub update_branch: String,
    pub update_components: Vec<UpdateComponent>,
    pub certificates: Vec<CertificateSettings>,
}

#[verifier::ext_equal]
pub struct SettingsView {
    pub neutron_account_username: Seq<char>,
    pub neutron_mqtt_client: NeutronMqttClientView,
    pub component_mqtt_client: ComponentMqttClientView,
    pub application_name: Seq<char>,
    pub update_branch: Seq<char>,
    pub update_components: Seq<UpdateComponentView>,
    pub certificates: Seq<CertificateSettingsView>,
}

impl View for Settings {
    type V = SettingsView;

    open spec fn view(&self) -> SettingsView {
        SettingsView {
            neutron_account_username: self.neutron_account_username@,
            neutron_mqtt_client: self.neutron_mqtt_client@,
            component_mqtt_client: self.component_mqtt_client@,
            application_name: self.application_name@,
            update_branch: self.update_branch@,
            update_components: self.update_components@.map_values(|c: UpdateComponent| c@),
            certificates: self.certificates@.map_values(|c: CertificateSettings| c@),
        }
    }
}

/// The freshly generated record: empty credentials, the stock application
/// name and branch, and no components or certificates.
pub open spec fn spec_default_settings() -> SettingsView {
    SettingsView {
        neutron_account_username: Seq::<char>::empty(),
        neutron_mqtt_client: NeutronMqttClientView {
            username: Seq::<char>::empty(),
            password: Seq::<char>::empty(),
        },
        component_mqtt_client: ComponentMqttClientView {
            ip: Seq::<char>::empty(),
            port: Seq::<char>::empty(),
            username: Seq::<char>::empty(),
            password: Seq::<char>::empty(),
            cafile: Seq::<char>::empty(),
        },
        application_name: "LSOC"@,
        update_branch: "stable"@,
        update_components: Seq::<UpdateComponentView>::empty(),
        certificates: Seq::<CertificateSettingsView>::empty(),
    }
}

impl Default for Settings {
    /// The freshly generated record: empty credentials, the stock
    /// application name and branch, and no components or certificates.
    fn default() -> (r: Settings)
        ensures
            r@ == spec_default_settings(),
    {
        let r = Settings {
            neutron_account_username: String::new(),
            neutron_mqtt_client: NeutronMqttClient {
                username: String::new(),
                password: String::new(),
            },
            component_mqtt_client: ComponentMqttClient {
                ip: String::new(),
                port: String::new(),
                username: String::new(),
                password: String::new(),
                cafile: String::new(),
            },
            application_name: String::from_str("LSOC"),
            update_branch: String::from_str("stable"),
            update_components: Vec::new(),
            certificates: Vec::new(),
        };
        proof {
            assert(r.update_components@.map_values(|c: UpdateComponent| c@) =~= Seq::<
                UpdateComponentView,
            >::empty());
            assert(r.certificates@.map_values(|c: CertificateSettings| c@) =~= Seq::<
                CertificateSettingsView,
            >::empty());
            assert(r@ =~= spec_default_settings());
        }
        r
    }
}

} // verus!

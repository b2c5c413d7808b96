use neutron_communicator::encryption_certificates::{
    csr_path, gen_csr_sign_with_ca, gen_csr_sign_with_key, generate_ca, generate_certificate,
    rand_passphrase, CertAction, CertError,
};
use neutron_communicator::settings::structs::{
    CACertificate, CertificatePaths, CertificateSettings, MainCertificate,
};

fn paths(key: &str, cert: &str) -> CertificatePaths {
    CertificatePaths { key: String::from(key), cert: String::from(cert) }
}

fn ca_config(encrypted: bool) -> CACertificate {
    CACertificate {
        encrypted,
        duration: 3650,
        extensions: String::from("v3_ca"),
        subj: String::from("/C=HR/ST=Croatia/L=Zagreb/CN=127.0.0.1"),
        main_paths: paths("/tmp/ca.key", "/tmp/ca.crt"),
        auxiliary_paths: vec![paths("/tmp/aux_ca.key", "/tmp/aux_ca.crt")],
        date_issued: None,
        passphrase: String::new(),
    }
}

fn self_signed() -> CertificateSettings {
    CertificateSettings {
        component_name: String::from("x"),
        algorithm: String::from("rsa:2048"),
        cert_authority: None,
        main_certificate: MainCertificate {
            encrypted: true,
            duration: 365,
            key_len: 2048,
            subj: String::from("/C=HR/ST=Croatia"),
            main_paths: paths("/tmp/x.key", "/tmp/x.crt"),
            auxiliary_paths: vec![paths("/tmp/aux.key", "/tmp/aux.crt")],
            service_ips: vec![String::from("IP:127.0.0.1")],
            date_issued: None,
            passphrase: String::new(),
        },
    }
}

fn is_alphanumeric_ascii(s: &str) -> bool {
    s.chars().all(|c| c.is_ascii_alphanumeric())
}

#[test]
fn passphrases_are_twenty_alphanumerics() {
    let a = rand_passphrase();
    let b = rand_passphrase();
    assert_eq!(a.chars().count(), 20);
    assert!(is_alphanumeric_ascii(&a));
    // Two draws almost surely differ; equality would mean the source is
    // not random at all.
    assert_ne!(a, b);
}

#[test]
fn self_signed_generation_end_to_end_plan() {
    // The self-signed scenario: one OpenSSL call with the configured
    // subject and days, a fresh 20-character passphrase, and the mirroring
    // of key and certificate to the auxiliary pair.
    let cert = self_signed();
    let (plan, passphrase) = generate_certificate(&cert, false).unwrap();
    assert_eq!(passphrase.chars().count(), 20);
    assert!(is_alphanumeric_ascii(&passphrase));
    assert_eq!(plan.len(), 3);
    match &plan[0] {
        CertAction::Run(argv) => {
            let expected: Vec<String> = [
                "openssl",
                "req",
                "-newkey",
                "rsa:2048",
                "-keyout",
                "/tmp/x.key",
                "-x509",
                "-days",
                "365",
                "-out",
                "/tmp/x.crt",
                "-subj",
                "/C=HR/ST=Croatia",
                "-passout",
            ]
            .iter()
            .map(|s| String::from(*s))
            .chain([format!("pass:{}", passphrase)])
            .collect();
            assert_eq!(argv, &expected);
        }
        _ => panic!("generation call lost"),
    }
    match &plan[1] {
        CertAction::CopyFile { from, to } => {
            assert_eq!(from, "/tmp/x.key");
            assert_eq!(to, "/tmp/aux.key");
        }
        _ => panic!("key mirror lost"),
    }
    match &plan[2] {
        CertAction::CopyFile { from, to } => {
            assert_eq!(from, "/tmp/x.crt");
            assert_eq!(to, "/tmp/aux.crt");
        }
        _ => panic!("certificate mirror lost"),
    }
}

#[test]
fn aux_population_is_idempotent_copying() {
    // Populating auxiliary paths twice plans the identical copies and
    // never an OpenSSL call: the main paths are only read.
    let cert = self_signed();
    let (first, p1) = generate_certificate(&cert, true).unwrap();
    let (second, p2) = generate_certificate(&cert, true).unwrap();
    assert!(p1.is_empty());
    assert!(p2.is_empty());
    assert_eq!(first.len(), 2);
    assert_eq!(first.len(), second.len());
    for (a, b) in first.iter().zip(second.iter()) {
        match (a, b) {
            (
                CertAction::CopyFile { from: f1, to: t1 },
                CertAction::CopyFile { from: f2, to: t2 },
            ) => {
                assert_eq!(f1, f2);
                assert_eq!(t1, t2);
                assert!(f1 == "/tmp/x.key" || f1 == "/tmp/x.crt");
            }
            _ => panic!("a populate-only plan may hold nothing but copies"),
        }
    }
}

#[test]
fn empty_paths_are_not_mirrored() {
    let mut cert = self_signed();
    cert.main_certificate.auxiliary_paths = vec![paths("", "/tmp/aux.crt")];
    let (plan, _) = generate_certificate(&cert, true).unwrap();
    assert_eq!(plan.len(), 1);
    match &plan[0] {
        CertAction::CopyFile { from, .. } => assert_eq!(from, "/tmp/x.crt"),
        _ => panic!("copy lost"),
    }
}

#[test]
fn ca_generation_plan() {
    let ca = ca_config(false);
    let (plan, passphrase) = generate_ca("x", &ca, false);
    assert!(passphrase.is_empty());
    assert_eq!(plan.len(), 3);
    match &plan[0] {
        CertAction::Run(argv) => {
            assert_eq!(
                argv,
                &vec![
                    String::from("openssl"),
                    String::from("req"),
                    String::from("-new"),
                    String::from("-x509"),
                    String::from("-nodes"),
                    String::from("-days"),
                    String::from("3650"),
                    String::from("-extensions"),
                    String::from("v3_ca"),
                    String::from("-keyout"),
                    String::from("/tmp/ca.key"),
                    String::from("-out"),
                    String::from("/tmp/ca.crt"),
                    String::from("-subj"),
                    String::from("/C=HR/ST=Croatia/L=Zagreb/CN=127.0.0.1"),
                ]
            );
        }
        _ => panic!("generation call lost"),
    }
    let (aux_only, p) = generate_ca("x", &ca, true);
    assert!(p.is_empty());
    assert_eq!(aux_only.len(), 2);
    assert!(matches!(aux_only[0], CertAction::CopyFile { .. }));
}

#[test]
fn ca_signed_generation_uses_san_extension() {
    let mut cert = self_signed();
    cert.cert_authority = Some(ca_config(true));
    let (plan, passphrase) = generate_certificate(&cert, false).unwrap();
    assert_eq!(passphrase.chars().count(), 20);
    // genrsa, CSR, signing, CSR removal, two mirrors.
    assert_eq!(plan.len(), 6);
    match &plan[0] {
        CertAction::Run(argv) => {
            assert_eq!(argv[0], "openssl");
            assert_eq!(argv[1], "genrsa");
            assert_eq!(argv[2], "-aes256");
            assert_eq!(argv[3], "-out");
            assert_eq!(argv[4], "/tmp/x.key");
            assert_eq!(argv[5], "-passout");
            assert_eq!(argv[6], format!("pass:{}", passphrase));
            assert_eq!(argv[7], "2048");
        }
        _ => panic!("key call lost"),
    }
    match &plan[1] {
        CertAction::Run(argv) => {
            assert_eq!(
                argv,
                &vec![
                    String::from("openssl"),
                    String::from("req"),
                    String::from("-out"),
                    String::from("/tmp/x.csr"),
                    String::from("-key"),
                    String::from("/tmp/x.key"),
                    String::from("-new"),
                    String::from("-subj"),
                    String::from("/C=HR/ST=Croatia"),
                    String::from("-passin"),
                    format!("pass:{}", passphrase),
                ]
            );
        }
        _ => panic!("csr call lost"),
    }
    match &plan[2] {
        CertAction::RunWithSan { pre, san_contents, post } => {
            assert_eq!(pre[0], "openssl");
            assert_eq!(pre[1], "x509");
            assert_eq!(san_contents, "\n[SAN]\nsubjectAltName=IP:127.0.0.1");
            assert_eq!(post[0], "-days");
            assert_eq!(post[1], "365");
            assert_eq!(post[2], "-passin");
        }
        _ => panic!("signing call lost"),
    }
    assert!(matches!(&plan[3], CertAction::RemoveFile(p) if p == "/tmp/x.csr"));
}

#[test]
fn ca_signed_generation_errors() {
    let mut cert = self_signed();
    cert.cert_authority = Some(ca_config(false));
    cert.main_certificate.key_len = 0;
    assert_eq!(generate_certificate(&cert, false).unwrap_err(), CertError::InvalidKeyLength);

    let mut cert = self_signed();
    cert.cert_authority = Some(ca_config(false));
    cert.main_certificate.main_paths.key = String::from("/tmp/nodotkey");
    assert_eq!(generate_certificate(&cert, false).unwrap_err(), CertError::NoFileExtension);

    let cert = self_signed();
    assert_eq!(gen_csr_sign_with_ca(&cert, "").unwrap_err(), CertError::MissingCa);
}

#[test]
fn csr_path_takes_the_prefix_before_the_first_dot() {
    assert_eq!(csr_path("/tmp/x.key").unwrap(), "/tmp/x.csr");
    assert_eq!(csr_path("/etc/ca.v2.key").unwrap(), "/etc/ca.csr");
    assert_eq!(csr_path("/tmp/nodot").unwrap_err(), CertError::NoFileExtension);
}

#[test]
fn key_renewal_plan() {
    let plan =
        gen_csr_sign_with_key("x", "/tmp/x.key", false, "/C=HR", "", 30, "/tmp/x.crt").unwrap();
    assert_eq!(plan.len(), 3);
    match &plan[1] {
        CertAction::Run(argv) => {
            assert_eq!(
                argv,
                &vec![
                    String::from("openssl"),
                    String::from("x509"),
                    String::from("-req"),
                    String::from("-days"),
                    String::from("30"),
                    String::from("-in"),
                    String::from("/tmp/x.csr"),
                    String::from("-signkey"),
                    String::from("/tmp/x.key"),
                    String::from("-out"),
                    String::from("/tmp/x.crt"),
                ]
            );
        }
        _ => panic!("signing call lost"),
    }
    assert!(matches!(&plan[2], CertAction::RemoveFile(p) if p == "/tmp/x.csr"));
}

use neutron_communicator::encryption_certificates::watchdog::{
    datetime_to_secs, datetime_valid, days_between, format_datetime, materialization_action,
    parse_datetime, renewal_due, secs_to_datetime, startup_materialization, watchdog_retains,
    watchdog_timeout_secs, DateTime, MaterializeAction,
};
use neutron_communicator::settings::structs::{
    CertificatePaths, CertificateSettings, MainCertificate,
};

fn dt(year: i64, month: i64, day: i64, hour: i64, minute: i64, second: i64) -> DateTime {
    DateTime { year, month, day, hour, minute, second }
}

#[test]
fn parsing_accepts_the_fixed_format_only() {
    assert_eq!(parse_datetime("2009-02-13 23:31:30"), Some(dt(2009, 2, 13, 23, 31, 30)));
    assert_eq!(parse_datetime("2009-02-13T23:31:30"), None);
    assert_eq!(parse_datetime("2009-02-13 23:31"), None);
    assert_eq!(parse_datetime("2009-13-01 00:00:00"), None);
    assert_eq!(parse_datetime("2009-00-01 00:00:00"), None);
    assert_eq!(parse_datetime("2009-02-30 00:00:00"), None);
    assert_eq!(parse_datetime("2009-01-01 24:00:00"), None);
    assert_eq!(parse_datetime("not a date at all!!"), None);
}

#[test]
fn leap_years_are_respected() {
    assert!(parse_datetime("2024-02-29 00:00:00").is_some());
    assert_eq!(parse_datetime("2023-02-29 00:00:00"), None);
    assert!(parse_datetime("2000-02-29 00:00:00").is_some());
    assert_eq!(parse_datetime("1900-02-29 00:00:00"), None);
}

#[test]
fn epoch_arithmetic_is_exact() {
    assert_eq!(datetime_to_secs(&dt(1970, 1, 1, 0, 0, 0)), 0);
    assert_eq!(datetime_to_secs(&dt(2009, 2, 13, 23, 31, 30)), 1234567890);
    assert_eq!(datetime_to_secs(&dt(1969, 12, 31, 23, 59, 59)), -1);
    assert_eq!(datetime_to_secs(&dt(2038, 1, 19, 3, 14, 8)), 2147483648);
}

#[test]
fn formatting_round_trips() {
    let stamp = dt(2024, 2, 29, 7, 5, 9);
    assert!(datetime_valid(&stamp));
    let s = format_datetime(&stamp);
    assert_eq!(s, "2024-02-29 07:05:09");
    assert_eq!(parse_datetime(&s), Some(stamp));
}

#[test]
fn day_differences_truncate_towards_zero() {
    assert_eq!(days_between(86400 * 25 + 3, 0), 25);
    assert_eq!(days_between(86399, 0), 0);
    assert_eq!(days_between(0, 86400 * 3 + 1), -3);
}

#[test]
fn renewal_is_due_ten_days_before_expiry() {
    // The renewal-due scenario: a 30-day certificate issued 25 days ago is
    // inside the renewal margin.
    let issued = dt(2024, 1, 1, 12, 0, 0);
    let issued_secs = datetime_to_secs(&issued);
    let date_issued = format_datetime(&issued);
    let now = issued_secs + 25 * 86400;
    assert_eq!(renewal_due(&date_issued, now, 30), Some(true));
    // Nineteen days in, the same certificate still waits.
    assert_eq!(renewal_due(&date_issued, issued_secs + 19 * 86400, 30), Some(false));
    // Exactly at the margin it is due.
    assert_eq!(renewal_due(&date_issued, issued_secs + 20 * 86400, 30), Some(true));
    // An unparseable record is reported, not acted on.
    assert_eq!(renewal_due("yesterday-ish", now, 30), None);
}

#[test]
fn startup_materialization_rules() {
    assert_eq!(materialization_action(false, true, false), MaterializeAction::GenerateFull);
    assert_eq!(materialization_action(true, false, false), MaterializeAction::GenerateFull);
    assert_eq!(materialization_action(true, true, true), MaterializeAction::PopulateAux);
    assert_eq!(materialization_action(true, true, false), MaterializeAction::Nothing);
}

#[test]
fn watchdog_keeps_only_certificates_with_parseable_dates() {
    let mut cert = CertificateSettings {
        component_name: String::from("x"),
        algorithm: String::from("rsa:2048"),
        cert_authority: None,
        main_certificate: MainCertificate {
            encrypted: false,
            duration: 30,
            key_len: 2048,
            subj: String::from("/C=HR"),
            main_paths: CertificatePaths {
                key: String::from("/tmp/x.key"),
                cert: String::from("/tmp/x.crt"),
            },
            auxiliary_paths: vec![],
            service_ips: vec![],
            date_issued: None,
            passphrase: String::new(),
        },
    };
    assert!(!watchdog_retains(&cert));
    cert.main_certificate.date_issued = Some(String::from("garbled"));
    assert!(!watchdog_retains(&cert));
    cert.main_certificate.date_issued = Some(format_datetime(&dt(2024, 1, 1, 0, 0, 0)));
    assert!(watchdog_retains(&cert));
}

#[test]
fn watchdog_sleeps_one_day() {
    assert_eq!(watchdog_timeout_secs(), 86400);
}

#[test]
fn calendar_form_of_epoch_seconds() {
    assert_eq!(secs_to_datetime(0), Some(dt(1970, 1, 1, 0, 0, 0)));
    assert_eq!(secs_to_datetime(1234567890), Some(dt(2009, 2, 13, 23, 31, 30)));
    assert_eq!(secs_to_datetime(-1), None);
    let leap_day = datetime_to_secs(&dt(2024, 2, 29, 12, 30, 45));
    assert_eq!(secs_to_datetime(leap_day), Some(dt(2024, 2, 29, 12, 30, 45)));
}

#[test]
fn a_missing_ca_regenerates_the_leaf_too() {
    // CA main files missing: both pairs are regenerated, whatever leaf
    // files exist.
    assert_eq!(
        startup_materialization(true, false, true, false, true, true, false),
        (MaterializeAction::GenerateFull, MaterializeAction::GenerateFull)
    );
    // CA intact, an auxiliary missing on each side.
    assert_eq!(
        startup_materialization(true, true, true, true, true, true, true),
        (MaterializeAction::PopulateAux, MaterializeAction::PopulateAux)
    );
    // CA intact and complete; leaf missing.
    assert_eq!(
        startup_materialization(true, true, true, false, false, false, false),
        (MaterializeAction::Nothing, MaterializeAction::GenerateFull)
    );
    // Self-signed entry: the CA side does nothing, the leaf decides alone.
    assert_eq!(
        startup_materialization(false, false, false, false, true, true, false),
        (MaterializeAction::Nothing, MaterializeAction::Nothing)
    );
    assert_eq!(
        startup_materialization(false, false, false, false, true, false, false),
        (MaterializeAction::Nothing, MaterializeAction::GenerateFull)
    );
}

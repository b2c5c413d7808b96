//! Certificate-list mutators.  The generation of actual key and certificate
//! material is planned elsewhere; these functions only validate and rewrite
//! the record, returning what must go to disk.

use vstd::prelude::*;

use super::SettingsError;
use super::lemma_saved_document_wf;
use super::spec_has_certificate;
use super::spec_settings_wf;
use super::spec_strip_agent;
use super::to_saved_document;
use super::structs::CertificatePaths;
use super::structs::CertificatePathsView;
use super::structs::CertificateSettings;
use super::structs::CertificateSettingsView;
use super::structs::CACertificateView;
use super::structs::MainCertificateView;
use super::structs::Settings;
use super::structs::SettingsView;

verus! {

/// Position of the first certificate entry with the given component name,
/// or -1.
pub open spec fn spec_first_certificate_index(
    cs: Seq<CertificateSettingsView>,
    name: Seq<char>,
) -> int
    decreases cs.len(),
{
    if cs.len() == 0 {
        -1
    } else if cs[0].component_name == name {
        0
    } else if spec_first_certificate_index(cs.drop_first(), name) == -1 {
        -1
    } else {
        spec_first_certificate_index(cs.drop_first(), name) + 1
    }
}

pub proof fn lemma_first_certificate_index(cs: Seq<CertificateSettingsView>, name: Seq<char>)
    ensures
        spec_first_certificate_index(cs, name) == -1 <==> !spec_has_certificate(cs, name),
        spec_first_certificate_index(cs, name) != -1 ==> {
            let k = spec_first_certificate_index(cs, name);
            &&& 0 <= k < cs.len()
            &&& cs[k].component_name == name
            &&& forall|j: int| 0 <= j < k ==> cs[j].component_name != name
        },
    decreases cs.len(),
{
    if cs.len() == 0 {
    } else if cs[0].component_name == name {
    } else {
        lemma_first_certificate_index(cs.drop_first(), name);
        let rest = cs.drop_first();
        if spec_first_certificate_index(rest, name) == -1 {
            assert forall|i: int| 0 <= i < cs.len() implies cs[i].component_name != name by {
                if i > 0 {
                    assert(cs[i] == rest[i - 1]);
                }
            }
        } else {
            let k = spec_first_certificate_index(rest, name);
            assert(cs[k + 1] == rest[k]);
            assert forall|j: int| 0 <= j < k + 1 implies cs[j].component_name != name by {
                if j > 0 {
                    assert(cs[j] == rest[j - 1]);
                }
            }
        }
    }
}

/// The entry with one more auxiliary path pair on its CA certificate.
pub open spec fn spec_with_ca_aux_path(
    c: CertificateSettingsView,
    p: CertificatePathsView,
) -> CertificateSettingsView {
    CertificateSettingsView {
        cert_authority: Some(
            (CACertificateView {
                auxiliary_paths: c.cert_authority->0.auxiliary_paths.push(p),
                ..c.cert_authority->0
            }),
        ),
        ..c
    }
}

/// The entry with one more auxiliary path pair on its main certificate.
pub open spec fn spec_with_main_aux_path(
    c: CertificateSettingsView,
    p: CertificatePathsView,
) -> CertificateSettingsView {
    CertificateSettingsView {
        main_certificate: (MainCertificateView {
            auxiliary_paths: c.main_certificate.auxiliary_paths.push(p),
            ..c.main_certificate
        }),
        ..c
    }
}

/// Replaces the whole certificate list and returns the document to persist.
pub fn save_certificates(settings: Settings, certificates: Vec<CertificateSettings>) -> (doc:
    Settings)
    ensures
        doc@ == spec_strip_agent(
            (SettingsView {
                certificates: certificates@.map_values(|c: CertificateSettings| c@),
                ..settings@
            }),
        ),
{
    let mut s = settings;
    s.certificates = certificates;
    proof {
        assert(s@ =~= (SettingsView {
            certificates: s.certificates@.map_values(|c: CertificateSettings| c@),
            ..settings@
        }));
    }
    to_saved_document(s)
}

/// Whether some certificate entry carries the given component name.
pub fn certificate_exists(settings: &Settings, component_name: &str) -> (r: bool)
    ensures
        r == spec_has_certificate(settings@.certificates, component_name@),
{
    let needle = component_name.to_owned();
    let n = settings.certificates.len();
    let mut i: usize = 0;
    let ghost cs = settings.certificates@.map_values(|c: CertificateSettings| c@);
    while i < n
        invariant
            i <= n,
            n == settings.certificates@.len(),
            needle@ == component_name@,
            cs == settings.certificates@.map_values(|c: CertificateSettings| c@),
            forall|j: int| 0 <= j < i ==> cs[j].component_name != component_name@,
        decreases n - i,
    {
        if settings.certificates[i].component_name == needle {
            proof {
                assert(cs[i as int] == settings.certificates@[i as int]@);
                assert(spec_has_certificate(cs, component_name@));
            }
            return true;
        }
        i = i + 1;
    }
    false
}

/// Inserts a certificate entry whose component name is not yet present and
/// returns the document to persist.  The caller is expected to have filled
/// in any passphrases produced while generating the material.
pub fn add_certificate(settings: Settings, certificate: CertificateSettings) -> (r: Result<
    Settings,
    SettingsError,
>)
    requires
        spec_settings_wf(settings@),
    ensures
        match r {
            Ok(doc) => {
                &&& !spec_has_certificate(settings@.certificates, certificate@.component_name)
                &&& doc@ == spec_strip_agent(
                    (SettingsView {
                        certificates: settings@.certificates.push(certificate@),
                        ..settings@
                    }),
                )
                &&& spec_settings_wf(doc@)
            },
            Err(e) => {
                &&& e == SettingsError::AlreadyExists
                &&& spec_has_certificate(settings@.certificates, certificate@.component_name)
            },
        },
{
    if certificate_exists(&settings, certificate.component_name.as_str()) {
        return Err(SettingsError::AlreadyExists);
    }
    let mut s = settings;
    let ghost orig = s@;
    let ghost cs = s.certificates@.map_values(|c: CertificateSettings| c@);
    let ghost pushed = SettingsView { certificates: cs.push(certificate@), ..orig };
    s.certificates.push(certificate);
    proof {
        assert(s.certificates@.map_values(|c: CertificateSettings| c@) =~= cs.push(
            certificate@,
        ));
        assert(s@ =~= pushed);
        assert(spec_settings_wf(pushed));
        lemma_saved_document_wf(pushed);
    }
    Ok(to_saved_document(s))
}

/// Adds an auxiliary path pair to the CA or main certificate of the entry
/// with the given component name.  Returns the updated in-memory record
/// (not yet stripped for saving) together with the index of the entry it
/// changed, so that the caller can regenerate the auxiliary material before
/// persisting.  Fails when no entry carries the name, or when a CA path is
/// requested of a self-signed entry.
pub fn append_cert_aux_paths(
    settings: Settings,
    component_name: &str,
    cert_type: &str,
    key_path: &str,
    cert_path: &str,
) -> (r: Result<(Settings, usize), SettingsError>)
    requires
        spec_settings_wf(settings@),
    ensures
        match r {
            Ok((s2, k)) => {
                let cs = settings@.certificates;
                let p = (CertificatePathsView { key: key_path@, cert: cert_path@ });
                &&& spec_has_certificate(cs, component_name@)
                &&& k == spec_first_certificate_index(cs, component_name@)
                &&& (cert_type@ == "ca"@ ==> cs[k as int].cert_authority is Some && s2@
                    == (SettingsView {
                    certificates: cs.update(k as int, spec_with_ca_aux_path(cs[k as int], p)),
                    ..settings@
                }))
                &&& (cert_type@ != "ca"@ ==> s2@ == (SettingsView {
                    certificates: cs.update(k as int, spec_with_main_aux_path(cs[k as int], p)),
                    ..settings@
                }))
            },
            Err(e) => {
                let cs = settings@.certificates;
                &&& e == SettingsError::NotFound
                &&& (!spec_has_certificate(cs, component_name@) || (cert_type@ == "ca"@
                    && cs[spec_first_certificate_index(cs, component_name@)].cert_authority
                    is None))
            },
        },
{
    let mut s = settings;
    let ghost orig = s@;
    let needle = component_name.to_owned();
    let ca_kind = String::from_str("ca");
    let is_ca = cert_type.to_owned() == ca_kind;
    let n = s.certificates.len();
    let mut i: usize = 0;
    let ghost cs = s.certificates@.map_values(|c: CertificateSettings| c@);
    while i < n
        invariant
            i <= n,
            n == s.certificates@.len(),
            orig == settings@,
            orig == s@,
            needle@ == component_name@,
            is_ca == (cert_type@ == "ca"@),
            cs == s.certificates@.map_values(|c: CertificateSettings| c@),
            forall|j: int| 0 <= j < i ==> cs[j].component_name != component_name@,
        decreases n - i,
    {
        if s.certificates[i].component_name == needle {
            proof {
                lemma_first_certificate_index(cs, component_name@);
                assert(cs[i as int] == s.certificates@[i as int]@);
                assert(spec_first_certificate_index(cs, component_name@) == i);
                assert(spec_has_certificate(cs, component_name@));
            }
            let pair = CertificatePaths { key: key_path.to_owned(), cert: cert_path.to_owned() };
            let ghost pv = (CertificatePathsView { key: key_path@, cert: cert_path@ });
            let mut c = s.certificates.remove(i);
            let ghost cv = cs[i as int];
            if is_ca {
                let ca_opt = c.cert_authority;
                match ca_opt {
                    Some(mut ca) => {
                        let ghost ca_before = ca@;
                        ca.auxiliary_paths.push(pair);
                        proof {
                            assert(ca.auxiliary_paths@.map_values(|q: CertificatePaths| q@)
                                =~= ca_before.auxiliary_paths.push(pv));
                            assert(ca@ =~= (CACertificateView {
                                auxiliary_paths: ca_before.auxiliary_paths.push(pv),
                                ..ca_before
                            }));
                        }
                        c.cert_authority = Some(ca);
                        proof {
                            assert(c@ =~= spec_with_ca_aux_path(cv, pv));
                        }
                    },
                    None => {
                        return Err(SettingsError::NotFound);
                    },
                }
            } else {
                let ghost main_before = c.main_certificate@;
                c.main_certificate.auxiliary_paths.push(pair);
                proof {
                    assert(c.main_certificate.auxiliary_paths@.map_values(
                        |q: CertificatePaths| q@,
                    ) =~= main_before.auxiliary_paths.push(pv));
                    assert(c.main_certificate@ =~= (MainCertificateView {
                        auxiliary_paths: main_before.auxiliary_paths.push(pv),
                        ..main_before
                    }));
                    assert(c@ =~= spec_with_main_aux_path(cv, pv));
                }
            }
            s.certificates.insert(i, c);
            proof {
                assert(s.certificates@.map_values(|q: CertificateSettings| q@) =~= cs.update(
                    i as int,
                    c@,
                ));
                if is_ca {
                    assert(s@ =~= (SettingsView {
                        certificates: cs.update(i as int, spec_with_ca_aux_path(cv, pv)),
                        ..orig
                    }));
                } else {
                    assert(s@ =~= (SettingsView {
                        certificates: cs.update(i as int, spec_with_main_aux_path(cv, pv)),
                        ..orig
                    }));
                }
            }
            return Ok((s, i));
        }
        i = i + 1;
    }
    proof {
        assert(forall|j: int| 0 <= j < cs.len() ==> cs[j].component_name != component_name@);
    }
    Err(SettingsError::NotFound)
}

} // verus!

//! Certificate operations: the exact OpenSSL invocations and file copies
//! that generate, sign and distribute key material.
//!
//! Each operation is returned as an ordered plan of actions; the program
//! around the library spawns the processes and copies the files.  A failed
//! spawn fails the operation; OpenSSL's own chatter on standard error does
//! not.

use vstd::prelude::*;

use crate::settings::structs::CACertificate;
use crate::settings::structs::CACertificateView;
use crate::settings::structs::CertificatePaths;
use crate::settings::structs::CertificatePathsView;
use crate::settings::structs::CertificateSettings;
use crate::settings::structs::CertificateSettingsView;
use crate::textutil::find_char;
use crate::textutil::i64_to_string;
use crate::textutil::join;
use crate::textutil::lemma_char_index;
use crate::textutil::spec_char_index;
use crate::textutil::spec_i64_string;
use crate::textutil::spec_join;
use crate::textutil::spec_views;

pub mod structs;
pub mod watchdog;

verus! {

/// Why a certificate operation cannot even be planned.
#[derive(Clone, Copy, Debug, PartialEq, Eq, Structural)]
pub enum CertError {
    /// The configured key length is not positive.
    InvalidKeyLength,
    /// A signing-key path carries no file extension, so no CSR path can be
    /// derived from it.
    NoFileExtension,
    /// A CA-signing step was asked of an entry without CA settings.
    MissingCa,
}

/// One step of a certificate operation, in execution order.
#[derive(Debug)]
pub enum CertAction {
    /// Spawn the program named first with the following arguments.
    Run(Vec<String>),
    /// As `Run` of `pre`, but first write `san_contents` to a fresh
    /// temporary file and insert `-extfile <that file> -extensions SAN`
    /// between `pre` and `post`.
    RunWithSan { pre: Vec<String>, san_contents: String, post: Vec<String> },
    /// Copy the file at `from` to `to`.
    CopyFile { from: String, to: String },
    /// Remove the file (a spent CSR).
    RemoveFile(String),
}

#[verifier::ext_equal]
pub enum CertActionView {
    Run(Seq<Seq<char>>),
    RunWithSan { pre: Seq<Seq<char>>, san_contents: Seq<char>, post: Seq<Seq<char>> },
    CopyFile { from: Seq<char>, to: Seq<char> },
    RemoveFile(Seq<char>),
}

impl View for CertAction {
    type V = CertActionView;

    open spec fn view(&self) -> CertActionView {
        match self {
            CertAction::Run(argv) => CertActionView::Run(spec_views(argv@)),
            CertAction::RunWithSan { pre, san_contents, post } => CertActionView::RunWithSan {
                pre: spec_views(pre@),
                san_contents: san_contents@,
                post: spec_views(post@),
            },
            CertAction::CopyFile { from, to } => CertActionView::CopyFile {
                from: from@,
                to: to@,
            },
            CertAction::RemoveFile(p) => CertActionView::RemoveFile(p@),
        }
    }
}

/// A character allowed in a generated passphrase.
pub open spec fn spec_is_passphrase_char(c: char) -> bool {
    ('A' <= c && c <= 'Z') || ('a' <= c && c <= 'z') || ('0' <= c && c <= '9')
}

/// Relies on `rand::random_range` over `0..n`: the result is uniformly
/// drawn from the range, so it is always below `n`; the call panics only on
/// an empty range, which the precondition rules out.
#[verifier::external_body]
fn random_below(n: usize) -> (r: usize)
    requires
        n >= 1,
    ensures
        r < n,
{
    rand::random_range(0..n)
}

fn passphrase_char(d: usize) -> (c: char)
    requires
        d < 62,
    ensures
        spec_is_passphrase_char(c),
{
    if d < 26 {
        ((65 + d) as u8) as char
    } else if d < 52 {
        ((97 + (d - 26)) as u8) as char
    } else {
        ((48 + (d - 52)) as u8) as char
    }
}

/// A fresh random passphrase: twenty alphanumeric characters.
pub fn rand_passphrase() -> (r: String)
    ensures
        r@.len() == 20,
        forall|i: int| 0 <= i < r@.len() ==> spec_is_passphrase_char(#[trigger] r@[i]),
{
    let mut out = String::new();
    let mut i: usize = 0;
    while i < 20
        invariant
            i <= 20,
            out@.len() == i,
            forall|j: int| 0 <= j < out@.len() ==> spec_is_passphrase_char(#[trigger] out@[j]),
        decreases 20 - i,
    {
        let c = passphrase_char(random_below(62));
        out.push(c);
        i = i + 1;
    }
    out
}

/// The copies that mirror a main key/certificate pair to its auxiliary
/// locations: one copy per non-empty source and target path.
pub open spec fn spec_aux_copies(
    main: CertificatePathsView,
    aux: Seq<CertificatePathsView>,
) -> Seq<CertActionView>
    decreases aux.len(),
{
    if aux.len() == 0 {
        Seq::empty()
    } else {
        (if main.key.len() > 0 && aux[0].key.len() > 0 {
            seq![CertActionView::CopyFile { from: main.key, to: aux[0].key }]
        } else {
            Seq::<CertActionView>::empty()
        }) + (if main.cert.len() > 0 && aux[0].cert.len() > 0 {
            seq![CertActionView::CopyFile { from: main.cert, to: aux[0].cert }]
        } else {
            Seq::<CertActionView>::empty()
        }) + spec_aux_copies(main, aux.drop_first())
    }
}

proof fn lemma_aux_copies_push(main: CertificatePathsView, aux: Seq<CertificatePathsView>, i: int)
    requires
        0 <= i < aux.len(),
    ensures
        spec_aux_copies(main, aux.take(i + 1)) == spec_aux_copies(main, aux.take(i)) + (if main.key.len() > 0 && aux[i].key.len() > 0 {
            seq![CertActionView::CopyFile { from: main.key, to: aux[i].key }]
        } else {
            Seq::<CertActionView>::empty()
        }) + (if main.cert.len() > 0 && aux[i].cert.len() > 0 {
            seq![CertActionView::CopyFile { from: main.cert, to: aux[i].cert }]
        } else {
            Seq::<CertActionView>::empty()
        }),
    decreases i,
{
    let one = (if main.key.len() > 0 && aux[i].key.len() > 0 {
        seq![CertActionView::CopyFile { from: main.key, to: aux[i].key }]
    } else {
        Seq::<CertActionView>::empty()
    }) + (if main.cert.len() > 0 && aux[i].cert.len() > 0 {
        seq![CertActionView::CopyFile { from: main.cert, to: aux[i].cert }]
    } else {
        Seq::<CertActionView>::empty()
    });
    if i == 0 {
        assert(aux.take(1) =~= seq![aux[0]]);
        assert(aux.take(1)[0] == aux[0]);
        assert(aux.take(1).drop_first() =~= Seq::<CertificatePathsView>::empty());
        assert(aux.take(0) =~= Seq::<CertificatePathsView>::empty());
        assert(spec_aux_copies(main, Seq::<CertificatePathsView>::empty()) =~= Seq::<
            CertActionView,
        >::empty());
        assert(spec_aux_copies(main, aux.take(1)) =~= Seq::<CertActionView>::empty() + one);
    } else {
        lemma_aux_copies_push(main, aux.drop_first(), i - 1);
        assert(aux.take(i + 1).drop_first() =~= aux.drop_first().take(i));
        assert(aux.take(i).drop_first() =~= aux.drop_first().take(i - 1));
        assert(aux.drop_first()[i - 1] == aux[i]);
        assert(aux.take(i + 1)[0] == aux[0]);
        assert(aux.take(i)[0] == aux[0]);
        assert(spec_aux_copies(main, aux.take(i + 1)) =~= spec_aux_copies(main, aux.take(i))
            + one);
    }
}

/// Emits the copies mirroring the main pair to each auxiliary pair.
fn push_aux_copies(
    plan: &mut Vec<CertAction>,
    main: &CertificatePaths,
    aux: &Vec<CertificatePaths>,
)
    ensures
        final(plan)@.map_values(|a: CertAction| a@) == old(plan)@.map_values(|a: CertAction| a@)
            + spec_aux_copies(main@, aux@.map_values(|p: CertificatePaths| p@)),
{
    let ghost base = plan@.map_values(|a: CertAction| a@);
    let ghost av = aux@.map_values(|p: CertificatePaths| p@);
    let n = aux.len();
    let mut i: usize = 0;
    proof {
        assert(av.take(0) =~= Seq::<CertificatePathsView>::empty());
        assert(spec_aux_copies(main@, av.take(0)) =~= Seq::<CertActionView>::empty());
        assert(base + spec_aux_copies(main@, av.take(0)) =~= base);
    }
    while i < n
        invariant
            i <= n,
            n == aux@.len(),
            av == aux@.map_values(|p: CertificatePaths| p@),
            plan@.map_values(|a: CertAction| a@) == base + spec_aux_copies(main@, av.take(i as int)),
        decreases n - i,
    {
        proof {
            assert(av[i as int] == aux@[i as int]@);
            lemma_aux_copies_push(main@, av, i as int);
        }
        if !main.key.as_str().is_empty() && !aux[i].key.as_str().is_empty() {
            let ghost before = plan@.map_values(|a: CertAction| a@);
            plan.push(CertAction::CopyFile { from: main.key.clone(), to: aux[i].key.clone() });
            proof {
                assert(plan@.map_values(|a: CertAction| a@) =~= before.push(
                    CertActionView::CopyFile { from: main@.key, to: av[i as int].key },
                ));
            }
        }
        if !main.cert.as_str().is_empty() && !aux[i].cert.as_str().is_empty() {
            let ghost before = plan@.map_values(|a: CertAction| a@);
            plan.push(CertAction::CopyFile { from: main.cert.clone(), to: aux[i].cert.clone() });
            proof {
                assert(plan@.map_values(|a: CertAction| a@) =~= before.push(
                    CertActionView::CopyFile { from: main@.cert, to: av[i as int].cert },
                ));
            }
        }
        proof {
            assert(plan@.map_values(|a: CertAction| a@) =~= base + spec_aux_copies(
                main@,
                av.take(i + 1),
            ));
        }
        i = i + 1;
    }
    proof {
        assert(av.take(n as int) =~= av);
    }
}

/// The OpenSSL invocation that creates a CA key and certificate.
pub open spec fn spec_ca_argv(ca: CACertificateView, passphrase: Seq<char>) -> Seq<Seq<char>> {
    seq!["openssl"@, "req"@, "-new"@, "-x509"@] + (if !ca.encrypted {
        seq!["-nodes"@]
    } else {
        Seq::<Seq<char>>::empty()
    }) + seq![
        "-days"@,
        spec_i64_string(ca.duration),
        "-extensions"@,
        ca.extensions,
        "-keyout"@,
        ca.main_paths.key,
        "-out"@,
        ca.main_paths.cert,
        "-subj"@,
        ca.subj,
    ] + (if ca.encrypted {
        seq!["-passout"@, "pass:"@ + passphrase]
    } else {
        Seq::<Seq<char>>::empty()
    })
}

/// The whole CA-generation plan: the OpenSSL call (unless only the
/// auxiliary paths are to be populated) followed by the mirroring copies.
pub open spec fn spec_generate_ca_plan(
    ca: CACertificateView,
    just_populate_aux: bool,
    passphrase: Seq<char>,
) -> Seq<CertActionView> {
    (if just_populate_aux {
        Seq::<CertActionView>::empty()
    } else {
        seq![CertActionView::Run(spec_ca_argv(ca, passphrase))]
    }) + spec_aux_copies(ca.main_paths, ca.auxiliary_paths)
}

/// Plans the generation of a CA key/certificate pair (or, with
/// `just_populate_aux`, only the mirroring of the existing pair to the
/// auxiliary paths).  Returns the plan together with the passphrase the key
/// is encrypted with — freshly drawn when the CA is marked encrypted and a
/// pair is actually generated, empty otherwise.  `component_name` only
/// names the component in the caller's reporting.
pub fn generate_ca(component_name: &str, ca_config: &CACertificate, just_populate_aux: bool) -> (r:
    (Vec<CertAction>, String))
    ensures
        r.0@.map_values(|a: CertAction| a@) == spec_generate_ca_plan(
            ca_config@,
            just_populate_aux,
            r.1@,
        ),
        just_populate_aux || !ca_config.encrypted ==> r.1@ == Seq::<char>::empty(),
        !just_populate_aux && ca_config.encrypted ==> r.1@.len() == 20 && (forall|i: int|
            0 <= i < r.1@.len() ==> spec_is_passphrase_char(#[trigger] r.1@[i])),
{
    let _ = component_name;
    let mut plan: Vec<CertAction> = Vec::new();
    let mut passphrase = String::new();
    if !just_populate_aux {
        let mut argv: Vec<String> = vec![
            String::from_str("openssl"),
            String::from_str("req"),
            String::from_str("-new"),
            String::from_str("-x509"),
        ];
        if !ca_config.encrypted {
            argv.push(String::from_str("-nodes"));
        }
        argv.push(String::from_str("-days"));
        argv.push(i64_to_string(ca_config.duration));
        argv.push(String::from_str("-extensions"));
        argv.push(ca_config.extensions.clone());
        argv.push(String::from_str("-keyout"));
        argv.push(ca_config.main_paths.key.clone());
        argv.push(String::from_str("-out"));
        argv.push(ca_config.main_paths.cert.clone());
        argv.push(String::from_str("-subj"));
        argv.push(ca_config.subj.clone());
        if ca_config.encrypted {
            passphrase = rand_passphrase();
            argv.push(String::from_str("-passout"));
            argv.push(String::from_str("pass:").concat(passphrase.as_str()));
        }
        proof {
            assert(spec_views(argv@) =~= spec_ca_argv(ca_config@, passphrase@));
        }
        plan.push(CertAction::Run(argv));
        proof {
            assert(plan@.map_values(|a: CertAction| a@) =~= seq![CertActionView::Run(
                spec_ca_argv(ca_config@, passphrase@),
            )]);
        }
    } else {
        proof {
            assert(plan@.map_values(|a: CertAction| a@) =~= Seq::<CertActionView>::empty());
        }
    }
    let ghost head = plan@.map_values(|a: CertAction| a@);
    push_aux_copies(&mut plan, &ca_config.main_paths, &ca_config.auxiliary_paths);
    proof {
        assert(plan@.map_values(|a: CertAction| a@) =~= spec_generate_ca_plan(
            ca_config@,
            just_populate_aux,
            passphrase@,
        ));
    }
    (plan, passphrase)
}

/// The CSR location derived from a signing-key path: everything before the
/// first dot, with `.csr` appended; none when the path has no dot.
pub open spec fn spec_csr_path(key_path: Seq<char>) -> Option<Seq<char>> {
    let k = spec_char_index(key_path, '.');
    if k == -1 {
        None
    } else {
        Some(key_path.take(k) + ".csr"@)
    }
}

/// Derives the CSR location from a signing-key path.
pub fn csr_path(key_path: &str) -> (r: Result<String, CertError>)
    ensures
        match r {
            Ok(p) => spec_csr_path(key_path@) == Some(p@),
            Err(e) => e == CertError::NoFileExtension && spec_csr_path(key_path@) is None,
        },
{
    match find_char(key_path, '.') {
        Some(k) => {
            proof {
                lemma_char_index(key_path@, '.');
            }
            Ok(key_path.substring_char(0, k).to_owned().concat(".csr"))
        },
        None => Err(CertError::NoFileExtension),
    }
}

/// The OpenSSL invocation that produces a CSR for a key.
pub open spec fn spec_csr_argv(
    csr: Seq<char>,
    key: Seq<char>,
    subj: Seq<char>,
    encrypted: bool,
    passphrase: Seq<char>,
) -> Seq<Seq<char>> {
    seq!["openssl"@, "req"@, "-out"@, csr, "-key"@, key, "-new"@, "-subj"@, subj] + (if encrypted {
        seq!["-passin"@, "pass:"@ + passphrase]
    } else {
        Seq::<Seq<char>>::empty()
    })
}

fn build_csr_argv(csr: &str, key: &str, subj: &str, encrypted: bool, passphrase: &str) -> (r: Vec<
    String,
>)
    ensures
        spec_views(r@) == spec_csr_argv(csr@, key@, subj@, encrypted, passphrase@),
{
    let mut argv: Vec<String> = vec![
        String::from_str("openssl"),
        String::from_str("req"),
        String::from_str("-out"),
        csr.to_owned(),
        String::from_str("-key"),
        key.to_owned(),
        String::from_str("-new"),
        String::from_str("-subj"),
        subj.to_owned(),
    ];
    if encrypted {
        argv.push(String::from_str("-passin"));
        argv.push(String::from_str("pass:").concat(passphrase));
    }
    proof {
        assert(spec_views(argv@) =~= spec_csr_argv(csr@, key@, subj@, encrypted, passphrase@));
    }
    argv
}

/// The SAN extension-file contents for a leaf with service addresses.
pub open spec fn spec_san_contents(service_ips: Seq<Seq<char>>) -> Seq<char> {
    "\n[SAN]\nsubjectAltName="@ + spec_join(service_ips, ","@)
}

/// The leading arguments of the CA-signing invocation, up to where the SAN
/// extension file is inserted.
pub open spec fn spec_sign_with_ca_pre(
    cert: CertificateSettingsView,
    csr: Seq<char>,
) -> Seq<Seq<char>> {
    seq![
        "openssl"@,
        "x509"@,
        "-req"@,
        "-in"@,
        csr,
        "-CA"@,
        cert.cert_authority->0.main_paths.cert,
        "-CAkey"@,
        cert.cert_authority->0.main_paths.key,
        "-CAcreateserial"@,
        "-out"@,
        cert.main_certificate.main_paths.cert,
    ]
}

/// The trailing arguments of the CA-signing invocation.
pub open spec fn spec_sign_with_ca_post(cert: CertificateSettingsView) -> Seq<Seq<char>> {
    seq!["-days"@, spec_i64_string(cert.main_certificate.duration)] + (if cert.cert_authority->0.encrypted {
        seq!["-passin"@, "pass:"@ + cert.cert_authority->0.passphrase]
    } else {
        Seq::<Seq<char>>::empty()
    })
}

/// The plan that signs a component's leaf certificate with its CA: produce
/// the CSR, sign it (through a SAN extension file when service addresses
/// are configured), and remove the spent CSR.
pub open spec fn spec_sign_with_ca_plan(
    cert: CertificateSettingsView,
    csr: Seq<char>,
    leaf_passphrase: Seq<char>,
) -> Seq<CertActionView> {
    seq![
        CertActionView::Run(
            spec_csr_argv(
                csr,
                cert.main_certificate.main_paths.key,
                cert.main_certificate.subj,
                cert.main_certificate.encrypted,
                leaf_passphrase,
            ),
        ),
        (if cert.main_certificate.service_ips.len() > 0 {
            CertActionView::RunWithSan {
                pre: spec_sign_with_ca_pre(cert, csr),
                san_contents: spec_san_contents(cert.main_certificate.service_ips),
                post: spec_sign_with_ca_post(cert),
            }
        } else {
            CertActionView::Run(spec_sign_with_ca_pre(cert, csr) + spec_sign_with_ca_post(cert))
        }),
        CertActionView::RemoveFile(csr),
    ]
}

/// Plans the CSR generation and CA signature for a component's leaf
/// certificate.  Fails when the entry has no CA settings or the leaf key
/// path carries no extension to derive the CSR path from.
pub fn gen_csr_sign_with_ca(cert: &CertificateSettings, main_key_passphrase: &str) -> (r: Result<
    Vec<CertAction>,
    CertError,
>)
    ensures
        match r {
            Ok(plan) => {
                &&& cert@.cert_authority is Some
                &&& spec_csr_path(cert@.main_certificate.main_paths.key) matches Some(csr)
                    && plan@.map_values(|a: CertAction| a@) == spec_sign_with_ca_plan(
                    cert@,
                    csr,
                    main_key_passphrase@,
                )
            },
            Err(e) => {
                ||| (e == CertError::NoFileExtension && spec_csr_path(
                    cert@.main_certificate.main_paths.key,
                ) is None)
                ||| (e == CertError::MissingCa && cert@.cert_authority is None)
            },
        },
{
    let csr = match csr_path(cert.main_certificate.main_paths.key.as_str()) {
        Ok(p) => p,
        Err(e) => {
            return Err(e);
        },
    };
    let ca = match &cert.cert_authority {
        Some(ca) => ca,
        None => {
            return Err(CertError::MissingCa);
        },
    };
    let csr_argv = build_csr_argv(
        csr.as_str(),
        cert.main_certificate.main_paths.key.as_str(),
        cert.main_certificate.subj.as_str(),
        cert.main_certificate.encrypted,
        main_key_passphrase,
    );
    let mut pre: Vec<String> = vec![
        String::from_str("openssl"),
        String::from_str("x509"),
        String::from_str("-req"),
        String::from_str("-in"),
        csr.clone(),
        String::from_str("-CA"),
        ca.main_paths.cert.clone(),
        String::from_str("-CAkey"),
        ca.main_paths.key.clone(),
        String::from_str("-CAcreateserial"),
        String::from_str("-out"),
        cert.main_certificate.main_paths.cert.clone(),
    ];
    proof {
        assert(spec_views(pre@) =~= spec_sign_with_ca_pre(cert@, csr@));
    }
    let mut post: Vec<String> = vec![
        String::from_str("-days"),
        i64_to_string(cert.main_certificate.duration),
    ];
    if ca.encrypted {
        post.push(String::from_str("-passin"));
        post.push(String::from_str("pass:").concat(ca.passphrase.as_str()));
    }
    proof {
        assert(spec_views(post@) =~= spec_sign_with_ca_post(cert@));
    }
    let sign_action: CertAction;
    if cert.main_certificate.service_ips.len() > 0 {
        let san = String::from_str("\n[SAN]\nsubjectAltName=").concat(
            join(&cert.main_certificate.service_ips, ",").as_str(),
        );
        proof {
            assert(san@ == spec_san_contents(cert@.main_certificate.service_ips));
        }
        sign_action = CertAction::RunWithSan { pre, san_contents: san, post };
    } else {
        let mut argv = pre;
        let m = post.len();
        let mut t: usize = 0;
        let ghost prev = spec_views(argv@);
        while t < m
            invariant
                t <= m,
                m == post@.len(),
                spec_views(argv@) == prev + spec_views(post@).take(t as int),
            decreases m - t,
        {
            let ghost before = spec_views(argv@);
            argv.push(post[t].clone());
            proof {
                assert(spec_views(post@)[t as int] == post@[t as int]@);
                assert(spec_views(argv@) =~= before.push(spec_views(post@)[t as int]));
                assert(spec_views(post@).take(t + 1) =~= spec_views(post@).take(t as int).push(
                    spec_views(post@)[t as int],
                ));
                assert(spec_views(argv@) =~= prev + spec_views(post@).take(t + 1));
            }
            t = t + 1;
        }
        proof {
            assert(spec_views(post@).take(m as int) =~= spec_views(post@));
            assert(spec_views(argv@) =~= spec_sign_with_ca_pre(cert@, csr@)
                + spec_sign_with_ca_post(cert@));
        }
        sign_action = CertAction::Run(argv);
    }
    let plan: Vec<CertAction> = vec![
        CertAction::Run(csr_argv),
        sign_action,
        CertAction::RemoveFile(csr),
    ];
    proof {
        assert(plan@.map_values(|a: CertAction| a@) =~= spec_sign_with_ca_plan(
            cert@,
            spec_csr_path(cert@.main_certificate.main_paths.key)->0,
            main_key_passphrase@,
        ));
    }
    Ok(plan)
}

/// The OpenSSL invocation that creates the leaf key for a CA-signed
/// certificate.
pub open spec fn spec_genrsa_argv(
    cert: CertificateSettingsView,
    passphrase: Seq<char>,
) -> Seq<Seq<char>> {
    seq!["openssl"@, "genrsa"@] + (if cert.main_certificate.encrypted {
        seq!["-aes256"@]
    } else {
        Seq::<Seq<char>>::empty()
    }) + seq!["-out"@, cert.main_certificate.main_paths.key] + (if cert.main_certificate.encrypted {
        seq!["-passout"@, "pass:"@ + passphrase]
    } else {
        Seq::<Seq<char>>::empty()
    }) + seq![spec_i64_string(cert.main_certificate.key_len)]
}

/// The OpenSSL invocation that creates a self-signed leaf in one step.
pub open spec fn spec_selfsigned_argv(
    cert: CertificateSettingsView,
    passphrase: Seq<char>,
) -> Seq<Seq<char>> {
    seq!["openssl"@, "req"@, "-newkey"@, cert.algorithm] + (if !cert.main_certificate.encrypted {
        seq!["-nodes"@]
    } else {
        Seq::<Seq<char>>::empty()
    }) + seq![
        "-keyout"@,
        cert.main_certificate.main_paths.key,
        "-x509"@,
        "-days"@,
        spec_i64_string(cert.main_certificate.duration),
        "-out"@,
        cert.main_certificate.main_paths.cert,
        "-subj"@,
        cert.main_certificate.subj,
    ] + (if cert.main_certificate.encrypted {
        seq!["-passout"@, "pass:"@ + passphrase]
    } else {
        Seq::<Seq<char>>::empty()
    })
}

/// The whole leaf-generation plan for a given passphrase: the generation
/// steps (none when only the auxiliary paths are to be populated), then the
/// copies that mirror the main pair to every auxiliary pair.
pub open spec fn spec_generate_certificate_plan(
    cert: CertificateSettingsView,
    just_populate_aux: bool,
    passphrase: Seq<char>,
) -> Seq<CertActionView> {
    (if just_populate_aux {
        Seq::<CertActionView>::empty()
    } else if cert.cert_authority is Some {
        seq![CertActionView::Run(spec_genrsa_argv(cert, passphrase))] + spec_sign_with_ca_plan(
            cert,
            spec_csr_path(cert.main_certificate.main_paths.key)->0,
            passphrase,
        )
    } else {
        seq![CertActionView::Run(spec_selfsigned_argv(cert, passphrase))]
    }) + spec_aux_copies(
        cert.main_certificate.main_paths,
        cert.main_certificate.auxiliary_paths,
    )
}

/// Plans the generation of a component's leaf certificate: self-signed in
/// one OpenSSL call, or — when CA settings are present — a fresh key, a
/// CSR, and a CA signature; in both cases the material is then mirrored to
/// the auxiliary paths.  With `just_populate_aux` only the mirroring is
/// planned.  Returns the plan and the leaf passphrase: freshly drawn when
/// the leaf is marked encrypted and material is actually generated, empty
/// otherwise.
///
/// Fails with `InvalidKeyLength` when a CA-signed leaf has a non-positive
/// key length, and with `NoFileExtension` when its key path has no dot to
/// derive the CSR path from.
pub fn generate_certificate(certificate: &CertificateSettings, just_populate_aux: bool) -> (r:
    Result<(Vec<CertAction>, String), CertError>)
    ensures
        match r {
            Ok((plan, pass)) => {
                &&& plan@.map_values(|a: CertAction| a@) == spec_generate_certificate_plan(
                    certificate@,
                    just_populate_aux,
                    pass@,
                )
                &&& just_populate_aux || !certificate.main_certificate.encrypted ==> pass@
                    == Seq::<char>::empty()
                &&& !just_populate_aux && certificate.main_certificate.encrypted ==> pass@.len()
                    == 20 && (forall|i: int|
                    0 <= i < pass@.len() ==> spec_is_passphrase_char(#[trigger] pass@[i]))
                &&& !just_populate_aux && certificate@.cert_authority is Some ==> certificate@
                    .main_certificate.key_len > 0 && spec_csr_path(
                    certificate@.main_certificate.main_paths.key,
                ) is Some
            },
            Err(e) => {
                &&& !just_populate_aux
                &&& certificate@.cert_authority is Some
                &&& (e == CertError::InvalidKeyLength <==> certificate@.main_certificate.key_len
                    <= 0)
                &&& e == CertError::NoFileExtension ==> certificate@.main_certificate.key_len > 0
                    && spec_csr_path(certificate@.main_certificate.main_paths.key) is None
                &&& e != CertError::MissingCa
            },
        },
{
    let mut plan: Vec<CertAction> = Vec::new();
    let mut passphrase = String::new();
    if !just_populate_aux {
        if certificate.cert_authority.is_some() {
            if certificate.main_certificate.key_len <= 0 {
                return Err(CertError::InvalidKeyLength);
            }
            if certificate.main_certificate.encrypted {
                passphrase = rand_passphrase();
            }
            let mut argv: Vec<String> = vec![
                String::from_str("openssl"),
                String::from_str("genrsa"),
            ];
            if certificate.main_certificate.encrypted {
                argv.push(String::from_str("-aes256"));
            }
            argv.push(String::from_str("-out"));
            argv.push(certificate.main_certificate.main_paths.key.clone());
            if certificate.main_certificate.encrypted {
                argv.push(String::from_str("-passout"));
                argv.push(String::from_str("pass:").concat(passphrase.as_str()));
            }
            argv.push(i64_to_string(certificate.main_certificate.key_len));
            proof {
                assert(spec_views(argv@) =~= spec_genrsa_argv(certificate@, passphrase@));
            }
            plan.push(CertAction::Run(argv));
            let sign_plan = match gen_csr_sign_with_ca(certificate, passphrase.as_str()) {
                Ok(p) => p,
                Err(e) => {
                    proof {
                        assert(e != CertError::MissingCa);
                    }
                    return Err(e);
                },
            };
            let ghost sign_views = sign_plan@.map_values(|a: CertAction| a@);
            let mut sign_plan = sign_plan;
            let m = sign_plan.len();
            let mut t: usize = 0;
            proof {
                assert(sign_plan@.map_values(|a: CertAction| a@) =~= sign_views.skip(0));
                assert(plan@.map_values(|a: CertAction| a@) =~= seq![CertActionView::Run(
                    spec_genrsa_argv(certificate@, passphrase@),
                )] + sign_views.take(0));
            }
            while t < m
                invariant
                    t <= m,
                    m == sign_views.len(),
                    sign_plan@.map_values(|a: CertAction| a@) == sign_views.skip(t as int),
                    sign_plan@.len() == m - t,
                    plan@.map_values(|a: CertAction| a@) == seq![CertActionView::Run(
                        spec_genrsa_argv(certificate@, passphrase@),
                    )] + sign_views.take(t as int),
                decreases m - t,
            {
                let ghost pre_sign = sign_plan@;
                let one = sign_plan.remove(0);
                let ghost before = plan@.map_values(|a: CertAction| a@);
                plan.push(one);
                proof {
                    assert(one@ == pre_sign.map_values(|a: CertAction| a@)[0]);
                    assert(one@ == sign_views[t as int]);
                    assert forall|u: int|
                        0 <= u < sign_plan@.len() implies #[trigger] sign_plan@[u]@
                        == sign_views.skip(t + 1)[u] by {
                        assert(sign_plan@[u] == pre_sign[u + 1]);
                        assert(pre_sign.map_values(|a: CertAction| a@)[u + 1] == pre_sign[u + 1]@);
                        assert(sign_views.skip(t as int)[u + 1] == sign_views[t + 1 + u]);
                    }
                    assert(sign_plan@.map_values(|a: CertAction| a@) =~= sign_views.skip(t + 1));
                    assert(plan@.map_values(|a: CertAction| a@) =~= before.push(
                        sign_views[t as int],
                    ));
                    assert(sign_views.take(t + 1) =~= sign_views.take(t as int).push(
                        sign_views[t as int],
                    ));
                    assert(plan@.map_values(|a: CertAction| a@) =~= seq![CertActionView::Run(
                        spec_genrsa_argv(certificate@, passphrase@),
                    )] + sign_views.take(t + 1));
                }
                t = t + 1;
            }
            proof {
                assert(sign_views.take(m as int) =~= sign_views);
            }
        } else {
            if certificate.main_certificate.encrypted {
                passphrase = rand_passphrase();
            }
            let mut argv: Vec<String> = vec![
                String::from_str("openssl"),
                String::from_str("req"),
                String::from_str("-newkey"),
                certificate.algorithm.clone(),
            ];
            if !certificate.main_certificate.encrypted {
                argv.push(String::from_str("-nodes"));
            }
            argv.push(String::from_str("-keyout"));
            argv.push(certificate.main_certificate.main_paths.key.clone());
            argv.push(String::from_str("-x509"));
            argv.push(String::from_str("-days"));
            argv.push(i64_to_string(certificate.main_certificate.duration));
            argv.push(String::from_str("-out"));
            argv.push(certificate.main_certificate.main_paths.cert.clone());
            argv.push(String::from_str("-subj"));
            argv.push(certificate.main_certificate.subj.clone());
            if certificate.main_certificate.encrypted {
                argv.push(String::from_str("-passout"));
                argv.push(String::from_str("pass:").concat(passphrase.as_str()));
            }
            proof {
                assert(spec_views(argv@) =~= spec_selfsigned_argv(certificate@, passphrase@));
            }
            plan.push(CertAction::Run(argv));
            proof {
                assert(plan@.map_values(|a: CertAction| a@) =~= seq![CertActionView::Run(
                    spec_selfsigned_argv(certificate@, passphrase@),
                )]);
            }
        }
    } else {
        proof {
            assert(plan@.map_values(|a: CertAction| a@) =~= Seq::<CertActionView>::empty());
        }
    }
    let ghost head = plan@.map_values(|a: CertAction| a@);
    push_aux_copies(
        &mut plan,
        &certificate.main_certificate.main_paths,
        &certificate.main_certificate.auxiliary_paths,
    );
    proof {
        assert(plan@.map_values(|a: CertAction| a@) =~= spec_generate_certificate_plan(
            certificate@,
            just_populate_aux,
            passphrase@,
        ));
    }
    Ok((plan, passphrase))
}

/// A plan step that only mirrors the main material: a file copy whose
/// source is the main key or the main certificate and whose target is the
/// corresponding half of one of the auxiliary pairs.
pub open spec fn spec_is_mirror_copy(
    a: CertActionView,
    main: CertificatePathsView,
    aux: Seq<CertificatePathsView>,
) -> bool {
    match a {
        CertActionView::CopyFile { from, to } => (from == main.key || from == main.cert) && (
        exists|j: int| 0 <= j < aux.len() && (to == #[trigger] aux[j].key || to == aux[j].cert)),
        _ => false,
    }
}

proof fn lemma_mirror_copy_cons(
    a: CertActionView,
    main: CertificatePathsView,
    aux: Seq<CertificatePathsView>,
)
    requires
        aux.len() > 0,
        spec_is_mirror_copy(a, main, aux.drop_first()),
    ensures
        spec_is_mirror_copy(a, main, aux),
{
    match a {
        CertActionView::CopyFile { from, to } => {
            let j0 = choose|j0: int|
                0 <= j0 < aux.drop_first().len() && (to == #[trigger] aux.drop_first()[j0].key
                    || to == aux.drop_first()[j0].cert);
            assert(aux.drop_first()[j0] == aux[j0 + 1]);
            assert(to == aux[j0 + 1].key || to == aux[j0 + 1].cert);
        },
        _ => {},
    }
}

proof fn lemma_aux_copies_shape(main: CertificatePathsView, aux: Seq<CertificatePathsView>)
    ensures
        forall|i: int|
            0 <= i < spec_aux_copies(main, aux).len() ==> spec_is_mirror_copy(
                #[trigger] spec_aux_copies(main, aux)[i],
                main,
                aux,
            ),
    decreases aux.len(),
{
    if aux.len() > 0 {
        lemma_aux_copies_shape(main, aux.drop_first());
        let rest = spec_aux_copies(main, aux.drop_first());
        let head = (if main.key.len() > 0 && aux[0].key.len() > 0 {
            seq![CertActionView::CopyFile { from: main.key, to: aux[0].key }]
        } else {
            Seq::<CertActionView>::empty()
        }) + (if main.cert.len() > 0 && aux[0].cert.len() > 0 {
            seq![CertActionView::CopyFile { from: main.cert, to: aux[0].cert }]
        } else {
            Seq::<CertActionView>::empty()
        });
        assert(spec_aux_copies(main, aux) == head + rest);
        assert forall|i: int|
            0 <= i < spec_aux_copies(main, aux).len() implies spec_is_mirror_copy(
            #[trigger] spec_aux_copies(main, aux)[i],
            main,
            aux,
        ) by {
            if i < head.len() {
                assert(spec_aux_copies(main, aux)[i] == head[i]);
                assert(aux[0].key == aux[0].key);
            } else {
                assert(spec_aux_copies(main, aux)[i] == rest[i - head.len()]);
                assert(spec_is_mirror_copy(rest[i - head.len()], main, aux.drop_first()));
                lemma_mirror_copy_cons(rest[i - head.len()], main, aux);
            }
        }
    }
}

/// Populating the auxiliary paths is pure mirroring: the plan holds nothing
/// but file copies whose source is the main key or the main certificate and
/// whose target is the matching half of an auxiliary pair.  The plan is a
/// function of the settings alone, so a second run issues the identical
/// copies — the auxiliary paths end up byte-identical to the main paths,
/// which are never written.
pub proof fn lemma_aux_populate_is_pure_mirroring(cert: CertificateSettingsView)
    ensures
        forall|i: int|
            0 <= i < spec_generate_certificate_plan(cert, true, Seq::<char>::empty()).len()
                ==> spec_is_mirror_copy(
                #[trigger] spec_generate_certificate_plan(cert, true, Seq::<char>::empty())[i],
                cert.main_certificate.main_paths,
                cert.main_certificate.auxiliary_paths,
            ),
{
    let plan = spec_generate_certificate_plan(cert, true, Seq::<char>::empty());
    assert(plan =~= spec_aux_copies(
        cert.main_certificate.main_paths,
        cert.main_certificate.auxiliary_paths,
    ));
    lemma_aux_copies_shape(
        cert.main_certificate.main_paths,
        cert.main_certificate.auxiliary_paths,
    );
}

/// The key-signing invocation that reissues a certificate from an existing
/// key.
pub open spec fn spec_sign_with_key_argv(
    csr: Seq<char>,
    signing_key: Seq<char>,
    crt_path: Seq<char>,
    duration: int,
    encrypted: bool,
    passphrase: Seq<char>,
) -> Seq<Seq<char>> {
    seq![
        "openssl"@,
        "x509"@,
        "-req"@,
        "-days"@,
        spec_i64_string(duration),
        "-in"@,
        csr,
        "-signkey"@,
        signing_key,
        "-out"@,
        crt_path,
    ] + (if encrypted {
        seq!["-passin"@, "pass:"@ + passphrase]
    } else {
        Seq::<Seq<char>>::empty()
    })
}

/// The plan that reissues a certificate by signing a fresh CSR with the
/// certificate's own key.
pub open spec fn spec_sign_with_key_plan(
    csr: Seq<char>,
    signing_key: Seq<char>,
    encrypted: bool,
    subj: Seq<char>,
    passphrase: Seq<char>,
    duration: int,
    crt_path: Seq<char>,
) -> Seq<CertActionView> {
    seq![
        CertActionView::Run(spec_csr_argv(csr, signing_key, subj, encrypted, passphrase)),
        CertActionView::Run(
            spec_sign_with_key_argv(csr, signing_key, crt_path, duration, encrypted, passphrase),
        ),
        CertActionView::RemoveFile(csr),
    ]
}

/// Plans a certificate renewal from an existing key: produce a CSR, sign it
/// with the key itself, remove the spent CSR.  Fails when the key path
/// carries no extension.  `component_name` only names the component in the
/// caller's reporting.
pub fn gen_csr_sign_with_key(
    component_name: &str,
    signing_key: &str,
    signing_key_encrypted: bool,
    subj: &str,
    passphrase: &str,
    cert_duration: i64,
    crt_path: &str,
) -> (r: Result<Vec<CertAction>, CertError>)
    ensures
        match r {
            Ok(plan) => spec_csr_path(signing_key@) matches Some(csr) && plan@.map_values(
                |a: CertAction| a@,
            ) == spec_sign_with_key_plan(
                csr,
                signing_key@,
                signing_key_encrypted,
                subj@,
                passphrase@,
                cert_duration as int,
                crt_path@,
            ),
            Err(e) => e == CertError::NoFileExtension && spec_csr_path(signing_key@) is None,
        },
{
    let _ = component_name;
    let csr = match csr_path(signing_key) {
        Ok(p) => p,
        Err(e) => {
            return Err(e);
        },
    };
    let csr_argv = build_csr_argv(
        csr.as_str(),
        signing_key,
        subj,
        signing_key_encrypted,
        passphrase,
    );
    let mut sign_argv: Vec<String> = vec![
        String::from_str("openssl"),
        String::from_str("x509"),
        String::from_str("-req"),
        String::from_str("-days"),
        i64_to_string(cert_duration),
        String::from_str("-in"),
        csr.clone(),
        String::from_str("-signkey"),
        signing_key.to_owned(),
        String::from_str("-out"),
        crt_path.to_owned(),
    ];
    if signing_key_encrypted {
        sign_argv.push(String::from_str("-passin"));
        sign_argv.push(String::from_str("pass:").concat(passphrase));
    }
    proof {
        assert(spec_views(sign_argv@) =~= spec_sign_with_key_argv(
            csr@,
            signing_key@,
            crt_path@,
            cert_duration as int,
            signing_key_encrypted,
            passphrase@,
        ));
    }
    let plan: Vec<CertAction> = vec![
        CertAction::Run(csr_argv),
        CertAction::Run(sign_argv),
        CertAction::RemoveFile(csr),
    ];
    proof {
        assert(plan@.map_values(|a: CertAction| a@) =~= spec_sign_with_key_plan(
            spec_csr_path(signing_key@)->0,
            signing_key@,
            signing_key_encrypted,
            subj@,
            passphrase@,
            cert_duration as int,
            crt_path@,
        ));
    }
    Ok(plan)
}

} // verus!

use sqlx_tls::available;
use sqlx_tls::cert::CertificateInput;
use sqlx_tls::config::TlsConfig;
use sqlx_tls::handshake::plan_handshake;
use sqlx_tls::handshake::wants_root_data;
use sqlx_tls::handshake::Backend;
use sqlx_tls::handshake::TlsError;
use sqlx_tls::policy::VerifyPolicy;

fn config(hostname: &str, certs: bool, hostnames: bool, root: Option<CertificateInput>) -> TlsConfig {
    TlsConfig {
        accept_invalid_certs: certs,
        accept_invalid_hostnames: hostnames,
        hostname: hostname.to_string(),
        root_cert_path: root,
    }
}

#[test]
fn a_backend_is_always_available() {
    assert!(available());
}

#[test]
fn plan_keeps_hostname_and_selects_standard_policy() {
    let cfg = config("db.example.com", false, false, None);
    let plan = plan_handshake(Backend::Rustls, &cfg, None).expect("valid configuration plans");
    assert_eq!(plan.backend, Backend::Rustls);
    assert_eq!(plan.policy, VerifyPolicy::Standard);
    assert_eq!(plan.hostname, "db.example.com".to_string());
    assert!(plan.extra_roots.is_empty());
}

#[test]
fn record_layer_backend_rejects_an_invalid_hostname() {
    let cfg = config("not a hostname", false, false, None);
    let err = plan_handshake(Backend::Rustls, &cfg, None).expect_err("invalid name is rejected");
    assert_eq!(err, TlsError::InvalidHostname);
}

#[test]
fn continuation_backend_defers_hostname_validation() {
    let cfg = config("not a hostname", false, false, None);
    assert!(plan_handshake(Backend::NativeTls, &cfg, None).is_ok());
}

#[test]
fn inline_root_certificate_reaches_the_plan() {
    let pem = "-----BEGIN CERTIFICATE-----\nAAECAw==\n-----END CERTIFICATE-----";
    let root = CertificateInput::from(pem.to_string());
    let data = root.inline_data().expect("inline root carries data");
    let cfg = config("db.example.com", false, false, Some(root));
    let plan = plan_handshake(Backend::Rustls, &cfg, Some(&data)).expect("valid root plans");
    assert_eq!(plan.extra_roots, vec![vec![0u8, 1, 2, 3]]);
}

#[test]
fn undecodable_root_certificate_is_rejected() {
    let pem = "-----BEGIN CERTIFICATE-----\n!!!!\n-----END CERTIFICATE-----";
    let root = CertificateInput::from(pem.to_string());
    let data = root.inline_data().expect("inline root carries data");
    let cfg = config("db.example.com", false, false, Some(root));
    let err = plan_handshake(Backend::Rustls, &cfg, Some(&data))
        .expect_err("undecodable root is rejected");
    assert_eq!(err, TlsError::InvalidCertificate);
}

#[test]
fn accept_all_policy_builds_no_root_store() {
    let pem = "-----BEGIN CERTIFICATE-----\nAAECAw==\n-----END CERTIFICATE-----";
    let root = CertificateInput::from(pem.to_string());
    let cfg = config("db.example.com", true, false, Some(root));
    // The record-layer backend with accept-all never reads the root
    // source, so no data is loaded and none reaches the plan.
    assert!(!wants_root_data(Backend::Rustls, &cfg));
    let plan = plan_handshake(Backend::Rustls, &cfg, None).expect("plan succeeds");
    assert_eq!(plan.policy, VerifyPolicy::AcceptAll);
    assert!(plan.extra_roots.is_empty());
}

#[test]
fn root_data_is_wanted_exactly_where_a_store_is_built() {
    let pem = "-----BEGIN CERTIFICATE-----\nAAECAw==\n-----END CERTIFICATE-----";
    let root = CertificateInput::from(pem.to_string());
    let with_root = config("db.example.com", false, false, Some(root));
    let without_root = config("db.example.com", false, false, None);
    assert!(wants_root_data(Backend::Rustls, &with_root));
    assert!(wants_root_data(Backend::NativeTls, &with_root));
    assert!(!wants_root_data(Backend::Rustls, &without_root));
    let accept_all = config("db.example.com", true, false, with_root.root_cert_path);
    assert!(wants_root_data(Backend::NativeTls, &accept_all));
    assert!(!wants_root_data(Backend::Rustls, &accept_all));
}

#[test]
fn continuation_backend_installs_roots_whatever_the_policy() {
    let pem = "-----BEGIN CERTIFICATE-----\nAAECAw==\n-----END CERTIFICATE-----";
    let root = CertificateInput::from(pem.to_string());
    let data = root.inline_data().expect("inline root carries data");
    let cfg = config("db.example.com", true, false, Some(root));
    let plan = plan_handshake(Backend::NativeTls, &cfg, Some(&data)).expect("plan succeeds");
    assert_eq!(plan.extra_roots, vec![vec![0u8, 1, 2, 3]]);
}

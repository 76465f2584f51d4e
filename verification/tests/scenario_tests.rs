use sqlx_tls::bridge::bridge_read;
use sqlx_tls::bridge::bridge_write;
use sqlx_tls::config::TlsConfig;
use sqlx_tls::handshake::plan_handshake;
use sqlx_tls::handshake::Backend;
use sqlx_tls::handshake::TlsError;
use sqlx_tls::policy::apply_policy;
use sqlx_tls::policy::VerifyError;
use sqlx_tls::session::handshake_step;
use sqlx_tls::session::AttemptOutcome;
use sqlx_tls::session::HandshakeState;

fn strict_config(hostname: &str) -> TlsConfig {
    TlsConfig {
        accept_invalid_certs: false,
        accept_invalid_hostnames: false,
        hostname: hostname.to_string(),
        root_cert_path: None,
    }
}

#[test]
fn matching_certificate_establishes_and_echoes_the_query() {
    let cfg = strict_config("db.example.com");
    let plan = plan_handshake(Backend::Rustls, &cfg, None).expect("configuration is valid");
    // The server certificate names db.example.com and the chain is valid:
    // standard validation reports success.
    let verification = apply_policy(plan.policy, Ok(()));
    assert_eq!(verification, Ok(()));
    let (state, _) = handshake_step(HandshakeState::Init, AttemptOutcome::Success);
    assert_eq!(state, HandshakeState::Established);

    // Post-handshake traffic: the query reaches the peer intact and the
    // peer's echo comes back unchanged.
    let query: &[u8] = b"SELECT 1";
    let mut to_server: Vec<u8> = Vec::new();
    let written = bridge_write(&mut to_server, query, 64).expect("transport has credit");
    assert_eq!(written, query.len());
    let at_server = bridge_read(&mut to_server, 64).expect("bytes arrived");
    let mut to_client: Vec<u8> = Vec::new();
    bridge_write(&mut to_client, &at_server, 64).expect("transport has credit");
    let echoed = bridge_read(&mut to_client, 64).expect("bytes arrived");
    assert_eq!(echoed, query.to_vec());
}

#[test]
fn mismatched_certificate_name_fails_with_hostname_error() {
    let cfg = strict_config("db.example.com");
    let plan = plan_handshake(Backend::Rustls, &cfg, None).expect("configuration is valid");
    // The server certificate names other.example.com: standard validation
    // classifies the failure as a name mismatch, and the strict policy
    // keeps it.
    let verification = apply_policy(plan.policy, Err(VerifyError::NotValidForName));
    assert_eq!(verification, Err(VerifyError::NotValidForName));
    let err = TlsError::Verify(VerifyError::NotValidForName);
    let (state, _) = handshake_step(HandshakeState::Init, AttemptOutcome::Fatal(err));
    assert_eq!(state, HandshakeState::Failed(TlsError::Verify(VerifyError::NotValidForName)));
}

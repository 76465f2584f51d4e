//! Handshake planning and backend selection.
//!
//! The dispatcher performs no TLS itself: it selects a backend, fixes the
//! verification policy, decodes any caller-supplied root certificate, and
//! validates the target name. Driving the engine over the socket is its
//! caller's concern; the plan produced here pins down everything this layer
//! decides before the first byte moves.

use crate::config::TlsConfig;
use crate::policy::policy_for;
use crate::policy::VerifyPolicy;
use vstd::prelude::*;

verus! {

/// A terminal error of the secure-transport layer.
#[derive(Clone, Copy, Debug, PartialEq, Eq, Structural)]
pub enum TlsError {
    /// Root certificate data did not decode as PEM certificates.
    InvalidCertificate,
    /// The configured hostname is not a valid server name.
    InvalidHostname,
    /// The engine rejected the peer during certificate verification.
    Verify(crate::policy::VerifyError),
    /// Any other engine-reported handshake failure.
    HandshakeFailed,
    /// A transport-level failure on the plain socket.
    Io,
}

/// Which cryptographic engine drives a handshake.
///
/// Both variants are always present: backend choice is an explicit
/// construction-time decision, not a build-time one, so there is no
/// "no backend selected" fatal path.
#[derive(Clone, Copy, Debug, PartialEq, Eq, Structural)]
pub enum Backend {
    /// An engine whose handshake returns a completed session or an explicit
    /// mid-handshake continuation.
    NativeTls,
    /// An engine that requires the caller to pump record-layer I/O
    /// explicitly.
    Rustls,
}

/// Whether any backend is compiled in.
///
/// The backend enum is exhaustive, so a backend is always available.
pub open spec fn spec_backends_available() -> bool {
    true
}

/// Capability probe: reports whether any backend is compiled in. It never
/// attempts a handshake and does not depend on one.
pub fn available() -> (r: bool)
    ensures
        r == spec_backends_available(),
{
    true
}

/// What PEM certificate data decodes to: each `CERTIFICATE` section of the
/// input as DER bytes, or a decode failure.
pub uninterp spec fn pem_certs_of(data: Seq<u8>) -> Result<Seq<Seq<u8>>, ()>;

/// Relies on `rustls_pemfile::certs`: yields each `CERTIFICATE` PEM section
/// of the input, base64-decoded to DER. The result depends on the input
/// bytes alone.
#[verifier::external_body]
fn pem_certs(data: &Vec<u8>) -> (r: Result<Vec<Vec<u8>>, ()>)
    ensures
        r is Ok <==> pem_certs_of(data@) is Ok,
        r is Ok ==> r->Ok_0.deep_view() == pem_certs_of(data@)->Ok_0,
{
    let mut rd: &[u8] = data.as_slice();
    match rustls_pemfile::certs(&mut rd).collect::<Result<Vec<_>, std::io::Error>>() {
        Ok(certs) => Ok(certs.into_iter().map(|c| c.as_ref().to_vec()).collect()),
        Err(_) => Err(()),
    }
}

/// Whether a string parses as a valid server name (DNS name or IP address).
pub uninterp spec fn is_server_name(s: Seq<char>) -> bool;

/// Relies on `rustls::pki_types::ServerName::try_from` for `&str`: whether a
/// hostname parses as a DNS name or IP address depends on the string alone.
#[verifier::external_body]
fn server_name_valid(host: &str) -> (r: bool)
    ensures
        r == is_server_name(host@),
{
    rustls::pki_types::ServerName::try_from(host).is_ok()
}

/// Decode caller-supplied root-certificate data into DER certificates.
///
/// Succeeds exactly when the bytes decode as PEM certificates; undecodable
/// data is a certificate load error, reported to the handshake's caller and
/// never retried.
pub fn decode_root_certs(data: &Vec<u8>) -> (r: Result<Vec<Vec<u8>>, TlsError>)
    ensures
        (r is Ok) == (pem_certs_of(data@) is Ok),
        r matches Ok(v) ==> Ok::<Seq<Seq<u8>>, ()>(v.deep_view()) == pem_certs_of(data@),
        r matches Err(e) ==> e == TlsError::InvalidCertificate,
{
    match pem_certs(data) {
        Ok(v) => Ok(v),
        Err(_) => Err(TlsError::InvalidCertificate),
    }
}

/// Everything one handshake attempt needs from this layer: the chosen
/// engine, the verification policy, the validated target name, and the
/// decoded extra trust roots.
#[derive(Debug)]
pub struct HandshakePlan {
    pub backend: Backend,
    pub policy: VerifyPolicy,
    pub hostname: String,
    /// DER-encoded certificates to add to the root store.
    pub extra_roots: Vec<Vec<u8>>,
}

/// Whether a plan for this backend and policy decodes caller-supplied root
/// data: the continuation-style engine installs a custom root whatever the
/// policy, while the record-layer engine builds no root store at all when
/// every certificate is accepted.
pub open spec fn spec_wants_roots(backend: Backend, policy: VerifyPolicy, has_root: bool) -> bool {
    has_root && (backend == Backend::NativeTls || policy != VerifyPolicy::AcceptAll)
}

/// Whether a plan for this backend validates the target name up front: the
/// record-layer engine needs a parsed server name before it can start.
pub open spec fn spec_checks_hostname(backend: Backend) -> bool {
    backend == Backend::Rustls
}

/// Whether a handshake with this backend and configuration needs the
/// configured root certificate loaded. Where it does not — no root is
/// configured, or the record-layer engine accepts every certificate — the
/// root source is never read, so a missing or unreadable file cannot fail
/// such a handshake.
pub fn wants_root_data(backend: Backend, config: &TlsConfig) -> (r: bool)
    ensures
        r == spec_wants_roots(backend, config.spec_policy(), config.root_cert_path is Some),
{
    config.root_cert_path.is_some() && (matches!(backend, Backend::NativeTls) || !matches!(
        policy_for(config.accept_invalid_certs, config.accept_invalid_hostnames),
        VerifyPolicy::AcceptAll,
    ))
}

/// Plan one handshake attempt.
///
/// `root_data` is the loaded content of `config.root_cert_path`, present
/// exactly when this backend and configuration call for it (see
/// [`wants_root_data`]): a root source that the plan will not use is never
/// read. Undecodable root data is rejected first; then, for the
/// record-layer backend, an invalid target name. Otherwise the plan carries
/// the selected policy, the hostname, and the decoded roots.
pub fn plan_handshake(backend: Backend, config: &TlsConfig, root_data: Option<&Vec<u8>>) -> (r:
    Result<HandshakePlan, TlsError>)
    requires
        root_data is Some <==> spec_wants_roots(
            backend,
            config.spec_policy(),
            config.root_cert_path is Some,
        ),
    ensures
        ({
            let policy = config.spec_policy();
            let cert_fail = root_data matches Some(d) && pem_certs_of(d@) is Err;
            let host_fail = spec_checks_hostname(backend) && !is_server_name(config.hostname@);
            &&& (r is Err <==> cert_fail || host_fail)
            &&& (cert_fail ==> r == Result::<HandshakePlan, TlsError>::Err(TlsError::InvalidCertificate))
            &&& (!cert_fail && host_fail ==> r == Result::<HandshakePlan, TlsError>::Err(
                TlsError::InvalidHostname,
            ))
            &&& (r matches Ok(p) ==> {
                &&& p.backend == backend
                &&& p.policy == policy
                &&& p.hostname@ == config.hostname@
                &&& (root_data matches Some(d) ==> Ok::<Seq<Seq<u8>>, ()>(p.extra_roots.deep_view())
                    == pem_certs_of(d@))
                &&& (root_data is None ==> p.extra_roots.deep_view() =~= Seq::<Seq<u8>>::empty())
            })
        }),
{
    let policy = policy_for(config.accept_invalid_certs, config.accept_invalid_hostnames);
    let extra_roots: Vec<Vec<u8>> = match root_data {
        Some(data) => {
            match decode_root_certs(data) {
                Ok(certs) => certs,
                Err(e) => { return Err(e); },
            }
        },
        None => Vec::new(),
    };
    if matches!(backend, Backend::Rustls) && !server_name_valid(config.hostname.as_str()) {
        return Err(TlsError::InvalidHostname);
    }
    Ok(
        HandshakePlan {
            backend,
            policy,
            hostname: config.hostname.as_str().to_owned(),
            extra_roots,
        },
    )
}

} // verus!

//! Per-handshake configuration.

use crate::cert::CertificateInput;
use crate::policy::spec_policy_for;
use crate::policy::VerifyPolicy;
use vstd::prelude::*;

verus! {

/// Configuration for one handshake attempt: verification policy flags, the
/// target hostname, and an optional custom root certificate.
///
/// `accept_invalid_hostnames` means chain validity is still checked but a
/// name mismatch is not rejected; `accept_invalid_certs` means no chain or
/// name verification at all and supersedes the hostname flag.
pub struct TlsConfig {
    pub accept_invalid_certs: bool,
    pub accept_invalid_hostnames: bool,
    pub hostname: String,
    pub root_cert_path: Option<CertificateInput>,
}

impl TlsConfig {
    /// The verification policy these flags select.
    pub open spec fn spec_policy(&self) -> VerifyPolicy {
        spec_policy_for(self.accept_invalid_certs, self.accept_invalid_hostnames)
    }
}

} // verus!

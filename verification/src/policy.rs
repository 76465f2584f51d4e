//! Certificate-verification policies.
//!
//! Three strategies, selected exclusively by configuration and never
//! combined: standard validation, accept-all (insecure), and
//! accept-all-hostnames-only. The last one is a narrow override: it turns
//! exactly the name-mismatch classification into success and re-raises every
//! other validation failure verbatim.

use vstd::prelude::*;

verus! {

/// Structured classification of a server-certificate validation failure.
///
/// The policies below match on this taxonomy rather than on error message
/// text, so the hostname override cannot accidentally swallow expiry,
/// signature, or chain-of-trust failures.
#[derive(Clone, Copy, Debug, PartialEq, Eq, Structural)]
pub enum VerifyError {
    /// The chain is otherwise trustworthy, but the certificate's declared
    /// name(s) do not match the connection target.
    NotValidForName,
    /// The certificate is outside its validity period.
    Expired,
    /// A signature in the chain did not verify.
    BadSignature,
    /// The chain does not lead to a trusted root.
    UnknownIssuer,
    /// The certificate could not be decoded.
    BadEncoding,
    /// Any other validation failure.
    Other,
}

/// Which verification strategy one handshake attempt uses.
#[derive(Clone, Copy, Debug, PartialEq, Eq, Structural)]
pub enum VerifyPolicy {
    /// Full chain-of-trust and hostname validation.
    Standard,
    /// Unconditionally report the server certificate as verified.
    AcceptAll,
    /// Standard chain validation, but a name mismatch is not rejected.
    AcceptAllHostnames,
}

/// The policy that a pair of configuration flags selects.
///
/// `accept_invalid_certs` supersedes `accept_invalid_hostnames`: with the
/// former set, no chain or name verification happens at all.
pub open spec fn spec_policy_for(accept_invalid_certs: bool, accept_invalid_hostnames: bool) -> VerifyPolicy {
    if accept_invalid_certs {
        VerifyPolicy::AcceptAll
    } else if accept_invalid_hostnames {
        VerifyPolicy::AcceptAllHostnames
    } else {
        VerifyPolicy::Standard
    }
}

/// Select the verification policy for the given configuration flags.
pub fn policy_for(accept_invalid_certs: bool, accept_invalid_hostnames: bool) -> (r: VerifyPolicy)
    ensures
        r == spec_policy_for(accept_invalid_certs, accept_invalid_hostnames),
{
    if accept_invalid_certs {
        VerifyPolicy::AcceptAll
    } else if accept_invalid_hostnames {
        VerifyPolicy::AcceptAllHostnames
    } else {
        VerifyPolicy::Standard
    }
}

/// What a policy makes of the standard verifier's outcome.
pub open spec fn spec_apply_policy(
    policy: VerifyPolicy,
    outcome: Result<(), VerifyError>,
) -> Result<(), VerifyError> {
    match policy {
        VerifyPolicy::Standard => outcome,
        VerifyPolicy::AcceptAll => Ok(()),
        VerifyPolicy::AcceptAllHostnames => {
            if outcome == Result::<(), VerifyError>::Err(VerifyError::NotValidForName) {
                Ok(())
            } else {
                outcome
            }
        },
    }
}

/// Apply a verification policy to the outcome of standard validation.
///
/// `Standard` passes the outcome through unchanged. `AcceptAll` reports
/// success whatever was observed. `AcceptAllHostnames` reports success for a
/// successful validation and for exactly the name-mismatch failure, and
/// re-raises every other failure unchanged.
pub fn apply_policy(policy: VerifyPolicy, outcome: Result<(), VerifyError>) -> (r: Result<
    (),
    VerifyError,
>)
    ensures
        r == spec_apply_policy(policy, outcome),
        policy == VerifyPolicy::AcceptAll ==> r is Ok,
        outcome is Ok ==> r is Ok,
        (r is Err) ==> r == outcome,
{
    match policy {
        VerifyPolicy::Standard => outcome,
        VerifyPolicy::AcceptAll => Ok(()),
        VerifyPolicy::AcceptAllHostnames => {
            match outcome {
                Err(VerifyError::NotValidForName) => Ok(()),
                other => other,
            }
        },
    }
}

/// The hostname override is narrow: under `AcceptAllHostnames`, every
/// failure other than a name mismatch is re-raised verbatim, and a name
/// mismatch alone is forgiven.
pub proof fn lemma_hostname_override_is_narrow(e: VerifyError)
    ensures
        e == VerifyError::NotValidForName ==> spec_apply_policy(
            VerifyPolicy::AcceptAllHostnames,
            Err(e),
        ) == Result::<(), VerifyError>::Ok(()),
        e != VerifyError::NotValidForName ==> spec_apply_policy(
            VerifyPolicy::AcceptAllHostnames,
            Err(e),
        ) == Result::<(), VerifyError>::Err(e),
{
}

} // verus!

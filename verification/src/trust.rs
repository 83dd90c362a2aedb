//! Client-side trust policy: the rule that decides whether a server's
//! presented credential is accepted.
//!
//! `TrustAll` bypasses authentication entirely. It exists for local tests
//! against self-signed certificates, is never the default, and every
//! decision taken under it carries an explicit insecure-mode warning.

use vstd::prelude::*;

use crate::errors::TransportError;

verus! {

/// How a client judges the server's certificate chain.
#[derive(Clone, Copy, PartialEq, Eq, Structural, Debug)]
pub enum TrustPolicy {
    /// Accept only a chain that verifies against the client's root store.
    Verify,
    /// Accept any chain. Test-only; conspicuously flagged whenever active.
    TrustAll,
}

/// Whether a handshake is accepted under `p`, given whether the presented
/// chain verifies against the client's roots.
pub open spec fn handshake_accepted(p: TrustPolicy, chain_trusted: bool) -> bool {
    p is TrustAll || chain_trusted
}

/// Outcome of the certificate check for one handshake.
#[derive(Clone, Copy, PartialEq, Eq, Structural, Debug)]
pub struct CertDecision {
    /// The handshake may proceed.
    pub accept: bool,
    /// Authentication was bypassed by `TrustAll`; surface a warning.
    pub insecure_warning: bool,
}

/// Decide one handshake: `chain_trusted` is the verdict of the TLS
/// backend's chain validation against the root store.
pub fn evaluate_server_cert(policy: &TrustPolicy, chain_trusted: bool) -> (r: CertDecision)
    ensures
        r.accept == handshake_accepted(*policy, chain_trusted),
        r.insecure_warning == (*policy is TrustAll),
{
    match policy {
        TrustPolicy::Verify => CertDecision { accept: chain_trusted, insecure_warning: false },
        TrustPolicy::TrustAll => CertDecision { accept: true, insecure_warning: true },
    }
}

/// The handshake as the caller sees it: `Ok` exactly when the policy
/// accepts the chain, `HandshakeFailed` otherwise.
pub fn client_handshake_outcome(policy: &TrustPolicy, chain_trusted: bool) -> (r: Result<
    (),
    TransportError,
>)
    ensures
        r is Ok <==> handshake_accepted(*policy, chain_trusted),
        r is Err ==> r->Err_0 == TransportError::HandshakeFailed,
{
    let d = evaluate_server_cert(policy, chain_trusted);
    if d.accept {
        Ok(())
    } else {
        Err(TransportError::HandshakeFailed)
    }
}

/// Law: under `TrustAll` every handshake succeeds, self-signed and
/// untrusted certificates included; under `Verify` an untrusted chain is
/// rejected and a trusted one accepted.
pub proof fn lemma_trust_policy(chain_trusted: bool)
    ensures
        handshake_accepted(TrustPolicy::TrustAll, chain_trusted),
        !handshake_accepted(TrustPolicy::Verify, false),
        handshake_accepted(TrustPolicy::Verify, true),
{
}

} // verus!

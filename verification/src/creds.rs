//! Server credentials: a self-signed TLS certificate and private key.
//!
//! The certificate generator lives in an outside crate and draws a fresh
//! random key pair, so nothing can be promised about the bytes themselves;
//! the library checks what it needs — both DER blobs present and non-empty
//! — and hands them on as plain values.  Failure to produce a credential is
//! fatal to server startup, and the caller aborts.

use vstd::prelude::*;

verus! {

#[verifier::external_type_specification]
#[verifier::external_body]
pub struct ExCertificateParams(rcgen::CertificateParams);

#[verifier::external_type_specification]
#[verifier::external_body]
pub struct ExCertificate(rcgen::Certificate);

/// Relies on rcgen::CertificateParams::default: stock parameters for one
/// self-signed certificate.
#[verifier::external_body]
fn default_params() -> rcgen::CertificateParams {
    rcgen::CertificateParams::default()
}

/// Relies on rcgen::Certificate::from_params: builds a certificate around
/// a freshly generated random key; the outcome depends on that key, so no
/// more is promised. Failure becomes `None`.
#[verifier::external_body]
fn certificate_from_params(params: rcgen::CertificateParams) -> Option<rcgen::Certificate> {
    match rcgen::Certificate::from_params(params) {
        Ok(c) => Some(c),
        Err(_) => None,
    }
}

/// Relies on rcgen::Certificate::serialize_der: the certificate as DER
/// bytes. Failure becomes `None`.
#[verifier::external_body]
fn certificate_der(cert: &rcgen::Certificate) -> Option<Vec<u8>> {
    match cert.serialize_der() {
        Ok(d) => Some(d),
        Err(_) => None,
    }
}

/// Relies on rcgen::Certificate::serialize_private_key_der: the private
/// key as DER bytes.
#[verifier::external_body]
fn private_key_der(cert: &rcgen::Certificate) -> Vec<u8> {
    cert.serialize_private_key_der()
}

/// A server's TLS credential, as plain DER bytes.
pub struct Credentials {
    pub cert_der: Vec<u8>,
    pub key_der: Vec<u8>,
}

/// Both blobs present: a usable credential is never empty.
pub open spec fn wf_credentials(c: Credentials) -> bool {
    &&& c.cert_der@.len() > 0
    &&& c.key_der@.len() > 0
}

/// Generate the self-signed credential a server listens with. `None`
/// means the TLS backend could not produce one; startup treats that as
/// fatal. Whatever comes back as `Some` is checked to be non-empty.
pub fn make_server_credentials() -> (r: Option<Credentials>)
    ensures
        r is Some ==> wf_credentials(r->0),
{
    let params = default_params();
    let cert = match certificate_from_params(params) {
        Some(c) => c,
        None => {
            return None;
        },
    };
    let cert_der = match certificate_der(&cert) {
        Some(d) => d,
        None => {
            return None;
        },
    };
    let key_der = private_key_der(&cert);
    if cert_der.len() > 0 && key_der.len() > 0 {
        Some(Credentials { cert_der, key_der })
    } else {
        None
    }
}

} // verus!

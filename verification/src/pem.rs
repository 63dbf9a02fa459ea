//! Certificate and key material: parses PEM text into DER blocks for the
//! TLS endpoints that the surrounding application builds.

use vstd::prelude::*;

verus! {

/// The X.509 certificate blocks a PEM text decodes to, or nothing when it
/// cannot be read.  The outcome depends on the bytes alone.
pub uninterp spec fn pem_certificates(bytes: Seq<u8>) -> Option<Seq<Seq<u8>>>;

/// The PKCS#8 private-key blocks a PEM text decodes to, or nothing when it
/// cannot be read.  The outcome depends on the bytes alone.
pub uninterp spec fn pem_pkcs8_keys(bytes: Seq<u8>) -> Option<Seq<Seq<u8>>>;

/// Relies on rustls_pemfile::certs: collects the DER bytes of every
/// CERTIFICATE section of the text, deterministically; a malformed section
/// is the error case.
#[verifier::external_body]
fn certs_raw(bytes: &Vec<u8>) -> (r: Option<Vec<Vec<u8>>>)
    ensures
        r.deep_view() == pem_certificates(bytes@),
{
    rustls_pemfile::certs(&mut std::io::Cursor::new(bytes.as_slice())).ok()
}

/// Relies on rustls_pemfile::pkcs8_private_keys: collects the DER bytes of
/// every PRIVATE KEY section of the text, deterministically; a malformed
/// section is the error case.
#[verifier::external_body]
fn pkcs8_raw(bytes: &Vec<u8>) -> (r: Option<Vec<Vec<u8>>>)
    ensures
        r.deep_view() == pem_pkcs8_keys(bytes@),
{
    rustls_pemfile::pkcs8_private_keys(&mut std::io::Cursor::new(bytes.as_slice())).ok()
}

/// Why PEM material could not be used.
#[derive(Debug, PartialEq, Eq, Structural)]
pub enum PemError {
    /// The text could not be decoded.
    Malformed,
    /// The text held no private key.
    NoKey,
}

/// The certificate chain of a PEM text.
pub fn load_certificates(bytes: &Vec<u8>) -> (r: Result<Vec<Vec<u8>>, PemError>)
    ensures
        match pem_certificates(bytes@) {
            Some(cs) => r matches Ok(v) && v.deep_view() == cs,
            None => r == Err::<Vec<Vec<u8>>, PemError>(PemError::Malformed),
        },
{
    match certs_raw(bytes) {
        Some(v) => Ok(v),
        None => Err(PemError::Malformed),
    }
}

/// The first private key of a PEM text; a text without one is refused.
pub fn load_private_key(bytes: &Vec<u8>) -> (r: Result<Vec<u8>, PemError>)
    ensures
        match pem_pkcs8_keys(bytes@) {
            Some(ks) => if ks.len() == 0 {
                r == Err::<Vec<u8>, PemError>(PemError::NoKey)
            } else {
                r matches Ok(k) && k@ == ks[0]
            },
            None => r == Err::<Vec<u8>, PemError>(PemError::Malformed),
        },
{
    match pkcs8_raw(bytes) {
        Some(keys) => {
            if keys.len() == 0 {
                Err(PemError::NoKey)
            } else {
                proof {
                    assert(keys.deep_view()[0] == keys@[0]@);
                }
                let mut keys = keys;
                let first = keys.remove(0);
                Ok(first)
            }
        },
        None => Err(PemError::Malformed),
    }
}

} // verus!

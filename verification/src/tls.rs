//! TLS credentials: reading certificates and keys from PEM text, and
//! guarding the TLS files against being overwritten.
use tokio_rustls::rustls::pki_types::PrivateKeyDer;
use vstd::prelude::*;

verus! {

/// Why TLS credentials could not be had.
#[derive(Clone, Copy, Debug, PartialEq, Eq)]
pub enum TlsError {
    /// The certificate PEM text could not be read.
    CertificateUnreadable,
    /// The key PEM text could not be read.
    KeyUnreadable,
    /// The key PEM text holds no private key.
    NoPrivateKey,
    /// `cert.pem` or `key.pem` exists and `--tls-gen-force` was not given.
    FilesExist,
}

/// Whether TLS files may be generated: always when forced, else only when
/// neither the certificate nor the key file exists yet.
pub fn check_tls_generation(force: bool, cert_exists: bool, key_exists: bool) -> (r: Result<
    (),
    TlsError,
>)
    ensures
        r == (if !force && (cert_exists || key_exists) {
            Err::<(), TlsError>(TlsError::FilesExist)
        } else {
            Ok::<(), TlsError>(())
        }),
{
    if !force && (cert_exists || key_exists) {
        Err(TlsError::FilesExist)
    } else {
        Ok(())
    }
}

/// The certificates (DER bytes, in order) that `rustls_pemfile::certs`
/// reads from PEM text, or `None` when it reports an error.
pub uninterp spec fn pem_certificates(pem: Seq<u8>) -> Option<Seq<Seq<u8>>>;

/// The bytes of each certificate.
pub open spec fn der_list(v: Seq<Vec<u8>>) -> Seq<Seq<u8>> {
    v.map_values(|c: Vec<u8>| c@)
}

/// Reads all certificates from PEM text with `rustls_pemfile::certs`.
///
/// Trusted: the result is what `pem_certificates` names for the text; the
/// PEM grammar is not written out.
#[verifier::external_body]
fn read_pem_certificates(pem: &[u8]) -> (r: Option<Vec<Vec<u8>>>)
    ensures
        match r {
            Some(v) => pem_certificates(pem@) == Some(der_list(v@)),
            None => pem_certificates(pem@) is None,
        },
{
    let mut rd: &[u8] = pem;
    match rustls_pemfile::certs(&mut rd).collect::<Result<Vec<_>, _>>() {
        Ok(cs) => Some(cs.iter().map(|c| c.as_ref().to_vec()).collect()),
        Err(_) => None,
    }
}

/// The format of a private key.
#[derive(Clone, Copy, Debug, PartialEq, Eq)]
pub enum KeyFormat {
    Pkcs1,
    Pkcs8,
    Sec1,
}

/// The first private key that `rustls_pemfile::private_key` reads from PEM
/// text: `None` when it reports an error (or gives a kind of key other than
/// these three, of which the version used has none), `Some(None)` when
/// there is no key.
pub uninterp spec fn pem_private_key(pem: Seq<u8>) -> Option<Option<(KeyFormat, Seq<u8>)>>;

/// Reads the first private key from PEM text with
/// `rustls_pemfile::private_key`.
///
/// Trusted: the result is what `pem_private_key` names for the text.
#[verifier::external_body]
fn read_pem_private_key(pem: &[u8]) -> (r: Option<Option<(KeyFormat, Vec<u8>)>>)
    ensures
        match r {
            Some(Some((f, k))) => pem_private_key(pem@) == Some(Some((f, k@))),
            Some(None) => pem_private_key(pem@) == Some(None::<(KeyFormat, Seq<u8>)>),
            None => pem_private_key(pem@) is None,
        },
{
    let mut rd: &[u8] = pem;
    match rustls_pemfile::private_key(&mut rd) {
        Ok(Some(PrivateKeyDer::Pkcs1(k))) => Some(Some((KeyFormat::Pkcs1, k.secret_pkcs1_der().to_vec()))),
        Ok(Some(PrivateKeyDer::Pkcs8(k))) => Some(Some((KeyFormat::Pkcs8, k.secret_pkcs8_der().to_vec()))),
        Ok(Some(PrivateKeyDer::Sec1(k))) => Some(Some((KeyFormat::Sec1, k.secret_sec1_der().to_vec()))),
        Ok(Some(_)) => None,
        Ok(None) => Some(None),
        Err(_) => None,
    }
}

/// A server's certificate chain and private key.
pub struct ServerCredentials {
    pub certificates: Vec<Vec<u8>>,
    pub key_format: KeyFormat,
    pub key: Vec<u8>,
}

/// Reads a server's credentials: all certificates of the certificate PEM
/// text, and the first private key of the key PEM text, which must be there.
pub fn server_credentials(cert_pem: &[u8], key_pem: &[u8]) -> (r: Result<ServerCredentials, TlsError>)
    ensures
        match pem_certificates(cert_pem@) {
            None => (r matches Err(e) && e == TlsError::CertificateUnreadable),
            Some(cs) => match pem_private_key(key_pem@) {
                None => (r matches Err(e) && e == TlsError::KeyUnreadable),
                Some(None) => (r matches Err(e) && e == TlsError::NoPrivateKey),
                Some(Some((f, k))) => (r matches Ok(c) && der_list(c.certificates@) == cs
                    && c.key_format == f && c.key@ == k),
            },
        },
{
    let certificates = match read_pem_certificates(cert_pem) {
        Some(cs) => cs,
        None => return Err(TlsError::CertificateUnreadable),
    };
    match read_pem_private_key(key_pem) {
        None => Err(TlsError::KeyUnreadable),
        Some(None) => Err(TlsError::NoPrivateKey),
        Some(Some((key_format, key))) => Ok(ServerCredentials { certificates, key_format, key }),
    }
}

/// Reads the extra trusted certificates of a client from PEM text.
pub fn client_certificates(pem: &[u8]) -> (r: Result<Vec<Vec<u8>>, TlsError>)
    ensures
        match pem_certificates(pem@) {
            None => (r matches Err(e) && e == TlsError::CertificateUnreadable),
            Some(cs) => (r matches Ok(v) && der_list(v@) == cs),
        },
{
    match read_pem_certificates(pem) {
        Some(cs) => Ok(cs),
        None => Err(TlsError::CertificateUnreadable),
    }
}

} // verus!

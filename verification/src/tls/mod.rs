//! Where the TLS certificates come from, and what is read out of them.

pub mod auto_cert;

use crate::config::TlsConfig;
use crate::table::views;
use vstd::prelude::*;

verus! {

/// Why there is no TLS.
#[derive(Debug, Clone, Copy, PartialEq, Eq, Structural)]
pub enum TlsError {
    /// Neither paths are set nor generation is asked for.
    NoSource,
    /// The certificates are no valid PEM.
    BadCertificates,
    /// There are no certificates.
    NoCertificates,
    /// The private key is no valid PEM.
    BadKey,
    /// There is no private key.
    NoKey,
}

impl TlsError {
    /// The text of the error.
    pub open spec fn text(self) -> Seq<char> {
        match self {
            TlsError::NoSource => {
                "TLS enabled but neither cert/key paths nor auto_generate=true are set"@
            },
            TlsError::BadCertificates => "parse certificate PEM"@,
            TlsError::NoCertificates => "no certificates found in PEM data"@,
            TlsError::BadKey => "parse private key PEM"@,
            TlsError::NoKey => "no private key found in PEM data"@,
        }
    }

    /// The text of the error.
    pub fn message(&self) -> (r: String)
        ensures
            r@ == self.text(),
    {
        match self {
            TlsError::NoSource => {
                "TLS enabled but neither cert/key paths nor auto_generate=true are set".to_owned()
            },
            TlsError::BadCertificates => "parse certificate PEM".to_owned(),
            TlsError::NoCertificates => "no certificates found in PEM data".to_owned(),
            TlsError::BadKey => "parse private key PEM".to_owned(),
            TlsError::NoKey => "no private key found in PEM data".to_owned(),
        }
    }
}

// ── Where certificates come from ─────────────────────────────────────────────

/// Whether TLS is on.
pub fn is_enabled(config: &TlsConfig) -> (r: bool)
    ensures
        r == (config.auto_generate || config.cert is Some),
{
    if config.auto_generate {
        return true;
    }
    match &config.cert {
        Some(_) => true,
        None => false,
    }
}

/// Where the certificates come from.
#[derive(Debug)]
pub enum CertSource {
    /// PEM files. `ca` is the file of the trust anchor.
    Files { cert: String, key: String, ca: String },
    /// Development certificates in the data directory.
    Generated,
}

/// Whether the certificates come from `r`. Paths of the certificate and the
/// key come first, and the certificate is its own trust anchor if there is
/// none (self-signed case).
pub open spec fn is_cert_source(config: &TlsConfig, r: Result<CertSource, TlsError>) -> bool {
    match (config.cert, config.key) {
        (Some(c), Some(k)) => r matches Ok(CertSource::Files { cert, key, ca }) && {
            &&& cert@ == c@
            &&& key@ == k@
            &&& ca@ == (match config.ca_cert {
                Some(a) => a@,
                None => c@,
            })
        },
        _ => if config.auto_generate {
            r matches Ok(CertSource::Generated)
        } else {
            r matches Err(TlsError::NoSource)
        },
    }
}

/// Certificate sources, in priority order:
/// 1. `config.cert` + `config.key` — PEM files at these paths.
/// 2. `config.auto_generate == true` — development certificates.
pub fn cert_source(config: &TlsConfig) -> (r: Result<CertSource, TlsError>)
    ensures
        is_cert_source(config, r),
{
    match (&config.cert, &config.key) {
        (Some(cert), Some(key)) => {
            let ca = match &config.ca_cert {
                Some(path) => path.clone(),
                None => cert.clone(),
            };
            Ok(CertSource::Files { cert: cert.clone(), key: key.clone(), ca })
        },
        _ => if config.auto_generate {
            Ok(CertSource::Generated)
        } else {
            Err(TlsError::NoSource)
        },
    }
}

// ── What is in the files ─────────────────────────────────────────────────────

/// `std::io::Error`: why reading failed.
#[verifier::external_type_specification]
#[verifier::external_body]
pub struct ExIoError(std::io::Error);

/// The certificates in a PEM text, in order and in DER; `None` if it is no
/// valid PEM.
pub uninterp spec fn pem_certificates(pem: Seq<u8>) -> Option<Seq<Seq<u8>>>;

/// `rustls_pemfile::certs`, collected. It reads the sections of the PEM text in
/// order and gives the DER bytes of those that are certificates; it fails at
/// the first section that does not decode.
#[verifier::external_body]
fn read_certificates(pem: &[u8]) -> (r: Result<Vec<Vec<u8>>, std::io::Error>)
    ensures
        r is Ok <==> pem_certificates(pem@) is Some,
        r matches Ok(v) ==> pem_certificates(pem@) == Some(views(v@)),
{
    let mut reader = std::io::BufReader::new(pem);
    rustls_pemfile::certs(&mut reader).map(|c| c.map(|c| c.as_ref().to_vec())).collect()
}

/// How a private key is written down.
#[derive(Debug, Clone, Copy, PartialEq, Eq, Structural)]
pub enum KeyFormat {
    Pkcs1,
    Sec1,
    Pkcs8,
    Other,
}

/// A private key: its format and its DER bytes.
pub struct PrivateKey {
    pub format: KeyFormat,
    pub der: Vec<u8>,
}

impl View for PrivateKey {
    type V = (KeyFormat, Seq<u8>);

    open spec fn view(&self) -> (KeyFormat, Seq<u8>) {
        (self.format, self.der@)
    }
}

/// The first private key in a PEM text, if there is one; the outer `None` if
/// the text is no valid PEM up to there.
pub uninterp spec fn pem_private_key(pem: Seq<u8>) -> Option<Option<(KeyFormat, Seq<u8>)>>;

/// `rustls_pemfile::private_key`, by format and DER bytes. It reads the
/// sections of the PEM text in order up to the first private key, and fails at
/// a section before it that does not decode.
#[verifier::external_body]
fn read_private_key(pem: &[u8]) -> (r: Result<Option<PrivateKey>, std::io::Error>)
    ensures
        r is Ok <==> pem_private_key(pem@) is Some,
        r matches Ok(None) ==> pem_private_key(pem@) == Some(no_key()),
        r matches Ok(Some(k)) ==> pem_private_key(pem@) == Some(Some(k@)),
{
    let found = rustls_pemfile::private_key(&mut std::io::BufReader::new(pem))?;
    Ok(found.map(|k| PrivateKey {
        format: match &k {
            rustls::pki_types::PrivateKeyDer::Pkcs1(_) => KeyFormat::Pkcs1,
            rustls::pki_types::PrivateKeyDer::Sec1(_) => KeyFormat::Sec1,
            rustls::pki_types::PrivateKeyDer::Pkcs8(_) => KeyFormat::Pkcs8,
            _ => KeyFormat::Other,
        },
        der: k.secret_der().to_vec(),
    }))
}

/// That there is no key.
pub open spec fn no_key() -> Option<(KeyFormat, Seq<u8>)> {
    None
}

/// What a file of certificates gives, by what was read of it: at least one
/// certificate is needed.
pub open spec fn usable_certs(found: Option<Seq<Seq<u8>>>) -> Result<Seq<Seq<u8>>, TlsError> {
    match found {
        None => Err(TlsError::BadCertificates),
        Some(certs) => if certs.len() == 0 {
            Err(TlsError::NoCertificates)
        } else {
            Ok(certs)
        },
    }
}

/// What a file of certificates gives, by what was read of it.
pub fn accept_certs(found: Option<Vec<Vec<u8>>>) -> (r: Result<Vec<Vec<u8>>, TlsError>)
    ensures
        match found {
            None => r == Err::<Vec<Vec<u8>>, TlsError>(TlsError::BadCertificates),
            Some(certs) => if certs@.len() == 0 {
                r == Err::<Vec<Vec<u8>>, TlsError>(TlsError::NoCertificates)
            } else {
                r == Ok::<Vec<Vec<u8>>, TlsError>(certs)
            },
        },
{
    match found {
        None => Err(TlsError::BadCertificates),
        Some(certs) => if certs.len() == 0 {
            Err(TlsError::NoCertificates)
        } else {
            Ok(certs)
        },
    }
}

/// The certificates in a PEM file, in DER.
pub fn parse_certs(pem: &[u8]) -> (r: Result<Vec<Vec<u8>>, TlsError>)
    ensures
        match r {
            Ok(certs) => usable_certs(pem_certificates(pem@)) == Ok::<_, TlsError>(views(certs@)),
            Err(e) => usable_certs(pem_certificates(pem@)) == Err::<Seq<Seq<u8>>, _>(e),
        },
{
    match read_certificates(pem) {
        Ok(certs) => accept_certs(Some(certs)),
        Err(_) => accept_certs(None),
    }
}

/// What a key file gives, by what was read of it.
pub open spec fn usable_key(found: Option<Option<(KeyFormat, Seq<u8>)>>) -> Result<
    (KeyFormat, Seq<u8>),
    TlsError,
> {
    match found {
        None => Err(TlsError::BadKey),
        Some(None) => Err(TlsError::NoKey),
        Some(Some(key)) => Ok(key),
    }
}

/// What a key file gives, by what was read of it.
pub fn accept_key(found: Option<Option<PrivateKey>>) -> (r: Result<PrivateKey, TlsError>)
    ensures
        match found {
            None => r == Err::<PrivateKey, TlsError>(TlsError::BadKey),
            Some(None) => r == Err::<PrivateKey, TlsError>(TlsError::NoKey),
            Some(Some(key)) => r == Ok::<PrivateKey, TlsError>(key),
        },
{
    match found {
        None => Err(TlsError::BadKey),
        Some(None) => Err(TlsError::NoKey),
        Some(Some(key)) => Ok(key),
    }
}

/// The private key in a PEM file.
pub fn parse_private_key(pem: &[u8]) -> (r: Result<PrivateKey, TlsError>)
    ensures
        match r {
            Ok(key) => usable_key(pem_private_key(pem@)) == Ok::<_, TlsError>(key@),
            Err(e) => usable_key(pem_private_key(pem@)) == Err::<(KeyFormat, Seq<u8>), _>(e),
        },
{
    match read_private_key(pem) {
        Ok(key) => accept_key(Some(key)),
        Err(_) => accept_key(None),
    }
}

// ── Laws ─────────────────────────────────────────────────────────────────────

/// Where TLS is on and a certificate is given together with its key, or
/// generation is asked for, there is a source.
pub proof fn lemma_enabled_has_source(config: &TlsConfig, r: Result<CertSource, TlsError>)
    requires
        is_cert_source(config, r),
        config.auto_generate || config.cert is Some && config.key is Some,
    ensures
        r is Ok,
{
}

/// Files that are named come first, and the certificate stands for the authority
/// where none is named. Without both files certificates are generated, if that is
/// allowed.
pub proof fn lemma_source_of_certificates(config: &TlsConfig, r: Result<CertSource, TlsError>)
    requires
        is_cert_source(config, r),
    ensures
        config.cert is Some && config.key is Some ==> (r matches Ok(
            CertSource::Files { cert, key, ca },
        ) && cert@ == config.cert->0@ && key@ == config.key->0@ && (config.ca_cert is Some ==> ca@
            == config.ca_cert->0@) && (config.ca_cert is None ==> ca@ == config.cert->0@)),
        config.cert is None || config.key is None ==> {
            &&& config.auto_generate ==> (r matches Ok(CertSource::Generated))
            &&& !config.auto_generate ==> (r matches Err(TlsError::NoSource))
        },
{
}

/// Certificates are used exactly if the file can be read and holds some, and a
/// key exactly if the file can be read and holds one: each fault has its own
/// error.
pub proof fn lemma_what_can_be_used(certs: Seq<Seq<u8>>, key: (KeyFormat, Seq<u8>))
    ensures
        usable_certs(None) == Err::<Seq<Seq<u8>>, TlsError>(TlsError::BadCertificates),
        usable_certs(Some(Seq::empty())) == Err::<Seq<Seq<u8>>, TlsError>(TlsError::NoCertificates),
        certs.len() > 0 ==> usable_certs(Some(certs)) == Ok::<Seq<Seq<u8>>, TlsError>(certs),
        usable_key(None) == Err::<(KeyFormat, Seq<u8>), TlsError>(TlsError::BadKey),
        usable_key(Some(None)) == Err::<(KeyFormat, Seq<u8>), TlsError>(TlsError::NoKey),
        usable_key(Some(Some(key))) == Ok::<(KeyFormat, Seq<u8>), TlsError>(key),
{
}

} // verus!

use vstd::prelude::*;

verus! {

/// `rcgen::Certificate`, opaque to the verifier: an issued X.509 certificate.
#[verifier::external_type_specification]
#[verifier::external_body]
pub struct ExCertificate(rcgen::Certificate);

/// `rcgen::KeyPair`, opaque to the verifier: a private signing key.
#[verifier::external_type_specification]
#[verifier::external_body]
pub struct ExKeyPair(rcgen::KeyPair);

/// `rcgen::CertificateParams`, opaque to the verifier: parameters a
/// certificate is issued from.
#[verifier::external_type_specification]
#[verifier::external_body]
pub struct ExCertificateParams(rcgen::CertificateParams);

/// `rcgen::Error`, opaque to the verifier.
#[verifier::external_type_specification]
#[verifier::external_body]
pub struct ExRcgenError(rcgen::Error);

/// Whether `rcgen::CertificateParams::from_ca_cert_pem` accepts this text:
/// parseable PEM holding a parseable X.509 certificate. Acceptance is a
/// deterministic function of the text alone, so it can bear a name; the
/// parser does not itself check that the certificate is a CA.
pub uninterp spec fn is_ca_certificate_pem(s: Seq<char>) -> bool;

/// Whether `rcgen::KeyPair::from_pem` accepts this text: parseable PEM
/// holding a parseable private key. Acceptance is a deterministic function
/// of the text alone, so it can bear a name.
pub uninterp spec fn is_private_key_pem(s: Seq<char>) -> bool;

/// Relies on `rcgen::KeyPair::from_pem`: parses a private key from PEM text,
/// deterministically, succeeding exactly on text the parser accepts.
pub assume_specification[ rcgen::KeyPair::from_pem ](pem_str: &str) -> (r: Result<
    rcgen::KeyPair,
    rcgen::Error,
>)
    ensures
        r is Ok <==> is_private_key_pem(pem_str@),
;

/// Relies on `rcgen::CertificateParams::from_ca_cert_pem`: re-reads issuing
/// parameters from an existing certificate in PEM text, deterministically,
/// succeeding exactly on text the parser accepts.
pub assume_specification[ rcgen::CertificateParams::from_ca_cert_pem ](pem_str: &str) -> (r:
    Result<rcgen::CertificateParams, rcgen::Error>)
    ensures
        r is Ok <==> is_ca_certificate_pem(pem_str@),
;

/// Relies on `rcgen::CertificateParams::self_signed`: issues a certificate
/// over these parameters, signed with the given key.
pub assume_specification[ rcgen::CertificateParams::self_signed ](
    params: rcgen::CertificateParams,
    key_pair: &rcgen::KeyPair,
) -> Result<rcgen::Certificate, rcgen::Error>;

/// Relies on `rcgen::KeyPair::generate`, `CertificateParams::self_signed`,
/// `Certificate::pem` and `KeyPair::serialize_pem`: draws a fresh key pair,
/// issues the self-signed certificate over `params`, and serialises both as
/// PEM text. Serialisation stays in this one body, applied only to the pair
/// just generated here: `serialize_pem` does not return on a remote key
/// pair, so no caller-supplied key may reach it through a trusted contract.
/// On success the two texts are rcgen's own round trip, re-accepted by
/// `from_ca_cert_pem` and `from_pem` respectively.
#[verifier::external_body]
fn generate_root(params: rcgen::CertificateParams) -> (r: Result<
    (RootCertificate, String, String),
    rcgen::Error,
>)
    ensures
        r matches Ok(t) ==> is_ca_certificate_pem(t.1@) && is_private_key_pem(t.2@),
{
    let private_key = rcgen::KeyPair::generate()?;
    let certificate = params.self_signed(&private_key)?;
    let cert_pem = certificate.pem();
    let key_pem = private_key.serialize_pem();
    Ok((RootCertificate { certificate, private_key }, cert_pem, key_pem))
}

/// Relies on `rcgen::CertificateParams::default`, `rcgen::DistinguishedName::new`
/// and `DistinguishedName::push`: builds parameters for a root certificate
/// authority whose subject common name is `common_name`, with `is_ca` set
/// (unconstrained) and the certificate-signing and CRL-signing key usages.
#[verifier::external_body]
fn ca_certificate_params(common_name: &str) -> rcgen::CertificateParams {
    let mut params = rcgen::CertificateParams::default();
    params.distinguished_name = rcgen::DistinguishedName::new();
    params.distinguished_name.push(
        rcgen::DnType::CommonName,
        rcgen::DnValue::Utf8String(common_name.to_string()),
    );
    params.key_usages = vec![
        rcgen::KeyUsagePurpose::KeyCertSign,
        rcgen::KeyUsagePurpose::CrlSign,
    ];
    params.is_ca = rcgen::IsCa::Ca(rcgen::BasicConstraints::Unconstrained);
    params
}

/// Subject common name of a generated root certificate, a fixed product
/// identifier.
pub open spec fn spec_ca_common_name() -> Seq<char> {
    "<HTTP-MITM-PROXY CA>"@
}

/// The executable counterpart of `spec_ca_common_name`.
pub fn ca_common_name() -> (s: &'static str)
    ensures
        s@ == spec_ca_common_name(),
{
    "<HTTP-MITM-PROXY CA>"
}

/// A self-signed root certificate-authority pair: the certificate and the
/// private key it is signed with. Immutable after construction and shared
/// read-only with the proxy engine for the process lifetime.
pub struct RootCertificate {
    pub certificate: rcgen::Certificate,
    pub private_key: rcgen::KeyPair,
}

/// How the root certificate was obtained, so that callers can tell the two
/// paths apart and log them.
pub enum CaOutcome {
    /// A fresh pair was generated; exactly these two PEM texts remain to be
    /// persisted (certificate first, key second) for the pair to survive a
    /// restart.
    Generated { root: RootCertificate, cert_pem: String, key_pem: String },
    /// The pair was rebuilt from the two PEM texts found on disk.
    Loaded { root: RootCertificate },
}

/// Why the certificate-authority store failed; every variant is fatal to
/// startup.
pub enum CaError {
    /// Generating or self-signing a fresh pair failed.
    Generation(rcgen::Error),
    /// The certificate PEM text exists but the certificate parser rejects it.
    CertificateParse(rcgen::Error),
    /// The key PEM text exists but the key parser rejects it.
    KeyParse(rcgen::Error),
    /// Re-deriving the self-signed certificate from the loaded parameters
    /// and key failed.
    SelfSign(rcgen::Error),
}

/// The certificate-authority store. Given the contents of the two PEM files
/// (`None` where a file is missing or unreadable), it either rebuilds the
/// root pair from both texts, or generates a fresh self-signed pair and
/// returns the two PEM texts to persist. A parse failure on existing text is
/// exactly the matching fatal error, never a silent regeneration; with both
/// texts valid the pair loads, unless the final self-signing step fails.
pub fn load_or_create(cert_pem: Option<String>, key_pem: Option<String>) -> (r: Result<
    CaOutcome,
    CaError,
>)
    ensures
        match r {
            Ok(outcome) => match outcome {
                CaOutcome::Generated { .. } => cert_pem is None || key_pem is None,
                CaOutcome::Loaded { .. } => cert_pem is Some && key_pem is Some,
            },
            Err(e) => match e {
                CaError::Generation(_) => cert_pem is None || key_pem is None,
                CaError::CertificateParse(_) => cert_pem is Some && key_pem is Some,
                CaError::KeyParse(_) => cert_pem is Some && key_pem is Some,
                CaError::SelfSign(_) => cert_pem is Some && key_pem is Some,
            },
        },
        (cert_pem matches Some(c) && key_pem matches Some(k) && !is_ca_certificate_pem(c@))
            ==> r matches Err(CaError::CertificateParse(_)),
        (cert_pem matches Some(c) && key_pem matches Some(k) && is_ca_certificate_pem(c@)
            && !is_private_key_pem(k@)) ==> r matches Err(CaError::KeyParse(_)),
        (cert_pem matches Some(c) && key_pem matches Some(k) && is_ca_certificate_pem(c@)
            && is_private_key_pem(k@)) ==> (r matches Ok(CaOutcome::Loaded { .. }) || r matches Err(
            CaError::SelfSign(_),
        )),
        r matches Ok(CaOutcome::Generated { cert_pem: cp, key_pem: kp, .. })
            ==> is_ca_certificate_pem(cp@) && is_private_key_pem(kp@),
{
    match (cert_pem, key_pem) {
        (Some(cert_text), Some(key_text)) => {
            let params = match rcgen::CertificateParams::from_ca_cert_pem(cert_text.as_str()) {
                Ok(p) => p,
                Err(e) => {
                    return Err(CaError::CertificateParse(e));
                },
            };
            let private_key = match rcgen::KeyPair::from_pem(key_text.as_str()) {
                Ok(k) => k,
                Err(e) => {
                    return Err(CaError::KeyParse(e));
                },
            };
            let certificate = match params.self_signed(&private_key) {
                Ok(c) => c,
                Err(e) => {
                    return Err(CaError::SelfSign(e));
                },
            };
            Ok(CaOutcome::Loaded { root: RootCertificate { certificate, private_key } })
        },
        _ => {
            let params = ca_certificate_params(ca_common_name());
            match generate_root(params) {
                Ok((root, cert_pem_text, key_pem_text)) => Ok(
                    CaOutcome::Generated {
                        root,
                        cert_pem: cert_pem_text,
                        key_pem: key_pem_text,
                    },
                ),
                Err(e) => Err(CaError::Generation(e)),
            }
        },
    }
}

} // verus!

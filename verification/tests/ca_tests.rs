use range_proxy::ca::{load_or_create, CaError, CaOutcome, RootCertificate};

fn expect_generated(r: Result<CaOutcome, CaError>) -> (RootCertificate, String, String) {
    match r {
        Ok(CaOutcome::Generated { root, cert_pem, key_pem }) => (root, cert_pem, key_pem),
        Ok(CaOutcome::Loaded { .. }) => panic!("expected a generated pair, found a loaded one"),
        Err(_) => panic!("expected a generated pair, found an error"),
    }
}

#[test]
fn fresh_store_generates_a_ca_and_reloads_the_same_key() {
    // No existing files: a pair is generated, with exactly two PEM texts to persist.
    let (root, cert_pem, key_pem) = expect_generated(load_or_create(None, None));

    // The generated certificate is a CA with the fixed common name and the
    // certificate-signing and CRL-signing usages.
    let params = rcgen::CertificateParams::from_ca_cert_pem(&cert_pem).unwrap();
    assert!(matches!(params.is_ca, rcgen::IsCa::Ca(_)));
    assert!(params.key_usages.contains(&rcgen::KeyUsagePurpose::KeyCertSign));
    assert!(params.key_usages.contains(&rcgen::KeyUsagePurpose::CrlSign));
    assert_eq!(
        params.distinguished_name.get(&rcgen::DnType::CommonName),
        Some(&rcgen::DnValue::Utf8String("<HTTP-MITM-PROXY CA>".to_string()))
    );

    // A second call with the two persisted texts loads, and the loaded pair
    // carries the same public key as the one just generated.
    match load_or_create(Some(cert_pem), Some(key_pem)) {
        Ok(CaOutcome::Loaded { root: loaded }) => {
            assert_eq!(loaded.private_key.public_key_der(), root.private_key.public_key_der());
        },
        Ok(CaOutcome::Generated { .. }) => panic!("existing texts must load, not regenerate"),
        Err(_) => panic!("existing texts must load, not fail"),
    }
}

#[test]
fn missing_key_text_regenerates() {
    let (_, cert_pem, _) = expect_generated(load_or_create(None, None));
    expect_generated(load_or_create(Some(cert_pem), None));
}

#[test]
fn unparseable_certificate_text_is_a_fatal_error() {
    let r = load_or_create(
        Some("this is not a certificate".to_string()),
        Some("this is not a key".to_string()),
    );
    assert!(matches!(r, Err(CaError::CertificateParse(_))));
}

#[test]
fn unparseable_key_text_is_a_fatal_error() {
    let (_, cert_pem, _) = expect_generated(load_or_create(None, None));
    let r = load_or_create(Some(cert_pem), Some("garbage".to_string()));
    assert!(matches!(r, Err(CaError::KeyParse(_))));
}

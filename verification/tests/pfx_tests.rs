use x509_certificate::codesign::create_self_signed_code_signing_certificate;
use x509_certificate::errors::X509CertificateError;
use x509_certificate::keys::KeyAlgorithm;
use x509_certificate::pfx::{bmp_string, parse_pfx_data};

/// A PFX container holding one freshly built certificate and its key,
/// protected by `password`.
fn build_pfx(password: &str) -> (Vec<u8>, Vec<u8>, Vec<u8>) {
    let (cert, key_pair, doc) = create_self_signed_code_signing_certificate(
        KeyAlgorithm::Ed25519,
        "test",
        "US",
        "nobody@example.com",
        3600,
    )
    .unwrap();

    let cert_der = cert.constructed_data().clone();
    let pfx = p12::PFX::new(&cert_der, &doc, None, password, "testuser").unwrap();
    (pfx.to_der(), cert_der, key_pair.pkcs8_der.clone())
}

#[test]
fn extract_with_correct_password() {
    let (pfx_der, cert_der, key_der) = build_pfx("password123");

    let (cert, key) = parse_pfx_data(&pfx_der, "password123").unwrap();
    assert_eq!(cert.constructed_data(), &cert_der);
    assert_eq!(key.pkcs8_der, key_der);
    assert_eq!(key.algorithm, KeyAlgorithm::Ed25519);

    // The recovered pair still works together: the certificate is
    // self-signed by the key it carries.
    cert.verify_signed_by_certificate(cert.certificate()).unwrap();
}

#[test]
fn extract_with_wrong_password_is_bad_password() {
    let (pfx_der, _cert_der, _key_der) = build_pfx("password123");

    let err = parse_pfx_data(&pfx_der, "bad-password").unwrap_err();
    assert!(matches!(err, X509CertificateError::PfxBadPassword));

    let err = parse_pfx_data(&pfx_der, "").unwrap_err();
    assert!(matches!(err, X509CertificateError::PfxBadPassword));
}

#[test]
fn extraction_is_deterministic() {
    let (pfx_der, _cert_der, _key_der) = build_pfx("hunter2");

    let (cert_a, key_a) = parse_pfx_data(&pfx_der, "hunter2").unwrap();
    let (cert_b, key_b) = parse_pfx_data(&pfx_der, "hunter2").unwrap();
    assert_eq!(cert_a.constructed_data(), cert_b.constructed_data());
    assert_eq!(key_a.pkcs8_der, key_b.pkcs8_der);
    assert_eq!(key_a.public_key, key_b.public_key);
}

#[test]
fn garbage_is_a_parse_error() {
    let err = parse_pfx_data(b"not a pfx container at all", "password").unwrap_err();
    assert!(matches!(err, X509CertificateError::PfxParse));
}

#[test]
fn bmp_string_is_utf16_be_with_terminator() {
    assert_eq!(bmp_string("ab"), vec![0x00, 0x61, 0x00, 0x62, 0x00, 0x00]);
    assert_eq!(bmp_string(""), vec![0x00, 0x00]);
    // A character above one byte uses both bytes of its code unit.
    assert_eq!(bmp_string("\u{0141}"), vec![0x01, 0x41, 0x00, 0x00]);
}

#[test]
fn key_decode_rejects_garbage() {
    let err =
        x509_certificate::keys::InMemorySigningKeyPair::from_pkcs8_der(&[1, 2, 3]).unwrap_err();
    assert!(matches!(err, X509CertificateError::KeyDecode));
}

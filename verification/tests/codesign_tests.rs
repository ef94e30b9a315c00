use x509_certificate::codesign::create_self_signed_code_signing_certificate;
use x509_certificate::errors::X509CertificateError;
use x509_certificate::keys::KeyAlgorithm;

#[test]
fn generate_self_signed_certificate_ecdsa() {
    create_self_signed_code_signing_certificate(
        KeyAlgorithm::Ecdsa,
        "test",
        "US",
        "nobody@example.com",
        3600,
    )
    .unwrap();
}

#[test]
fn generate_self_signed_certificate_ed25519() {
    create_self_signed_code_signing_certificate(
        KeyAlgorithm::Ed25519,
        "test",
        "US",
        "nobody@example.com",
        3600,
    )
    .unwrap();
}

#[test]
fn generate_self_signed_certificate_rsa_is_refused() {
    let err = create_self_signed_code_signing_certificate(
        KeyAlgorithm::Rsa,
        "test",
        "US",
        "nobody@example.com",
        3600,
    )
    .unwrap_err();
    assert!(matches!(err, X509CertificateError::UnsupportedKeyAlgorithm));
}

#[test]
fn code_signing_certificate_carries_extensions() {
    let (cert, _key, _doc) = create_self_signed_code_signing_certificate(
        KeyAlgorithm::Ed25519,
        "test",
        "US",
        "nobody@example.com",
        3600,
    )
    .unwrap();

    let parsed = cert.certificate();
    assert!(parsed.subject_is_issuer());
    let exts = parsed.0.tbs_certificate.extensions.as_ref().unwrap();
    assert_eq!(exts.len(), 2);
    // Key usage: digital signature only.
    assert_eq!(exts[0].oid, vec![85u8, 29, 15]);
    assert_eq!(exts[0].critical, Some(true));
    assert_eq!(exts[0].value, vec![3u8, 2, 7, 128]);
    // Extended key usage: SEQUENCE of the code-signing purpose OID.
    assert_eq!(exts[1].oid, vec![85u8, 29, 37]);
    assert_eq!(exts[1].critical, Some(true));
    assert_eq!(exts[1].value, vec![0x30u8, 0x0a, 0x06, 0x08, 43, 6, 1, 5, 5, 7, 3, 3]);
}

#[test]
fn signature_over_payload_end_to_end() {
    // Build a self-signed Ed25519 certificate with a one hour validity,
    // sign an arbitrary payload with the returned key, and verify that
    // signature against the certificate's embedded public key.
    let (cert, key_pair, _doc) = create_self_signed_code_signing_certificate(
        KeyAlgorithm::Ed25519,
        "test",
        "US",
        "nobody@example.com",
        3600,
    )
    .unwrap();

    let payload = b"hello, world";
    let signature = key_pair.sign(payload).unwrap();

    let public_key = cert.certificate().public_key_data();
    let verifier = ring::signature::UnparsedPublicKey::new(&ring::signature::ED25519, &public_key);
    verifier.verify(payload, &signature).unwrap();

    // Flipping a single byte of the payload must break the signature.
    let mut flipped = payload.to_vec();
    flipped[0] ^= 0x01;
    assert!(verifier.verify(&flipped, &signature).is_err());

    // The certificate itself is self-signed.
    cert.verify_signed_by_certificate(cert.certificate()).unwrap();
}

#[test]
fn tampered_signature_fails_verification() {
    let (cert, _key, _doc) = create_self_signed_code_signing_certificate(
        KeyAlgorithm::Ed25519,
        "test",
        "US",
        "nobody@example.com",
        3600,
    )
    .unwrap();

    // Corrupt the final signature byte of the captured encoding.
    let mut bytes = cert.constructed_data().clone();
    let last = bytes.len() - 1;
    bytes[last] ^= 0x01;
    let tampered =
        x509_certificate::certificate::CapturedX509Certificate::from_der(bytes).unwrap();
    let err = tampered
        .verify_signed_by_certificate(cert.certificate())
        .unwrap_err();
    assert!(matches!(
        err,
        X509CertificateError::CertificateSignatureVerificationFailed
    ));
}

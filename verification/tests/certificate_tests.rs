use std::cmp::Ordering;

use x509_certificate::builder::X509CertificateBuilder;
use x509_certificate::certificate::{
    CapturedX509Certificate, MutableX509Certificate, X509Certificate, certificate_is_subset_of,
};
use x509_certificate::errors::X509CertificateError;
use x509_certificate::keys::KeyAlgorithm;
use x509_certificate::model::{AttributeTypeAndValue, Name, Rdn};

fn simple_name(cn: &str) -> Name {
    let mut name = Name::new_empty();
    name.append_common_name_utf8_string(cn).unwrap();
    name
}

#[test]
fn builder_ed25519_default() {
    let builder = X509CertificateBuilder::new(KeyAlgorithm::Ed25519);
    builder.create_with_random_keypair().unwrap();
}

#[test]
fn build_ecdsa_default() {
    let builder = X509CertificateBuilder::new(KeyAlgorithm::Ecdsa);
    builder.create_with_random_keypair().unwrap();
}

#[test]
fn build_subject_populate() {
    let mut builder = X509CertificateBuilder::new(KeyAlgorithm::Ed25519);
    builder
        .subject
        .append_common_name_utf8_string("My Name")
        .unwrap();
    builder
        .subject
        .append_country_utf8_string("Wakanda")
        .unwrap();

    builder.create_with_random_keypair().unwrap();
}

#[test]
fn build_rsa_is_not_offered() {
    let builder = X509CertificateBuilder::new(KeyAlgorithm::Rsa);
    let err = builder.create_with_random_keypair().unwrap_err();
    assert!(matches!(err, X509CertificateError::UnsupportedKeyAlgorithm));
}

#[test]
fn roundtrip_der_structural_equality() {
    let mut builder = X509CertificateBuilder::new(KeyAlgorithm::Ed25519);
    builder.subject.append_common_name_utf8_string("test").unwrap();
    builder.serial_number(0x1234);
    let (cert, _key, _doc) = builder.create_with_random_keypair().unwrap();

    let original = cert.certificate().clone();
    let der = original.encode_der().unwrap();
    let decoded = X509Certificate::from_der(&der).unwrap();
    assert_eq!(decoded, original);

    let der2 = decoded.encode_der().unwrap();
    assert_eq!(der2, der);

    // The captured bytes are the same encoding.
    assert_eq!(cert.constructed_data().as_slice(), der.as_slice());
}

#[test]
fn roundtrip_self_signed_verifies() {
    let builder = X509CertificateBuilder::new(KeyAlgorithm::Ed25519);
    let (cert, _key, _doc) = builder.create_with_random_keypair().unwrap();
    cert.verify_signed_by_certificate(cert.certificate()).unwrap();
}

#[test]
fn from_der_rejects_garbage() {
    let err = X509Certificate::from_der(&[0x30, 0x03, 0x01, 0x02]).unwrap_err();
    assert!(matches!(err, X509CertificateError::CertificateDecode));
}

#[test]
fn from_pem_rejects_garbage() {
    let err = X509Certificate::from_pem(b"this is not pem").unwrap_err();
    assert!(matches!(err, X509CertificateError::PemDecode));
}

#[test]
fn serial_number_encoding() {
    let mut builder = X509CertificateBuilder::new(KeyAlgorithm::Ed25519);
    builder.serial_number(0x1234);
    let (cert, _key, _doc) = builder.create_with_random_keypair().unwrap();
    assert_eq!(
        cert.certificate().serial_number_asn1().as_slice(),
        &[0x12, 0x34]
    );

    let mut builder = X509CertificateBuilder::new(KeyAlgorithm::Ed25519);
    builder.serial_number(-1);
    let (cert, _key, _doc) = builder.create_with_random_keypair().unwrap();
    assert_eq!(cert.certificate().serial_number_asn1().as_slice(), &[0xff]);

    let mut builder = X509CertificateBuilder::new(KeyAlgorithm::Ed25519);
    builder.serial_number(128);
    let (cert, _key, _doc) = builder.create_with_random_keypair().unwrap();
    assert_eq!(
        cert.certificate().serial_number_asn1().as_slice(),
        &[0x00, 0x80]
    );
}

#[test]
fn key_algorithm_is_reported() {
    let builder = X509CertificateBuilder::new(KeyAlgorithm::Ed25519);
    let (cert, _key, _doc) = builder.create_with_random_keypair().unwrap();
    assert_eq!(cert.certificate().key_algorithm(), Some(KeyAlgorithm::Ed25519));

    let builder = X509CertificateBuilder::new(KeyAlgorithm::Ecdsa);
    let (cert, _key, _doc) = builder.create_with_random_keypair().unwrap();
    assert_eq!(cert.certificate().key_algorithm(), Some(KeyAlgorithm::Ecdsa));
}

#[test]
fn pem_roundtrip() {
    let builder = X509CertificateBuilder::new(KeyAlgorithm::Ed25519);
    let (cert, _key, _doc) = builder.create_with_random_keypair().unwrap();
    let pem = cert.encode_pem();
    assert!(pem.contains("BEGIN CERTIFICATE"));

    let reparsed = CapturedX509Certificate::from_pem(pem.as_bytes()).unwrap();
    assert_eq!(reparsed.constructed_data(), cert.constructed_data());
}

#[test]
fn pem_multiple_filters_tags() {
    let builder = X509CertificateBuilder::new(KeyAlgorithm::Ed25519);
    let (cert_a, _key, _doc) = builder.create_with_random_keypair().unwrap();
    let builder = X509CertificateBuilder::new(KeyAlgorithm::Ed25519);
    let (cert_b, _key, _doc) = builder.create_with_random_keypair().unwrap();

    let mut text = cert_a.encode_pem();
    text.push('\n');
    // A non-certificate block that must be ignored.
    text.push_str(&pem::encode(&pem::Pem::new("PRIVATE KEY", vec![1u8, 2, 3])));
    text.push('\n');
    text.push_str(&cert_b.encode_pem());

    let certs = X509Certificate::from_pem_multiple(text.as_bytes()).unwrap();
    assert_eq!(certs.len(), 2);

    let captured = CapturedX509Certificate::from_pem_multiple(text.as_bytes()).unwrap();
    assert_eq!(captured.len(), 2);
    assert_eq!(captured[0].constructed_data(), cert_a.constructed_data());
    assert_eq!(captured[1].constructed_data(), cert_b.constructed_data());
}

#[test]
fn subset_check_serial_and_names() {
    let mut a_name = simple_name("shared");
    let b_name = {
        let mut n = simple_name("shared");
        n.append_country_utf8_string("US").unwrap();
        n
    };
    let serial_one = vec![1u8];
    let serial_two = vec![2u8];

    // Same serial, a's RDNs all present in b: subset.
    assert!(certificate_is_subset_of(&serial_one, &a_name, &serial_one, &b_name));
    // Serials differ: not a subset even with identical names.
    assert!(!certificate_is_subset_of(&serial_one, &a_name, &serial_two, &a_name));
    // b has an RDN that a lacks: b is not a subset of a.
    assert!(!certificate_is_subset_of(&serial_one, &b_name, &serial_one, &a_name));

    // An RDN with a different value breaks the subset.
    a_name.append_country_utf8_string("CA").unwrap();
    assert!(!certificate_is_subset_of(&serial_one, &a_name, &serial_one, &b_name));
}

#[test]
fn rdn_equality_is_structural() {
    let atv = |oid: Vec<u8>, value: &str| AttributeTypeAndValue {
        oid,
        value_tag: 0x0c,
        value: value.as_bytes().to_vec(),
    };
    let r1 = Rdn { atvs: vec![atv(vec![85, 4, 3], "x")] };
    let r2 = Rdn { atvs: vec![atv(vec![85, 4, 3], "x")] };
    let r3 = Rdn { atvs: vec![atv(vec![85, 4, 3], "y")] };
    let n = Name { rdns: vec![r1] };
    assert!(x509_certificate::certificate::name_contains_rdn(&n, &r2));
    assert!(!x509_certificate::certificate::name_contains_rdn(&n, &r3));
}

fn issued_pair() -> (X509Certificate, X509Certificate) {
    // B is an intermediate issued by a root; A claims B as its issuer.
    let mut b_builder = X509CertificateBuilder::new(KeyAlgorithm::Ed25519);
    b_builder.subject.append_common_name_utf8_string("authority").unwrap();
    b_builder.issuer = Some(simple_name("root"));
    let (b, _key, _doc) = b_builder.create_with_random_keypair().unwrap();

    let mut a_builder = X509CertificateBuilder::new(KeyAlgorithm::Ed25519);
    a_builder.subject.append_common_name_utf8_string("leaf").unwrap();
    a_builder.issuer = Some(simple_name("authority"));
    let (a, _key, _doc) = a_builder.create_with_random_keypair().unwrap();

    (a.certificate().clone(), b.certificate().clone())
}

#[test]
fn compare_issuer_ordering() {
    let (a, b) = issued_pair();

    // A was issued by B: the issuer comes first.
    assert_eq!(a.compare_issuer(&b), Ordering::Greater);
    assert_eq!(b.compare_issuer(&a), Ordering::Less);

    // A self-signed certificate compares equal with anything.
    let mut s_builder = X509CertificateBuilder::new(KeyAlgorithm::Ed25519);
    s_builder.subject.append_common_name_utf8_string("solo").unwrap();
    let (s, _key, _doc) = s_builder.create_with_random_keypair().unwrap();
    assert_eq!(s.certificate().compare_issuer(s.certificate()), Ordering::Equal);
    assert!(s.certificate().subject_is_issuer());
    assert!(!a.subject_is_issuer());

    // Unrelated certificates compare equal.
    let mut c_builder = X509CertificateBuilder::new(KeyAlgorithm::Ed25519);
    c_builder.subject.append_common_name_utf8_string("stranger").unwrap();
    let (c, _key, _doc) = c_builder.create_with_random_keypair().unwrap();
    assert_eq!(a.compare_issuer(c.certificate()), Ordering::Equal);
}

#[test]
fn mutation_preserves_original_bytes() {
    let mut builder = X509CertificateBuilder::new(KeyAlgorithm::Ed25519);
    builder.subject.append_common_name_utf8_string("immutable").unwrap();
    let (cert, _key, _doc) = builder.create_with_random_keypair().unwrap();

    let original_bytes = cert.constructed_data().clone();
    let mut mutable = MutableX509Certificate::from_captured(cert);

    mutable.set_serial_number(vec![0x7f]);
    let mut other_subject = Name::new_empty();
    other_subject.append_common_name_utf8_string("impostor").unwrap();
    mutable.set_subject(other_subject);

    // The parsed tree changed...
    assert_eq!(
        mutable.certificate().serial_number_asn1().as_slice(),
        &[0x7f]
    );
    // ...but the captured bytes did not.
    assert_eq!(mutable.captured().constructed_data(), &original_bytes);

    // Verification still goes by the original bytes: the self-signature
    // still checks out even though the tree now claims another subject.
    let signer = X509Certificate::from_der(&original_bytes).unwrap();
    mutable.captured().verify_signed_by_certificate(&signer).unwrap();
}

#[test]
fn from_pem_requires_certificate_tag() {
    let builder = X509CertificateBuilder::new(KeyAlgorithm::Ed25519);
    let (cert, _key, _doc) = builder.create_with_random_keypair().unwrap();

    // A first block with another tag is rejected, per the codec's rule that
    // the first block must be CERTIFICATE-tagged...
    let mut text = pem::encode(&pem::Pem::new("PRIVATE KEY", vec![1u8, 2, 3]));
    text.push('\n');
    text.push_str(&cert.encode_pem());
    let err = X509Certificate::from_pem(text.as_bytes()).unwrap_err();
    assert!(matches!(err, X509CertificateError::PemDecode));
    let err = CapturedX509Certificate::from_pem(text.as_bytes()).unwrap_err();
    assert!(matches!(err, X509CertificateError::PemDecode));

    // ...while the multi-block readers skip it and find the certificate.
    let certs = X509Certificate::from_pem_multiple(text.as_bytes()).unwrap();
    assert_eq!(certs.len(), 1);
}

#[test]
fn mutation_setters_cover_the_parsed_tree() {
    let mut builder = X509CertificateBuilder::new(KeyAlgorithm::Ed25519);
    builder.subject.append_common_name_utf8_string("fields").unwrap();
    let (cert, _key, _doc) = builder.create_with_random_keypair().unwrap();
    let original_bytes = cert.constructed_data().clone();

    let mut mutable = MutableX509Certificate::from_captured(cert);
    mutable.set_version(None);
    mutable.set_issuer(simple_name("edited issuer"));
    mutable.set_validity(mutable.certificate().0.tbs_certificate.validity);
    mutable.set_extensions(None);
    mutable.set_signature(vec![1, 2, 3]);

    assert_eq!(mutable.certificate().0.tbs_certificate.version, None);
    assert_eq!(mutable.certificate().0.signature, vec![1, 2, 3]);
    // The captured bytes are still the construction-time bytes.
    assert_eq!(mutable.captured().constructed_data(), &original_bytes);
}

#[test]
fn verify_rejects_unknown_signature_algorithm() {
    let builder = X509CertificateBuilder::new(KeyAlgorithm::Ed25519);
    let (cert, _key, _doc) = builder.create_with_random_keypair().unwrap();

    let mut tampered = cert.certificate().clone();
    tampered.0.signature_algorithm.oid = vec![1, 2, 3];
    let der = tampered.encode_der().unwrap();
    let captured = CapturedX509Certificate::from_der(der).unwrap();
    let err = captured
        .verify_signed_by_certificate(cert.certificate())
        .unwrap_err();
    assert!(matches!(err, X509CertificateError::UnknownSignatureAlgorithm));
}

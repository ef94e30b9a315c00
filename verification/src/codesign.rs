//! Convenience construction of self-signed code-signing certificates.
//!
//! The result carries the extensions a code-signing certificate needs, but
//! no authority signs it: it is for testing only.

use vstd::prelude::*;

use vstd::string::StringSliceAdditionalSpecFns;

use crate::builder::{
    X509CertificateBuilder, spec_oid_common_name, spec_oid_country_name, spec_utf8_rdn,
};
use crate::certificate::CapturedX509Certificate;
use crate::der::{spec_tlv, wrap_tlv};
use crate::errors::X509CertificateError;
use crate::keys::{InMemorySigningKeyPair, KeyAlgorithm};
use crate::model::{SpecExtension, SpecName, enc_certificate, wf_certificate};

verus! {

// ---------------------------------------------------------------------------
// Code-signing object identifiers
// ---------------------------------------------------------------------------

/// Key Usage extension, 2.5.29.15.
pub open spec fn spec_oid_key_usage() -> Seq<u8> {
    seq![85u8, 29, 15]
}

/// Extended Key Usage extension, 2.5.29.37.
pub open spec fn spec_oid_extended_key_usage() -> Seq<u8> {
    seq![85u8, 29, 37]
}

/// Extended Key Usage purpose for code signing, 1.3.6.1.5.5.7.3.3.
pub open spec fn spec_oid_code_signing() -> Seq<u8> {
    seq![43u8, 6, 1, 5, 5, 7, 3, 3]
}

/// Email address RDN attribute, 1.2.840.113549.1.9.1.
pub open spec fn spec_oid_email_address() -> Seq<u8> {
    seq![42u8, 134, 72, 134, 247, 13, 1, 9, 1]
}

pub fn oid_key_usage() -> (r: Vec<u8>)
    ensures
        r@ == spec_oid_key_usage(),
{
    let mut v: Vec<u8> = Vec::new();
    v.push(85);
    v.push(29);
    v.push(15);
    proof {
        assert(v@ =~= spec_oid_key_usage());
    }
    v
}

pub fn oid_extended_key_usage() -> (r: Vec<u8>)
    ensures
        r@ == spec_oid_extended_key_usage(),
{
    let mut v: Vec<u8> = Vec::new();
    v.push(85);
    v.push(29);
    v.push(37);
    proof {
        assert(v@ =~= spec_oid_extended_key_usage());
    }
    v
}

pub fn oid_code_signing() -> (r: Vec<u8>)
    ensures
        r@ == spec_oid_code_signing(),
{
    let mut v: Vec<u8> = Vec::new();
    v.push(43);
    v.push(6);
    v.push(1);
    v.push(5);
    v.push(5);
    v.push(7);
    v.push(3);
    v.push(3);
    proof {
        assert(v@ =~= spec_oid_code_signing());
    }
    v
}

pub fn oid_email_address() -> (r: Vec<u8>)
    ensures
        r@ == spec_oid_email_address(),
{
    let mut v: Vec<u8> = Vec::new();
    v.push(42);
    v.push(134);
    v.push(72);
    v.push(134);
    v.push(247);
    v.push(13);
    v.push(1);
    v.push(9);
    v.push(1);
    proof {
        assert(v@ =~= spec_oid_email_address());
    }
    v
}

// ---------------------------------------------------------------------------
// What the convenience builder is set up with
// ---------------------------------------------------------------------------

/// The subject of a code-signing certificate: common name, country, and an
/// email address, each as a UTF8String.
pub open spec fn spec_code_signing_subject(cn: Seq<u8>, country: Seq<u8>, email: Seq<u8>) -> SpecName {
    seq![
        spec_utf8_rdn(spec_oid_common_name(), cn),
        spec_utf8_rdn(spec_oid_country_name(), country),
        spec_utf8_rdn(spec_oid_email_address(), email),
    ]
}

/// The critical Key Usage extension carrying exactly the digital-signature
/// bit.
pub open spec fn spec_key_usage_extension() -> SpecExtension {
    SpecExtension {
        oid: spec_oid_key_usage(),
        critical: Some(true),
        value: seq![3u8, 2, 7, 128],
    }
}

/// The critical Extended Key Usage extension carrying the single
/// code-signing purpose.
pub open spec fn spec_extended_key_usage_extension() -> SpecExtension {
    SpecExtension {
        oid: spec_oid_extended_key_usage(),
        critical: Some(true),
        value: spec_tlv(0x30, spec_tlv(0x06, spec_oid_code_signing())),
    }
}

/// Create a new self-signed certificate suitable for signing code: the
/// given subject, a critical Key Usage of digital signature, a critical
/// Extended Key Usage of code signing, and the requested validity window
/// starting now.
pub fn create_self_signed_code_signing_certificate(
    algorithm: KeyAlgorithm,
    common_name: &str,
    country_name: &str,
    email_address: &str,
    validity_duration_seconds: i64,
) -> (r: Result<
    (CapturedX509Certificate, InMemorySigningKeyPair, Vec<u8>),
    X509CertificateError,
>)
    ensures
        r matches Ok((cert, key_pair, doc)) ==> {
            &&& key_pair.wf()
            &&& key_pair.algorithm == algorithm
            &&& doc@ == key_pair.pkcs8_der@
            &&& cert.original_bytes() == enc_certificate(cert.parsed())
            &&& wf_certificate(cert.parsed())
            &&& cert.parsed().tbs_certificate.subject == spec_code_signing_subject(
                common_name.spec_bytes(),
                country_name.spec_bytes(),
                email_address.spec_bytes(),
            )
            &&& cert.parsed().tbs_certificate.issuer
                == cert.parsed().tbs_certificate.subject
            &&& cert.parsed().tbs_certificate.serial_number
                == crate::builder::spec_serial_of_i64(1)
            &&& cert.parsed().tbs_certificate.extensions == Some(
                seq![spec_key_usage_extension(), spec_extended_key_usage_extension()],
            )
            &&& cert.parsed().tbs_certificate.subject_public_key_info.subject_public_key
                == key_pair.public_key@
            &&& crate::keys::sig_verifies(
                key_pair.spec_default_signature_algorithm().spec_id(),
                key_pair.public_key@,
                crate::model::enc_tbs(cert.parsed().tbs_certificate),
                cert.parsed().signature,
            )
            &&& crate::certificate::cert_verify_ok(cert.original_bytes(), key_pair.public_key@)
        },
        algorithm == KeyAlgorithm::Rsa ==> r is Err,
{
    let mut builder = X509CertificateBuilder::new(algorithm);
    match builder.subject.append_common_name_utf8_string(common_name) {
        Ok(()) => {},
        Err(e) => { return Err(e); },
    }
    match builder.subject.append_country_utf8_string(country_name) {
        Ok(()) => {},
        Err(e) => { return Err(e); },
    }
    match builder.subject.append_utf8_string(oid_email_address(), email_address) {
        Ok(()) => {},
        Err(e) => { return Err(e); },
    }
    builder.validity_duration(validity_duration_seconds);

    // Digital Signature key usage: a BIT STRING with seven unused bits and
    // the leading bit set.
    let mut key_usage_value: Vec<u8> = Vec::new();
    key_usage_value.push(3);
    key_usage_value.push(2);
    key_usage_value.push(7);
    key_usage_value.push(128);
    proof {
        assert(key_usage_value@ =~= seq![3u8, 2, 7, 128]);
    }
    builder.add_extension_der_data(oid_key_usage(), true, key_usage_value.as_slice());

    // Extended key usage: a SEQUENCE holding the code-signing purpose OID.
    let eku_value = wrap_tlv(0x30, wrap_tlv(0x06, oid_code_signing()));
    builder.add_extension_der_data(oid_extended_key_usage(), true, eku_value.as_slice());

    proof {
        assert(builder.subject@ =~= spec_code_signing_subject(
            common_name.spec_bytes(),
            country_name.spec_bytes(),
            email_address.spec_bytes(),
        ));
        assert(builder.extensions@.map_values(|e: crate::model::Extension| e@) =~= seq![
            spec_key_usage_extension(),
            spec_extended_key_usage_extension(),
        ]);
        assert(builder.wf_settings());
    }
    let result = builder.create_with_random_keypair();
    match result {
        Ok((cert, key_pair, doc)) => {
            proof {
                assert(cert.parsed().tbs_certificate.extensions =~= Some(
                    seq![spec_key_usage_extension(), spec_extended_key_usage_extension()],
                ));
            }
            Ok((cert, key_pair, doc))
        },
        Err(e) => Err(e),
    }
}

} // verus!

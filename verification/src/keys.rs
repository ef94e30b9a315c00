//! Key and signature algorithms, and in-memory signing keys.
//!
//! The cryptography itself is done by `ring`; each call stands behind a
//! trusted wrapper whose contract names what the call computes.

use vstd::prelude::*;

use ring::signature::KeyPair as _;

use crate::der::spec_tlv;
use crate::errors::X509CertificateError;
use crate::model::{SpecAlgorithmIdentifier, bytes_eq};

verus! {

// ---------------------------------------------------------------------------
// Object identifiers (DER-encoded OID bodies)
// ---------------------------------------------------------------------------

pub open spec fn spec_oid_rsa_encryption() -> Seq<u8> {
    seq![42u8, 134, 72, 134, 247, 13, 1, 1, 1]
}

pub open spec fn spec_oid_ec_public_key() -> Seq<u8> {
    seq![42u8, 134, 72, 206, 61, 2, 1]
}

pub open spec fn spec_oid_p256() -> Seq<u8> {
    seq![42u8, 134, 72, 206, 61, 3, 1, 7]
}

pub open spec fn spec_oid_ed25519() -> Seq<u8> {
    seq![43u8, 101, 112]
}

pub open spec fn spec_oid_rsa_sha256() -> Seq<u8> {
    seq![42u8, 134, 72, 134, 247, 13, 1, 1, 11]
}

pub open spec fn spec_oid_rsa_sha384() -> Seq<u8> {
    seq![42u8, 134, 72, 134, 247, 13, 1, 1, 12]
}

pub open spec fn spec_oid_rsa_sha512() -> Seq<u8> {
    seq![42u8, 134, 72, 134, 247, 13, 1, 1, 13]
}

pub open spec fn spec_oid_ecdsa_sha256() -> Seq<u8> {
    seq![42u8, 134, 72, 206, 61, 4, 3, 2]
}

fn vec8(b0: u8, b1: u8, b2: u8, b3: u8, b4: u8, b5: u8, b6: u8, b7: u8) -> (r: Vec<u8>)
    ensures
        r@ == seq![b0, b1, b2, b3, b4, b5, b6, b7],
{
    let mut v: Vec<u8> = Vec::new();
    v.push(b0);
    v.push(b1);
    v.push(b2);
    v.push(b3);
    v.push(b4);
    v.push(b5);
    v.push(b6);
    v.push(b7);
    proof {
        assert(v@ =~= seq![b0, b1, b2, b3, b4, b5, b6, b7]);
    }
    v
}

fn vec9(b0: u8, b1: u8, b2: u8, b3: u8, b4: u8, b5: u8, b6: u8, b7: u8, b8: u8) -> (r: Vec<u8>)
    ensures
        r@ == seq![b0, b1, b2, b3, b4, b5, b6, b7, b8],
{
    let mut v = vec8(b0, b1, b2, b3, b4, b5, b6, b7);
    v.push(b8);
    proof {
        assert(v@ =~= seq![b0, b1, b2, b3, b4, b5, b6, b7, b8]);
    }
    v
}

pub fn oid_rsa_encryption() -> (r: Vec<u8>)
    ensures
        r@ == spec_oid_rsa_encryption(),
{
    vec9(42, 134, 72, 134, 247, 13, 1, 1, 1)
}

pub fn oid_ec_public_key() -> (r: Vec<u8>)
    ensures
        r@ == spec_oid_ec_public_key(),
{
    let mut v: Vec<u8> = Vec::new();
    v.push(42);
    v.push(134);
    v.push(72);
    v.push(206);
    v.push(61);
    v.push(2);
    v.push(1);
    proof {
        assert(v@ =~= spec_oid_ec_public_key());
    }
    v
}

pub fn oid_p256() -> (r: Vec<u8>)
    ensures
        r@ == spec_oid_p256(),
{
    vec8(42, 134, 72, 206, 61, 3, 1, 7)
}

pub fn oid_ed25519() -> (r: Vec<u8>)
    ensures
        r@ == spec_oid_ed25519(),
{
    let mut v: Vec<u8> = Vec::new();
    v.push(43);
    v.push(101);
    v.push(112);
    proof {
        assert(v@ =~= spec_oid_ed25519());
    }
    v
}

pub fn oid_rsa_sha256() -> (r: Vec<u8>)
    ensures
        r@ == spec_oid_rsa_sha256(),
{
    vec9(42, 134, 72, 134, 247, 13, 1, 1, 11)
}

pub fn oid_rsa_sha384() -> (r: Vec<u8>)
    ensures
        r@ == spec_oid_rsa_sha384(),
{
    vec9(42, 134, 72, 134, 247, 13, 1, 1, 12)
}

pub fn oid_rsa_sha512() -> (r: Vec<u8>)
    ensures
        r@ == spec_oid_rsa_sha512(),
{
    vec9(42, 134, 72, 134, 247, 13, 1, 1, 13)
}

pub fn oid_ecdsa_sha256() -> (r: Vec<u8>)
    ensures
        r@ == spec_oid_ecdsa_sha256(),
{
    vec8(42, 134, 72, 206, 61, 4, 3, 2)
}

// ---------------------------------------------------------------------------
// Algorithms
// ---------------------------------------------------------------------------

/// A key algorithm this library can work with.
#[derive(Clone, Copy, Debug, PartialEq, Eq, Structural)]
pub enum KeyAlgorithm {
    Rsa,
    Ecdsa,
    Ed25519,
}

/// A signature algorithm this library can verify.
#[derive(Clone, Copy, Debug, PartialEq, Eq, Structural)]
pub enum SignatureAlgorithm {
    RsaSha256,
    RsaSha384,
    RsaSha512,
    EcdsaSha256,
    Ed25519,
}

impl SignatureAlgorithm {
    /// A stable number for each algorithm, used to state what verification
    /// computes.
    pub open spec fn spec_id(self) -> int {
        match self {
            SignatureAlgorithm::RsaSha256 => 0,
            SignatureAlgorithm::RsaSha384 => 1,
            SignatureAlgorithm::RsaSha512 => 2,
            SignatureAlgorithm::EcdsaSha256 => 3,
            SignatureAlgorithm::Ed25519 => 4,
        }
    }

    /// The OID under which this algorithm appears in a certificate.
    pub open spec fn spec_oid(self) -> Seq<u8> {
        match self {
            SignatureAlgorithm::RsaSha256 => spec_oid_rsa_sha256(),
            SignatureAlgorithm::RsaSha384 => spec_oid_rsa_sha384(),
            SignatureAlgorithm::RsaSha512 => spec_oid_rsa_sha512(),
            SignatureAlgorithm::EcdsaSha256 => spec_oid_ecdsa_sha256(),
            SignatureAlgorithm::Ed25519 => spec_oid_ed25519(),
        }
    }

    pub fn oid(&self) -> (r: Vec<u8>)
        ensures
            r@ == self.spec_oid(),
    {
        match self {
            SignatureAlgorithm::RsaSha256 => oid_rsa_sha256(),
            SignatureAlgorithm::RsaSha384 => oid_rsa_sha384(),
            SignatureAlgorithm::RsaSha512 => oid_rsa_sha512(),
            SignatureAlgorithm::EcdsaSha256 => oid_ecdsa_sha256(),
            SignatureAlgorithm::Ed25519 => oid_ed25519(),
        }
    }
}

/// Which signature algorithm an OID names, if any.
pub open spec fn spec_sig_alg_of_oid(oid: Seq<u8>) -> Option<SignatureAlgorithm> {
    if oid == spec_oid_rsa_sha256() {
        Some(SignatureAlgorithm::RsaSha256)
    } else if oid == spec_oid_rsa_sha384() {
        Some(SignatureAlgorithm::RsaSha384)
    } else if oid == spec_oid_rsa_sha512() {
        Some(SignatureAlgorithm::RsaSha512)
    } else if oid == spec_oid_ecdsa_sha256() {
        Some(SignatureAlgorithm::EcdsaSha256)
    } else if oid == spec_oid_ed25519() {
        Some(SignatureAlgorithm::Ed25519)
    } else {
        None
    }
}

pub fn sig_alg_from_oid(oid: &[u8]) -> (r: Option<SignatureAlgorithm>)
    ensures
        r == spec_sig_alg_of_oid(oid@),
{
    if bytes_eq(oid, oid_rsa_sha256().as_slice()) {
        Some(SignatureAlgorithm::RsaSha256)
    } else if bytes_eq(oid, oid_rsa_sha384().as_slice()) {
        Some(SignatureAlgorithm::RsaSha384)
    } else if bytes_eq(oid, oid_rsa_sha512().as_slice()) {
        Some(SignatureAlgorithm::RsaSha512)
    } else if bytes_eq(oid, oid_ecdsa_sha256().as_slice()) {
        Some(SignatureAlgorithm::EcdsaSha256)
    } else if bytes_eq(oid, oid_ed25519().as_slice()) {
        Some(SignatureAlgorithm::Ed25519)
    } else {
        None
    }
}

/// The full algorithm identifier under which each key algorithm's public
/// key is published: RSA with NULL parameters, EC with the P-256 named
/// curve, Ed25519 with none.
pub open spec fn spec_key_alg_id(a: KeyAlgorithm) -> SpecAlgorithmIdentifier {
    match a {
        KeyAlgorithm::Rsa => SpecAlgorithmIdentifier {
            oid: spec_oid_rsa_encryption(),
            params: Some(spec_tlv(0x05, Seq::empty())),
        },
        KeyAlgorithm::Ecdsa => SpecAlgorithmIdentifier {
            oid: spec_oid_ec_public_key(),
            params: Some(spec_tlv(0x06, spec_oid_p256())),
        },
        KeyAlgorithm::Ed25519 => SpecAlgorithmIdentifier {
            oid: spec_oid_ed25519(),
            params: None,
        },
    }
}

/// Which key algorithm an OID names, if any.
pub open spec fn spec_key_alg_of_oid(oid: Seq<u8>) -> Option<KeyAlgorithm> {
    if oid == spec_oid_rsa_encryption() {
        Some(KeyAlgorithm::Rsa)
    } else if oid == spec_oid_ec_public_key() {
        Some(KeyAlgorithm::Ecdsa)
    } else if oid == spec_oid_ed25519() {
        Some(KeyAlgorithm::Ed25519)
    } else {
        None
    }
}

pub fn key_alg_from_oid(oid: &[u8]) -> (r: Option<KeyAlgorithm>)
    ensures
        r == spec_key_alg_of_oid(oid@),
{
    if bytes_eq(oid, oid_rsa_encryption().as_slice()) {
        Some(KeyAlgorithm::Rsa)
    } else if bytes_eq(oid, oid_ec_public_key().as_slice()) {
        Some(KeyAlgorithm::Ecdsa)
    } else if bytes_eq(oid, oid_ed25519().as_slice()) {
        Some(KeyAlgorithm::Ed25519)
    } else {
        None
    }
}

/// The OID table reads each algorithm's own OID back to it.
pub proof fn lemma_sig_alg_of_own_oid(a: SignatureAlgorithm)
    ensures
        spec_sig_alg_of_oid(a.spec_oid()) == Some(a),
{
    // The three RSA OIDs differ in their final byte; the ECDSA and Ed25519
    // OIDs differ from them and from each other in length.
    assert(spec_oid_rsa_sha256().len() == 9);
    assert(spec_oid_rsa_sha384().len() == 9);
    assert(spec_oid_rsa_sha512().len() == 9);
    assert(spec_oid_ecdsa_sha256().len() == 8);
    assert(spec_oid_ed25519().len() == 3);
    assert(spec_oid_rsa_sha256()[8] == 11);
    assert(spec_oid_rsa_sha384()[8] == 12);
    assert(spec_oid_rsa_sha512()[8] == 13);
}

// ---------------------------------------------------------------------------
// Named results of ring's computations
// ---------------------------------------------------------------------------

pub uninterp spec fn ed25519_pub_of(pkcs8: Seq<u8>) -> Option<Seq<u8>>;

pub uninterp spec fn ed25519_sig_of(pkcs8: Seq<u8>, msg: Seq<u8>) -> Option<Seq<u8>>;

pub uninterp spec fn ecdsa_p256_pub_of(pkcs8: Seq<u8>) -> Option<Seq<u8>>;

pub uninterp spec fn rsa_pub_of(pkcs8: Seq<u8>) -> Option<Seq<u8>>;

/// Whether `sig` is a valid signature by `key` over `msg` under the
/// algorithm numbered `alg` (see `SignatureAlgorithm::spec_id`).
pub uninterp spec fn sig_verifies(alg: int, key: Seq<u8>, msg: Seq<u8>, sig: Seq<u8>) -> bool;

// ---------------------------------------------------------------------------
// Trusted wrappers around ring
// ---------------------------------------------------------------------------

/// Relies on ring::signature::Ed25519KeyPair::from_pkcs8_maybe_unchecked and
/// ring::signature::KeyPair::public_key: the public key is a function of the
/// PKCS#8 document alone.
#[verifier::external_body]
fn ring_ed25519_public_key(pkcs8: &[u8]) -> (r: Option<Vec<u8>>)
    ensures
        r matches Some(v) ==> ed25519_pub_of(pkcs8@) == Some(v@),
        r is None ==> ed25519_pub_of(pkcs8@) is None,
{
    match ring::signature::Ed25519KeyPair::from_pkcs8_maybe_unchecked(pkcs8) {
        Ok(kp) => Some(kp.public_key().as_ref().to_vec()),
        Err(_) => None,
    }
}

/// Relies on ring::signature::Ed25519KeyPair::sign: Ed25519 signatures are
/// a function of the key and the message alone, and a signature the call
/// produces verifies under the document's public key (RFC 8032, which both
/// ring's signer and its ED25519 verifier implement).
#[verifier::external_body]
fn ring_ed25519_sign(pkcs8: &[u8], msg: &[u8]) -> (r: Option<Vec<u8>>)
    ensures
        r matches Some(v) ==> ed25519_sig_of(pkcs8@, msg@) == Some(v@),
        r is None ==> ed25519_sig_of(pkcs8@, msg@) is None,
        r matches Some(v) ==> (ed25519_pub_of(pkcs8@) matches Some(pk) ==> sig_verifies(
            SignatureAlgorithm::Ed25519.spec_id(),
            pk,
            msg@,
            v@,
        )),
{
    match ring::signature::Ed25519KeyPair::from_pkcs8_maybe_unchecked(pkcs8) {
        Ok(kp) => Some(kp.sign(msg).as_ref().to_vec()),
        Err(_) => None,
    }
}

/// Relies on ring::signature::Ed25519KeyPair::generate_pkcs8.  The document
/// is random; all that is stated is that it parses back as an Ed25519 key.
#[verifier::external_body]
fn ring_ed25519_generate_pkcs8() -> (r: Option<Vec<u8>>)
    ensures
        r matches Some(v) ==> ed25519_pub_of(v@) is Some,
{
    let rng = ring::rand::SystemRandom::new();
    let doc = ring::signature::Ed25519KeyPair::generate_pkcs8(&rng).ok()?;
    // The stated clause holds only of documents that parse back; check it.
    match ring::signature::Ed25519KeyPair::from_pkcs8_maybe_unchecked(doc.as_ref()) {
        Ok(_) => Some(doc.as_ref().to_vec()),
        Err(_) => None,
    }
}

/// Relies on ring::signature::EcdsaKeyPair::from_pkcs8 (P-256, SHA-256,
/// ASN.1 form) and ring::signature::KeyPair::public_key: the public key is a
/// function of the PKCS#8 document alone.  `from_pkcs8` also draws from the
/// randomness source and can reject a valid document when that fails, so
/// nothing is stated of the `None` case.
#[verifier::external_body]
fn ring_ecdsa_public_key(pkcs8: &[u8]) -> (r: Option<Vec<u8>>)
    ensures
        r matches Some(v) ==> ecdsa_p256_pub_of(pkcs8@) == Some(v@),
{
    let rng = ring::rand::SystemRandom::new();
    match ring::signature::EcdsaKeyPair::from_pkcs8(
        &ring::signature::ECDSA_P256_SHA256_ASN1_SIGNING,
        pkcs8,
        &rng,
    ) {
        Ok(kp) => Some(kp.public_key().as_ref().to_vec()),
        Err(_) => None,
    }
}

/// Relies on ring::signature::EcdsaKeyPair::sign.  ECDSA signatures use a
/// random nonce, so the bytes are not a function of the arguments; what is
/// stated is that a signature the call produces verifies under the
/// document's public key (ring signs and verifies P-256/SHA-256 in the
/// ASN.1 form).
#[verifier::external_body]
fn ring_ecdsa_sign(pkcs8: &[u8], msg: &[u8]) -> (r: Option<Vec<u8>>)
    ensures
        r matches Some(v) ==> (ecdsa_p256_pub_of(pkcs8@) matches Some(pk) ==> sig_verifies(
            SignatureAlgorithm::EcdsaSha256.spec_id(),
            pk,
            msg@,
            v@,
        )),
{
    let rng = ring::rand::SystemRandom::new();
    let kp = ring::signature::EcdsaKeyPair::from_pkcs8(
        &ring::signature::ECDSA_P256_SHA256_ASN1_SIGNING,
        pkcs8,
        &rng,
    ).ok()?;
    match kp.sign(&rng, msg) {
        Ok(sig) => Some(sig.as_ref().to_vec()),
        Err(_) => None,
    }
}

/// Relies on ring::signature::EcdsaKeyPair::generate_pkcs8.  The document is
/// random; all that is stated is that it parses back as a P-256 key.
#[verifier::external_body]
fn ring_ecdsa_generate_pkcs8() -> (r: Option<Vec<u8>>)
    ensures
        r matches Some(v) ==> ecdsa_p256_pub_of(v@) is Some,
{
    let rng = ring::rand::SystemRandom::new();
    let doc = ring::signature::EcdsaKeyPair::generate_pkcs8(
        &ring::signature::ECDSA_P256_SHA256_ASN1_SIGNING,
        &rng,
    ).ok()?;
    match ring::signature::EcdsaKeyPair::from_pkcs8(
        &ring::signature::ECDSA_P256_SHA256_ASN1_SIGNING,
        doc.as_ref(),
        &rng,
    ) {
        Ok(_) => Some(doc.as_ref().to_vec()),
        Err(_) => None,
    }
}

/// Relies on ring::rsa::KeyPair::from_pkcs8 and
/// ring::signature::KeyPair::public_key: the public key is a function of the
/// PKCS#8 document alone.
#[verifier::external_body]
fn ring_rsa_public_key(pkcs8: &[u8]) -> (r: Option<Vec<u8>>)
    ensures
        r matches Some(v) ==> rsa_pub_of(pkcs8@) == Some(v@),
        r is None ==> rsa_pub_of(pkcs8@) is None,
{
    match ring::signature::RsaKeyPair::from_pkcs8(pkcs8) {
        Ok(kp) => Some(kp.public_key().as_ref().to_vec()),
        Err(_) => None,
    }
}

/// Relies on ring::rsa::KeyPair::sign with RSA_PKCS1_SHA256.  The random
/// input only blinds the computation; a signature the call produces
/// verifies under the document's public key (PKCS#1 v1.5 with SHA-256,
/// which ring's RSA_PKCS1_2048_8192_SHA256 verifier accepts).
#[verifier::external_body]
fn ring_rsa_sign(pkcs8: &[u8], msg: &[u8]) -> (r: Option<Vec<u8>>)
    ensures
        r matches Some(v) ==> (rsa_pub_of(pkcs8@) matches Some(pk) ==> sig_verifies(
            SignatureAlgorithm::RsaSha256.spec_id(),
            pk,
            msg@,
            v@,
        )),
{
    let kp = ring::signature::RsaKeyPair::from_pkcs8(pkcs8).ok()?;
    let rng = ring::rand::SystemRandom::new();
    let mut sig = std::vec![0u8; kp.public().modulus_len()];
    match kp.sign(&ring::signature::RSA_PKCS1_SHA256, &rng, msg, &mut sig) {
        Ok(()) => Some(sig),
        Err(_) => None,
    }
}

/// Relies on ring::signature::UnparsedPublicKey::verify: the outcome is a
/// function of the algorithm, the key bytes, the message and the signature.
#[verifier::external_body]
pub fn ring_verify(alg: SignatureAlgorithm, key: &[u8], msg: &[u8], sig: &[u8]) -> (r: bool)
    ensures
        r == sig_verifies(alg.spec_id(), key@, msg@, sig@),
{
    let a: &'static dyn ring::signature::VerificationAlgorithm = match alg {
        SignatureAlgorithm::RsaSha256 => &ring::signature::RSA_PKCS1_2048_8192_SHA256,
        SignatureAlgorithm::RsaSha384 => &ring::signature::RSA_PKCS1_2048_8192_SHA384,
        SignatureAlgorithm::RsaSha512 => &ring::signature::RSA_PKCS1_2048_8192_SHA512,
        SignatureAlgorithm::EcdsaSha256 => &ring::signature::ECDSA_P256_SHA256_ASN1,
        SignatureAlgorithm::Ed25519 => &ring::signature::ED25519,
    };
    ring::signature::UnparsedPublicKey::new(a, key).verify(msg, sig).is_ok()
}

// ---------------------------------------------------------------------------
// In-memory signing key pairs
// ---------------------------------------------------------------------------

/// A private signing key held in memory as its PKCS#8 document, together
/// with its algorithm and public key.
#[derive(Clone, Debug, PartialEq, Eq)]
pub struct InMemorySigningKeyPair {
    pub algorithm: KeyAlgorithm,
    pub pkcs8_der: Vec<u8>,
    pub public_key: Vec<u8>,
}

impl InMemorySigningKeyPair {
    /// The held public key is the one ring derives from the held document.
    pub open spec fn wf(self) -> bool {
        match self.algorithm {
            KeyAlgorithm::Ed25519 => ed25519_pub_of(self.pkcs8_der@) == Some(self.public_key@),
            KeyAlgorithm::Ecdsa => ecdsa_p256_pub_of(self.pkcs8_der@) == Some(self.public_key@),
            KeyAlgorithm::Rsa => rsa_pub_of(self.pkcs8_der@) == Some(self.public_key@),
        }
    }

    /// Decode a private key from PKCS#8 DER, trying Ed25519, then ECDSA
    /// P-256, then RSA.  ECDSA recognition goes through ring's randomness
    /// source, which may refuse, so the ECDSA clauses are one-directional.
    pub fn from_pkcs8_der(data: &[u8]) -> (r: Result<Self, X509CertificateError>)
        ensures
            r matches Ok(k) ==> {
                &&& k.wf()
                &&& k.pkcs8_der@ == data@
                &&& (k.algorithm == KeyAlgorithm::Ed25519 <==> ed25519_pub_of(data@) is Some)
                &&& (k.algorithm == KeyAlgorithm::Ecdsa ==> ed25519_pub_of(data@) is None
                    && ecdsa_p256_pub_of(data@) is Some)
                &&& (k.algorithm == KeyAlgorithm::Rsa ==> ed25519_pub_of(data@) is None
                    && rsa_pub_of(data@) is Some)
            },
            r is Err ==> ed25519_pub_of(data@) is None && rsa_pub_of(data@) is None,
            r matches Err(e) ==> e == X509CertificateError::KeyDecode,
    {
        proof {
            assert(data@.subrange(0, data@.len() as int) =~= data@);
        }
        if let Some(pk) = ring_ed25519_public_key(data) {
            return Ok(
                InMemorySigningKeyPair {
                    algorithm: KeyAlgorithm::Ed25519,
                    pkcs8_der: crate::encode::copy_range(data, 0, data.len()),
                    public_key: pk,
                },
            );
        }
        if let Some(pk) = ring_ecdsa_public_key(data) {
            return Ok(
                InMemorySigningKeyPair {
                    algorithm: KeyAlgorithm::Ecdsa,
                    pkcs8_der: crate::encode::copy_range(data, 0, data.len()),
                    public_key: pk,
                },
            );
        }
        if let Some(pk) = ring_rsa_public_key(data) {
            return Ok(
                InMemorySigningKeyPair {
                    algorithm: KeyAlgorithm::Rsa,
                    pkcs8_der: crate::encode::copy_range(data, 0, data.len()),
                    public_key: pk,
                },
            );
        }
        Err(X509CertificateError::KeyDecode)
    }

    /// Generate a fresh random key pair.  Returns the key and the exportable
    /// PKCS#8 document it was built from.  RSA generation is not offered.
    pub fn generate_random(algorithm: KeyAlgorithm) -> (r: Result<
        (Self, Vec<u8>),
        X509CertificateError,
    >)
        ensures
            r matches Ok((k, doc)) ==> {
                &&& k.wf()
                &&& k.algorithm == algorithm
                &&& doc@ == k.pkcs8_der@
            },
            algorithm == KeyAlgorithm::Rsa ==> r == Err::<
                (Self, Vec<u8>),
                _,
            >(X509CertificateError::UnsupportedKeyAlgorithm),
    {
        match algorithm {
            KeyAlgorithm::Ed25519 => {
                let doc = match ring_ed25519_generate_pkcs8() {
                    Some(d) => d,
                    None => {
                        return Err(X509CertificateError::KeyPairGenerationFailed);
                    },
                };
                let pk = match ring_ed25519_public_key(doc.as_slice()) {
                    Some(p) => p,
                    None => {
                        return Err(X509CertificateError::KeyPairGenerationFailed);
                    },
                };
                let doc2 = crate::encode::copy_range(doc.as_slice(), 0, doc.len());
                Ok(
                    (
                        InMemorySigningKeyPair {
                            algorithm: KeyAlgorithm::Ed25519,
                            pkcs8_der: doc,
                            public_key: pk,
                        },
                        doc2,
                    ),
                )
            },
            KeyAlgorithm::Ecdsa => {
                let doc = match ring_ecdsa_generate_pkcs8() {
                    Some(d) => d,
                    None => {
                        return Err(X509CertificateError::KeyPairGenerationFailed);
                    },
                };
                let pk = match ring_ecdsa_public_key(doc.as_slice()) {
                    Some(p) => p,
                    None => {
                        return Err(X509CertificateError::KeyPairGenerationFailed);
                    },
                };
                let doc2 = crate::encode::copy_range(doc.as_slice(), 0, doc.len());
                Ok(
                    (
                        InMemorySigningKeyPair {
                            algorithm: KeyAlgorithm::Ecdsa,
                            pkcs8_der: doc,
                            public_key: pk,
                        },
                        doc2,
                    ),
                )
            },
            KeyAlgorithm::Rsa => Err(X509CertificateError::UnsupportedKeyAlgorithm),
        }
    }

    pub fn key_algorithm(&self) -> (r: KeyAlgorithm)
        ensures
            r == self.algorithm,
    {
        self.algorithm
    }

    /// The raw bytes of the public key.
    pub fn public_key_data(&self) -> (r: &Vec<u8>)
        ensures
            r@ == self.public_key@,
    {
        &self.public_key
    }

    /// The signature algorithm that signing with this key produces.
    pub fn default_signature_algorithm(&self) -> (r: SignatureAlgorithm)
        ensures
            r == self.spec_default_signature_algorithm(),
    {
        match self.algorithm {
            KeyAlgorithm::Rsa => SignatureAlgorithm::RsaSha256,
            KeyAlgorithm::Ecdsa => SignatureAlgorithm::EcdsaSha256,
            KeyAlgorithm::Ed25519 => SignatureAlgorithm::Ed25519,
        }
    }

    pub open spec fn spec_default_signature_algorithm(self) -> SignatureAlgorithm {
        match self.algorithm {
            KeyAlgorithm::Rsa => SignatureAlgorithm::RsaSha256,
            KeyAlgorithm::Ecdsa => SignatureAlgorithm::EcdsaSha256,
            KeyAlgorithm::Ed25519 => SignatureAlgorithm::Ed25519,
        }
    }

    /// Sign a message with this key.  For Ed25519 the signature bytes are a
    /// function of the key and message; for the randomized algorithms the
    /// bytes vary, but any signature produced verifies under this key's
    /// public key and default algorithm.
    pub fn sign(&self, msg: &[u8]) -> (r: Result<Vec<u8>, X509CertificateError>)
        ensures
            self.algorithm == KeyAlgorithm::Ed25519 ==> {
                &&& (r is Ok <==> ed25519_sig_of(self.pkcs8_der@, msg@) is Some)
                &&& (r matches Ok(v) ==> ed25519_sig_of(self.pkcs8_der@, msg@) == Some(v@))
            },
            r matches Ok(v) ==> (self.wf() ==> sig_verifies(
                self.spec_default_signature_algorithm().spec_id(),
                self.public_key@,
                msg@,
                v@,
            )),
            r matches Err(e) ==> e == X509CertificateError::SigningFailed,
    {
        let sig = match self.algorithm {
            KeyAlgorithm::Ed25519 => ring_ed25519_sign(self.pkcs8_der.as_slice(), msg),
            KeyAlgorithm::Ecdsa => ring_ecdsa_sign(self.pkcs8_der.as_slice(), msg),
            KeyAlgorithm::Rsa => ring_rsa_sign(self.pkcs8_der.as_slice(), msg),
        };
        match sig {
            Some(v) => Ok(v),
            None => Err(X509CertificateError::SigningFailed),
        }
    }
}

} // verus!

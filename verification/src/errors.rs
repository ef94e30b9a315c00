//! The error kinds this library reports.  Every failure is returned as a
//! typed value; nothing is retried or substituted.

use vstd::prelude::*;

verus! {

#[derive(Clone, Copy, Debug, PartialEq, Eq, Structural)]
pub enum X509CertificateError {
    /// Malformed DER/BER certificate input.
    CertificateDecode,
    /// Malformed PEM armor.
    PemDecode,
    /// An RDN attribute value cannot be represented in the requested
    /// ASN.1 string type.
    CertificateCharset,
    /// The signature algorithm OID is not one this library knows.
    UnknownSignatureAlgorithm,
    /// Key generation is not available for the requested algorithm.
    UnsupportedKeyAlgorithm,
    /// Random key generation failed.
    KeyPairGenerationFailed,
    /// PKCS#8 private key data could not be parsed.
    KeyDecode,
    /// Producing a signature failed.
    SigningFailed,
    /// Collapsed result of any cryptographic verification mismatch.
    CertificateSignatureVerificationFailed,
    /// Structural deviation inside a PFX container.
    PfxParse,
    /// The PFX integrity MAC did not match the supplied password.
    PfxBadPassword,
    /// A structurally valid PFX held no certificate.
    PfxMissingCertificate,
    /// A structurally valid PFX held no private key.
    PfxMissingKey,
}

impl X509CertificateError {
    /// A short description of the error.
    pub fn message(&self) -> &'static str {
        match self {
            X509CertificateError::CertificateDecode => "malformed certificate data",
            X509CertificateError::PemDecode => "malformed PEM data",
            X509CertificateError::CertificateCharset => "attribute value not representable",
            X509CertificateError::UnknownSignatureAlgorithm => "unknown signature algorithm",
            X509CertificateError::UnsupportedKeyAlgorithm => "key algorithm not supported here",
            X509CertificateError::KeyPairGenerationFailed => "key generation failed",
            X509CertificateError::KeyDecode => "malformed PKCS#8 key data",
            X509CertificateError::SigningFailed => "signing failed",
            X509CertificateError::CertificateSignatureVerificationFailed => {
                "certificate signature verification failed"
            },
            X509CertificateError::PfxParse => "malformed PFX data",
            X509CertificateError::PfxBadPassword => "PFX password incorrect",
            X509CertificateError::PfxMissingCertificate => "no certificate found in PFX data",
            X509CertificateError::PfxMissingKey => "no signing key found in PFX data",
        }
    }
}

} // verus!

//! A library for parsing, constructing, mutating and cryptographically
//! verifying X.509 certificates, and for extracting certificate/key pairs
//! from PKCS#12 (PFX) containers.
//!
//! The certificate reader is strict: it accepts definite-length DER, which
//! is also the subset of BER this library emits and re-reads.  BER inputs
//! using indefinite lengths or non-minimal length forms are rejected with
//! a decode error.

pub mod der;
pub mod model;
pub mod encode;
pub mod decode;
pub mod errors;
pub mod keys;
pub mod pemops;
pub mod certificate;
pub mod builder;
pub mod pfx;
pub mod codesign;
pub mod roundtrip;

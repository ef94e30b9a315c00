//! Incremental construction of new X.509 certificates.
//!
//! The builder assembles a version-3 TBS structure from its settings,
//! signs its exact DER bytes with a freshly generated key, and captures
//! the final encoding.

use vstd::prelude::*;

use vstd::string::StringSliceAdditionalSpecFns;

use chrono::{Datelike, Timelike};

use crate::certificate::{
    CapturedX509Certificate, X509Certificate, cert_verify_ok, lemma_verify_of_encoding,
};
use crate::der::wrap_tlv;
use crate::encode::{copy_range, encode_certificate, encode_tbs};
use crate::errors::X509CertificateError;
use crate::keys::{
    InMemorySigningKeyPair, KeyAlgorithm, ed25519_sig_of, lemma_sig_alg_of_own_oid,
    oid_ec_public_key, oid_ed25519, oid_p256, oid_rsa_encryption, sig_verifies, spec_key_alg_id,
};
use crate::model::{
    AlgorithmIdentifier, Asn1Time, AttributeTypeAndValue, Certificate, Extension, Name, Rdn,
    SpecAlgorithmIdentifier, SpecAsn1Time, SpecAttributeTypeAndValue, SpecName,
    SubjectPublicKeyInfo, TbsCertificate, Validity, enc_tbs, wf_certificate, wf_time,
};

verus! {

// ---------------------------------------------------------------------------
// Attribute OIDs for names
// ---------------------------------------------------------------------------

pub open spec fn spec_oid_common_name() -> Seq<u8> {
    seq![85u8, 4, 3]
}

pub open spec fn spec_oid_country_name() -> Seq<u8> {
    seq![85u8, 4, 6]
}

pub fn oid_common_name() -> (r: Vec<u8>)
    ensures
        r@ == spec_oid_common_name(),
{
    let mut v: Vec<u8> = Vec::new();
    v.push(85);
    v.push(4);
    v.push(3);
    proof {
        assert(v@ =~= spec_oid_common_name());
    }
    v
}

pub fn oid_country_name() -> (r: Vec<u8>)
    ensures
        r@ == spec_oid_country_name(),
{
    let mut v: Vec<u8> = Vec::new();
    v.push(85);
    v.push(4);
    v.push(6);
    proof {
        assert(v@ =~= spec_oid_country_name());
    }
    v
}

// ---------------------------------------------------------------------------
// Building names attribute by attribute
// ---------------------------------------------------------------------------

/// The RDN set holding one UTF8String attribute.
pub open spec fn spec_utf8_rdn(oid: Seq<u8>, value: Seq<u8>) -> Seq<SpecAttributeTypeAndValue> {
    seq![SpecAttributeTypeAndValue { oid, value_tag: 0x0cu8, value }]
}

impl Name {
    /// An empty name.
    pub fn new_empty() -> (r: Self)
        ensures
            r@ == Seq::<Seq<SpecAttributeTypeAndValue>>::empty(),
    {
        let r = Name { rdns: Vec::new() };
        proof {
            assert(r@ =~= Seq::<Seq<SpecAttributeTypeAndValue>>::empty());
        }
        r
    }

    /// Append one UTF8String attribute under `oid` as its own RDN set.
    /// Any string is representable as UTF8String, so this cannot fail.
    pub fn append_utf8_string(&mut self, oid: Vec<u8>, value: &str) -> (r: Result<
        (),
        X509CertificateError,
    >)
        ensures
            r is Ok,
            final(self)@ == old(self)@.push(spec_utf8_rdn(oid@, value.spec_bytes())),
    {
        let bytes = value.as_bytes();
        let value_vec = copy_range(bytes, 0, bytes.len());
        let atv = AttributeTypeAndValue { oid, value_tag: 0x0c, value: value_vec };
        let mut atvs: Vec<AttributeTypeAndValue> = Vec::new();
        atvs.push(atv);
        let rdn = Rdn { atvs };
        proof {
            assert(bytes@.subrange(0, bytes@.len() as int) =~= bytes@);
            assert(rdn@ =~= spec_utf8_rdn(oid@, value.spec_bytes()));
        }
        let ghost before = self@;
        self.rdns.push(rdn);
        proof {
            assert(self@ =~= before.push(rdn@));
        }
        Ok(())
    }

    /// Append a common-name attribute, as UTF8String.
    pub fn append_common_name_utf8_string(&mut self, value: &str) -> (r: Result<
        (),
        X509CertificateError,
    >)
        ensures
            r is Ok,
            final(self)@ == old(self)@.push(
                spec_utf8_rdn(spec_oid_common_name(), value.spec_bytes()),
            ),
    {
        self.append_utf8_string(oid_common_name(), value)
    }

    /// Append a country attribute, as UTF8String.
    pub fn append_country_utf8_string(&mut self, value: &str) -> (r: Result<
        (),
        X509CertificateError,
    >)
        ensures
            r is Ok,
            final(self)@ == old(self)@.push(
                spec_utf8_rdn(spec_oid_country_name(), value.spec_bytes()),
            ),
    {
        self.append_utf8_string(oid_country_name(), value)
    }
}

// ---------------------------------------------------------------------------
// Deep copies that keep their views
// ---------------------------------------------------------------------------

pub fn alg_copy(a: &AlgorithmIdentifier) -> (r: AlgorithmIdentifier)
    ensures
        r@ == a@,
{
    let oid = copy_range(a.oid.as_slice(), 0, a.oid.len());
    let params = match &a.params {
        Some(p) => Some(copy_range(p.as_slice(), 0, p.len())),
        None => None,
    };
    let r = AlgorithmIdentifier { oid, params };
    proof {
        assert(a.oid@.subrange(0, a.oid@.len() as int) =~= a.oid@);
        if a.params is Some {
            let p = a.params->Some_0;
            assert(p@.subrange(0, p@.len() as int) =~= p@);
        }
        assert(r@ =~= a@);
    }
    r
}

pub fn name_copy(n: &Name) -> (r: Name)
    ensures
        r@ == n@,
{
    let mut rdns: Vec<Rdn> = Vec::new();
    let k = n.rdns.len();
    for i in 0..k
        invariant
            k == n.rdns.len(),
            rdns@.len() == i,
            forall|j: int| 0 <= j < i ==> rdns@[j]@ == n@[j],
    {
        let src = &n.rdns[i];
        let mut atvs: Vec<AttributeTypeAndValue> = Vec::new();
        let m = src.atvs.len();
        for jj in 0..m
            invariant
                m == src.atvs.len(),
                atvs@.len() == jj,
                forall|q: int| 0 <= q < jj ==> atvs@[q]@ == src@[q],
        {
            let a = &src.atvs[jj];
            let oid = copy_range(a.oid.as_slice(), 0, a.oid.len());
            let value = copy_range(a.value.as_slice(), 0, a.value.len());
            let copy = AttributeTypeAndValue { oid, value_tag: a.value_tag, value };
            proof {
                assert(a.oid@.subrange(0, a.oid@.len() as int) =~= a.oid@);
                assert(a.value@.subrange(0, a.value@.len() as int) =~= a.value@);
                assert(copy@ =~= src@[jj as int]);
            }
            atvs.push(copy);
        }
        let rdn = Rdn { atvs };
        proof {
            assert(rdn@ =~= n@[i as int]);
        }
        rdns.push(rdn);
    }
    let r = Name { rdns };
    proof {
        assert(r@ =~= n@);
    }
    r
}

pub fn extensions_copy(es: &Vec<Extension>) -> (r: Vec<Extension>)
    ensures
        r@.map_values(|e: Extension| e@) == es@.map_values(|e: Extension| e@),
{
    let mut out: Vec<Extension> = Vec::new();
    let k = es.len();
    for i in 0..k
        invariant
            k == es.len(),
            out@.len() == i,
            forall|j: int| 0 <= j < i ==> out@[j]@ == es@[j]@,
    {
        let e = &es[i];
        let oid = copy_range(e.oid.as_slice(), 0, e.oid.len());
        let value = copy_range(e.value.as_slice(), 0, e.value.len());
        let copy = Extension { oid, critical: e.critical, value };
        proof {
            assert(e.oid@.subrange(0, e.oid@.len() as int) =~= e.oid@);
            assert(e.value@.subrange(0, e.value@.len() as int) =~= e.value@);
            assert(copy@ =~= es@[i as int]@);
        }
        out.push(copy);
    }
    proof {
        assert(out@.map_values(|e: Extension| e@) =~= es@.map_values(|e: Extension| e@));
    }
    out
}

// ---------------------------------------------------------------------------
// Time, through chrono
// ---------------------------------------------------------------------------

/// One second past the last encodable instant, 9999-12-31T23:59:59Z.
pub open spec fn spec_max_time_secs() -> int {
    253402300800
}

/// The civil (year, month, day, hour, minute, second) of an epoch second
/// count.
pub uninterp spec fn civil_of(secs: int) -> (int, int, int, int, int, int);

/// Relies on chrono::DateTime::from_timestamp and the Datelike/Timelike
/// accessors: the civil date-time of an epoch second count, a function of
/// it alone, with each field in its calendar range.
#[verifier::external_body]
fn chrono_civil_from_secs(secs: i64) -> (r: Option<(u16, u8, u8, u8, u8, u8)>)
    requires
        0 <= secs < spec_max_time_secs(),
    ensures
        r is Some,
        r matches Some((y, mo, d, h, mi, s)) ==> {
            &&& civil_of(secs as int) == (
                y as int,
                mo as int,
                d as int,
                h as int,
                mi as int,
                s as int,
            )
            &&& 1970 <= y <= 9999
            &&& 1 <= mo <= 12
            &&& 1 <= d <= 31
            &&& h <= 23
            &&& mi <= 59
            &&& s <= 59
        },
{
    let dt = chrono::DateTime::<chrono::Utc>::from_timestamp(secs, 0)?;
    Some(
        (
            dt.year() as u16,
            dt.month() as u8,
            dt.day() as u8,
            dt.hour() as u8,
            dt.minute() as u8,
            dt.second() as u8,
        ),
    )
}

/// Relies on std::time::SystemTime::now: the clock.  A reading before the
/// epoch is reported as zero; nothing else is promised of the value.
#[verifier::external_body]
fn system_now_secs() -> (r: i64) {
    match std::time::SystemTime::now().duration_since(std::time::UNIX_EPOCH) {
        Ok(d) => {
            if d.as_secs() > i64::MAX as u64 {
                i64::MAX
            } else {
                d.as_secs() as i64
            }
        },
        Err(_) => 0,
    }
}

/// The `Asn1Time` of an epoch second count: UTCTime while the year is
/// below 2050, GeneralizedTime after.
pub open spec fn spec_time_of_secs(secs: int) -> SpecAsn1Time {
    let (y, mo, d, h, mi, s) = civil_of(secs);
    SpecAsn1Time {
        utc: y < 2050,
        year: y as u16,
        month: mo as u8,
        day: d as u8,
        hour: h as u8,
        minute: mi as u8,
        second: s as u8,
    }
}

fn asn1_time_from_secs(secs: i64) -> (r: Asn1Time)
    requires
        0 <= secs < spec_max_time_secs(),
    ensures
        r@ == spec_time_of_secs(secs as int),
        wf_time(r@),
{
    let (y, mo, d, h, mi, s) = match chrono_civil_from_secs(secs) {
        Some(x) => x,
        None => {
            proof {
                assert(false);
            }
            (1970, 1, 1, 0, 0, 0)
        },
    };
    Asn1Time { utc: y < 2050, year: y, month: mo, day: d, hour: h, minute: mi, second: s }
}

/// Clamp an epoch second count into the encodable window.
pub open spec fn spec_clamp_secs(t: int) -> int {
    if t < 0 {
        0
    } else if t >= spec_max_time_secs() {
        spec_max_time_secs() - 1
    } else {
        t
    }
}

fn clamp_secs(t: i64) -> (r: i64)
    ensures
        r == spec_clamp_secs(t as int),
        0 <= r < spec_max_time_secs(),
{
    if t < 0 {
        0
    } else if t >= 253402300800 {
        253402300799
    } else {
        t
    }
}

/// Saturating addition of a duration to an epoch second count.
pub open spec fn spec_add_secs(t: int, d: int) -> int {
    if t + d > i64::MAX {
        i64::MAX as int
    } else if t + d < i64::MIN {
        i64::MIN as int
    } else {
        t + d
    }
}

// ---------------------------------------------------------------------------
// Serial numbers
// ---------------------------------------------------------------------------

/// The 8 big-endian bytes of a 64-bit two's-complement value.
pub open spec fn spec_i64_be8(v: i64) -> Seq<u8> {
    let u = v as u64;
    seq![
        (u / 0x100_0000_0000_0000) as u8,
        ((u / 0x1_0000_0000_0000) % 0x100) as u8,
        ((u / 0x100_0000_0000) % 0x100) as u8,
        ((u / 0x1_0000_0000) % 0x100) as u8,
        ((u / 0x100_0000) % 0x100) as u8,
        ((u / 0x1_0000) % 0x100) as u8,
        ((u / 0x100) % 0x100) as u8,
        (u % 0x100) as u8,
    ]
}

/// Strip redundant leading bytes from a two's-complement big-endian
/// integer: a 0x00 before a byte under 0x80, or a 0xff before one at or
/// over it.
pub open spec fn spec_strip_redundant(s: Seq<u8>) -> Seq<u8>
    decreases s.len(),
{
    if s.len() >= 2 && ((s[0] == 0 && s[1] < 0x80) || (s[0] == 0xff && s[1] >= 0x80)) {
        spec_strip_redundant(s.drop_first())
    } else {
        s
    }
}

/// The minimal two's-complement big-endian form of a 64-bit value: the DER
/// INTEGER contents encoding it.
pub open spec fn spec_serial_of_i64(v: i64) -> Seq<u8> {
    spec_strip_redundant(spec_i64_be8(v))
}

pub fn serial_from_i64(v: i64) -> (r: Vec<u8>)
    ensures
        r@ == spec_serial_of_i64(v),
        crate::model::wf_serial(r@),
{
    let u = v as u64;
    let mut b: Vec<u8> = Vec::new();
    b.push((u / 0x100_0000_0000_0000) as u8);
    b.push(((u / 0x1_0000_0000_0000) % 0x100) as u8);
    b.push(((u / 0x100_0000_0000) % 0x100) as u8);
    b.push(((u / 0x1_0000_0000) % 0x100) as u8);
    b.push(((u / 0x100_0000) % 0x100) as u8);
    b.push(((u / 0x1_0000) % 0x100) as u8);
    b.push(((u / 0x100) % 0x100) as u8);
    b.push((u % 0x100) as u8);
    proof {
        assert(u / 0x100_0000_0000_0000 < 0x100);
        assert(b@ =~= spec_i64_be8(v));
    }
    proof {
        assert(b@.subrange(0, 8) =~= b@);
    }
    let mut start: usize = 0;
    while start < 7 && ((b[start] == 0 && b[start + 1] < 0x80) || (b[start] == 0xff && b[start + 1]
        >= 0x80))
        invariant
            start < 8,
            b@.len() == 8,
            spec_strip_redundant(b@) == spec_strip_redundant(
                b@.subrange(start as int, 8),
            ),
        decreases 8 - start,
    {
        proof {
            let cur = b@.subrange(start as int, 8);
            assert(cur.drop_first() =~= b@.subrange(start + 1, 8));
        }
        start = start + 1;
    }
    let r = copy_range(b.as_slice(), start, 8);
    proof {
        let cur = b@.subrange(start as int, 8);
        assert(spec_strip_redundant(cur) == cur);
        assert(r@ == cur);
    }
    r
}

// ---------------------------------------------------------------------------
// The builder
// ---------------------------------------------------------------------------

/// Builds new certificates.  Defaults: serial number 1, validity from now
/// until one hour from now, and a self-signed certificate (the subject is
/// mirrored into the issuer) unless an issuer is set.
#[derive(Debug)]
pub struct X509CertificateBuilder {
    pub key_algorithm: KeyAlgorithm,
    pub subject: Name,
    pub issuer: Option<Name>,
    pub extensions: Vec<Extension>,
    pub serial_number: i64,
    pub not_before: i64,
    pub not_after: i64,
}

impl X509CertificateBuilder {
    /// A fresh builder for the given key algorithm.
    pub fn new(alg: KeyAlgorithm) -> (r: Self)
        ensures
            r.key_algorithm == alg,
            r.subject@ == Seq::<Seq<SpecAttributeTypeAndValue>>::empty(),
            r.issuer is None,
            r.extensions@.len() == 0,
            r.serial_number == 1,
            0 <= r.not_before < spec_max_time_secs(),
            r.not_after == spec_clamp_secs(spec_add_secs(r.not_before as int, 3600)),
    {
        let now = clamp_secs(system_now_secs());
        let not_after = clamp_secs(saturating_add(now, 3600));
        X509CertificateBuilder {
            key_algorithm: alg,
            subject: Name::new_empty(),
            issuer: None,
            extensions: Vec::new(),
            serial_number: 1,
            not_before: now,
            not_after,
        }
    }

    /// Set the serial number.
    pub fn serial_number(&mut self, value: i64)
        ensures
            *final(self) == (X509CertificateBuilder { serial_number: value, ..*old(self) }),
    {
        self.serial_number = value;
    }

    /// Append an extension whose value is pre-encoded DER data, taken
    /// verbatim.
    pub fn add_extension_der_data(&mut self, oid: Vec<u8>, critical: bool, data: &[u8])
        ensures
            final(self).extensions@.len() == old(self).extensions@.len() + 1,
            final(self).extensions@.last()@ == (crate::model::SpecExtension {
                oid: oid@,
                critical: Some(critical),
                value: data@,
            }),
            forall|i: int|
                0 <= i < old(self).extensions@.len() ==> final(self).extensions@[i] == old(
                    self,
                ).extensions@[i],
            final(self).key_algorithm == old(self).key_algorithm,
            final(self).subject == old(self).subject,
            final(self).issuer == old(self).issuer,
            final(self).serial_number == old(self).serial_number,
            final(self).not_before == old(self).not_before,
            final(self).not_after == old(self).not_after,
    {
        let value = copy_range(data, 0, data.len());
        proof {
            assert(data@.subrange(0, data@.len() as int) =~= data@);
        }
        self.extensions.push(Extension { oid, critical: Some(critical), value });
    }

    /// Set the expiry as a number of seconds after the configured start.
    pub fn validity_duration(&mut self, duration_seconds: i64)
        ensures
            *final(self) == (X509CertificateBuilder {
                not_after: spec_clamp_secs(
                    spec_add_secs(old(self).not_before as int, duration_seconds as int),
                ) as i64,
                ..*old(self)
            }),
    {
        self.not_after = clamp_secs(saturating_add(self.not_before, duration_seconds));
    }

    /// The settings hold only well-formed names and extensions.  The
    /// attribute and extension helpers keep this; it can only be broken by
    /// writing ill-formed values into the public fields directly.
    pub open spec fn wf_settings(self) -> bool {
        &&& crate::model::wf_name(self.subject@)
        &&& match self.issuer {
            Some(n) => crate::model::wf_name(n@),
            None => true,
        }
        &&& forall|i: int|
            0 <= i < self.extensions@.len() ==> crate::model::wf_ext(
                #[trigger] self.extensions@[i]@,
            )
    }

    /// The name certificates from this builder are issued under: the set
    /// issuer, or the subject itself.
    pub open spec fn spec_effective_issuer(self) -> SpecName {
        match self.issuer {
            Some(n) => n@,
            None => self.subject@,
        }
    }

    /// Create a certificate from the current settings with a freshly
    /// generated random key pair.  Returns the captured certificate, the
    /// key pair, and the exportable PKCS#8 document of the private key.
    #[verifier::rlimit(100)]
    pub fn create_with_random_keypair(&self) -> (r: Result<
        (CapturedX509Certificate, InMemorySigningKeyPair, Vec<u8>),
        X509CertificateError,
    >)
        ensures
            r matches Ok((cert, key_pair, doc)) ==> {
                &&& key_pair.wf()
                &&& key_pair.algorithm == self.key_algorithm
                &&& doc@ == key_pair.pkcs8_der@
                &&& cert.original_bytes() == crate::model::enc_certificate(cert.parsed())
                &&& (self.wf_settings() ==> wf_certificate(cert.parsed()))
                &&& cert.parsed().tbs_certificate.version == Some(2u8)
                &&& cert.parsed().tbs_certificate.serial_number == spec_serial_of_i64(
                    self.serial_number,
                )
                &&& cert.parsed().tbs_certificate.subject == self.subject@
                &&& cert.parsed().tbs_certificate.issuer == self.spec_effective_issuer()
                &&& cert.parsed().tbs_certificate.subject_public_key_info.subject_public_key
                    == key_pair.public_key@
                &&& cert.parsed().tbs_certificate.validity.not_before == spec_time_of_secs(
                    spec_clamp_secs(self.not_before as int),
                )
                &&& cert.parsed().tbs_certificate.validity.not_after == spec_time_of_secs(
                    spec_clamp_secs(self.not_after as int),
                )
                &&& cert.parsed().tbs_certificate.extensions == (if self.extensions@.len() == 0 {
                    None::<Seq<crate::model::SpecExtension>>
                } else {
                    Some(self.extensions@.map_values(|e: Extension| e@))
                })
                &&& cert.parsed().tbs_certificate.subject_public_key_info.algorithm
                    == spec_key_alg_id(self.key_algorithm)
                &&& cert.parsed().tbs_certificate.signature == (SpecAlgorithmIdentifier {
                    oid: key_pair.spec_default_signature_algorithm().spec_oid(),
                    params: None::<Seq<u8>>,
                })
                &&& cert.parsed().signature_algorithm == cert.parsed().tbs_certificate.signature
                &&& (self.key_algorithm == KeyAlgorithm::Ed25519 ==> ed25519_sig_of(
                    key_pair.pkcs8_der@,
                    enc_tbs(cert.parsed().tbs_certificate),
                ) == Some(cert.parsed().signature))
                &&& sig_verifies(
                    key_pair.spec_default_signature_algorithm().spec_id(),
                    key_pair.public_key@,
                    enc_tbs(cert.parsed().tbs_certificate),
                    cert.parsed().signature,
                )
                &&& (self.wf_settings() ==> cert_verify_ok(
                    cert.original_bytes(),
                    key_pair.public_key@,
                ))
            },
            self.key_algorithm == KeyAlgorithm::Rsa ==> r is Err,
    {
        let (key_pair, doc) = match InMemorySigningKeyPair::generate_random(self.key_algorithm) {
            Ok(x) => x,
            Err(e) => { return Err(e); },
        };
        let signature_algorithm = key_pair.default_signature_algorithm();
        let issuer = match &self.issuer {
            Some(n) => name_copy(n),
            None => name_copy(&self.subject),
        };
        let not_before = asn1_time_from_secs(clamp_secs(self.not_before));
        let not_after = asn1_time_from_secs(clamp_secs(self.not_after));
        let key_alg_id = match self.key_algorithm {
            KeyAlgorithm::Ed25519 => AlgorithmIdentifier { oid: oid_ed25519(), params: None },
            KeyAlgorithm::Ecdsa => AlgorithmIdentifier {
                oid: oid_ec_public_key(),
                params: Some(wrap_tlv(0x06, oid_p256())),
            },
            KeyAlgorithm::Rsa => AlgorithmIdentifier {
                oid: oid_rsa_encryption(),
                params: Some(wrap_tlv(0x05, Vec::new())),
            },
        };
        proof {
            assert(key_alg_id@ =~= spec_key_alg_id(self.key_algorithm));
        }
        let sig_alg_id = AlgorithmIdentifier { oid: signature_algorithm.oid(), params: None };
        let sig_alg_id2 = alg_copy(&sig_alg_id);
        let pk = key_pair.public_key_data();
        let subject_public_key = copy_range(pk.as_slice(), 0, pk.len());
        proof {
            assert(pk@.subrange(0, pk@.len() as int) =~= pk@);
        }
        let extensions = if self.extensions.len() == 0 {
            None
        } else {
            Some(extensions_copy(&self.extensions))
        };
        let tbs_certificate = TbsCertificate {
            version: Some(2),
            serial_number: serial_from_i64(self.serial_number),
            signature: sig_alg_id,
            issuer,
            validity: Validity { not_before, not_after },
            subject: name_copy(&self.subject),
            subject_public_key_info: SubjectPublicKeyInfo {
                algorithm: key_alg_id,
                subject_public_key,
            },
            issuer_unique_id: None,
            subject_unique_id: None,
            extensions,
        };
        let tbs_der = encode_tbs(&tbs_certificate);
        let signature = match key_pair.sign(tbs_der.as_slice()) {
            Ok(s) => s,
            Err(e) => { return Err(e); },
        };
        let cert = Certificate { tbs_certificate, signature_algorithm: sig_alg_id2, signature };
        let cert_der = encode_certificate(&cert);
        let inner = X509Certificate(cert);
        proof {
            if self.wf_settings() {
                assert(wf_certificate(inner@));
            }
        }
        // An in-memory encoding is far below the reader's length cap.
        let der_len = cert_der.len();
        proof {
            crate::der::lemma_pow256_vals();
            assert(der_len <= usize::MAX);
            assert(cert_der@.len() < crate::der::pow256(8));
            if self.wf_settings() {
                lemma_sig_alg_of_own_oid(signature_algorithm);
                lemma_verify_of_encoding(inner@, key_pair.public_key@);
            }
        }
        let captured = CapturedX509Certificate::from_encoding_of(inner, cert_der);
        Ok((captured, key_pair, doc))
    }
}

/// Saturating addition on epoch second counts.
fn saturating_add(a: i64, b: i64) -> (r: i64)
    ensures
        r == spec_add_secs(a as int, b as int),
{
    if b >= 0 {
        if a <= i64::MAX - b {
            a + b
        } else {
            i64::MAX
        }
    } else {
        if a >= i64::MIN - b {
            a + b
        } else {
            i64::MIN
        }
    }
}

} // verus!

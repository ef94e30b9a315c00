//! Typed model of the X.509 `Certificate` structure and the mathematical
//! form of its DER encoding.
//!
//! Each executable type views to a ghost mirror whose fields are sequences;
//! `enc_certificate` gives the exact DER bytes of a certificate value.

use vstd::prelude::*;

use crate::der::{spec_tlv};

verus! {

// ---------------------------------------------------------------------------
// Ghost mirrors
// ---------------------------------------------------------------------------

#[verifier::ext_equal]
pub ghost struct SpecAlgorithmIdentifier {
    pub oid: Seq<u8>,
    pub params: Option<Seq<u8>>,
}

#[verifier::ext_equal]
pub ghost struct SpecAttributeTypeAndValue {
    pub oid: Seq<u8>,
    pub value_tag: u8,
    pub value: Seq<u8>,
}

pub type SpecRdn = Seq<SpecAttributeTypeAndValue>;

pub type SpecName = Seq<SpecRdn>;

#[verifier::ext_equal]
pub ghost struct SpecAsn1Time {
    pub utc: bool,
    pub year: u16,
    pub month: u8,
    pub day: u8,
    pub hour: u8,
    pub minute: u8,
    pub second: u8,
}

#[verifier::ext_equal]
pub ghost struct SpecValidity {
    pub not_before: SpecAsn1Time,
    pub not_after: SpecAsn1Time,
}

#[verifier::ext_equal]
pub ghost struct SpecSubjectPublicKeyInfo {
    pub algorithm: SpecAlgorithmIdentifier,
    pub subject_public_key: Seq<u8>,
}

#[verifier::ext_equal]
pub ghost struct SpecExtension {
    pub oid: Seq<u8>,
    pub critical: Option<bool>,
    pub value: Seq<u8>,
}

#[verifier::ext_equal]
pub ghost struct SpecTbsCertificate {
    pub version: Option<u8>,
    pub serial_number: Seq<u8>,
    pub signature: SpecAlgorithmIdentifier,
    pub issuer: SpecName,
    pub validity: SpecValidity,
    pub subject: SpecName,
    pub subject_public_key_info: SpecSubjectPublicKeyInfo,
    pub issuer_unique_id: Option<Seq<u8>>,
    pub subject_unique_id: Option<Seq<u8>>,
    pub extensions: Option<Seq<SpecExtension>>,
}

#[verifier::ext_equal]
pub ghost struct SpecCertificate {
    pub tbs_certificate: SpecTbsCertificate,
    pub signature_algorithm: SpecAlgorithmIdentifier,
    pub signature: Seq<u8>,
}

// ---------------------------------------------------------------------------
// Executable types
// ---------------------------------------------------------------------------

/// An algorithm identifier: the DER body of its OID, and the raw DER bytes
/// of its parameters, if any.
#[derive(Clone, Debug, PartialEq, Eq)]
pub struct AlgorithmIdentifier {
    pub oid: Vec<u8>,
    pub params: Option<Vec<u8>>,
}

/// One attribute inside a relative distinguished name: attribute OID, the
/// ASN.1 string tag of the value, and the value's bytes.
#[derive(Clone, Debug, PartialEq, Eq)]
pub struct AttributeTypeAndValue {
    pub oid: Vec<u8>,
    pub value_tag: u8,
    pub value: Vec<u8>,
}

/// A relative distinguished name: a set of attributes.
#[derive(Clone, Debug, PartialEq, Eq)]
pub struct Rdn {
    pub atvs: Vec<AttributeTypeAndValue>,
}

/// An X.501 name: an ordered sequence of relative distinguished names.
#[derive(Clone, Debug, PartialEq, Eq)]
pub struct Name {
    pub rdns: Vec<Rdn>,
}

/// A timestamp in the ASN.1 `Time` shape: UTCTime when `utc` is set,
/// GeneralizedTime otherwise.
#[derive(Clone, Copy, Debug, PartialEq, Eq)]
pub struct Asn1Time {
    pub utc: bool,
    pub year: u16,
    pub month: u8,
    pub day: u8,
    pub hour: u8,
    pub minute: u8,
    pub second: u8,
}

/// A certificate validity window.
#[derive(Clone, Copy, Debug, PartialEq, Eq)]
pub struct Validity {
    pub not_before: Asn1Time,
    pub not_after: Asn1Time,
}

/// A subject public key: its algorithm and the raw key bit string
/// (with no unused bits).
#[derive(Clone, Debug, PartialEq, Eq)]
pub struct SubjectPublicKeyInfo {
    pub algorithm: AlgorithmIdentifier,
    pub subject_public_key: Vec<u8>,
}

/// One certificate extension: OID, optional criticality flag, and the raw
/// DER bytes of its value.  The value's semantics depend on the OID and are
/// not interpreted here.
#[derive(Clone, Debug, PartialEq, Eq)]
pub struct Extension {
    pub oid: Vec<u8>,
    pub critical: Option<bool>,
    pub value: Vec<u8>,
}

/// The to-be-signed part of a certificate.
#[derive(Clone, Debug, PartialEq, Eq)]
pub struct TbsCertificate {
    pub version: Option<u8>,
    pub serial_number: Vec<u8>,
    pub signature: AlgorithmIdentifier,
    pub issuer: Name,
    pub validity: Validity,
    pub subject: Name,
    pub subject_public_key_info: SubjectPublicKeyInfo,
    pub issuer_unique_id: Option<Vec<u8>>,
    pub subject_unique_id: Option<Vec<u8>>,
    pub extensions: Option<Vec<Extension>>,
}

/// A full certificate: the signed part, the signature algorithm repeated
/// outside it, and the signature bit string (with no unused bits).
#[derive(Clone, Debug, PartialEq, Eq)]
pub struct Certificate {
    pub tbs_certificate: TbsCertificate,
    pub signature_algorithm: AlgorithmIdentifier,
    pub signature: Vec<u8>,
}

// ---------------------------------------------------------------------------
// Views
// ---------------------------------------------------------------------------

impl View for AlgorithmIdentifier {
    type V = SpecAlgorithmIdentifier;

    open spec fn view(&self) -> SpecAlgorithmIdentifier {
        SpecAlgorithmIdentifier {
            oid: self.oid@,
            params: match self.params {
                Some(p) => Some(p@),
                None => None,
            },
        }
    }
}

impl View for AttributeTypeAndValue {
    type V = SpecAttributeTypeAndValue;

    open spec fn view(&self) -> SpecAttributeTypeAndValue {
        SpecAttributeTypeAndValue { oid: self.oid@, value_tag: self.value_tag, value: self.value@ }
    }
}

impl View for Rdn {
    type V = SpecRdn;

    open spec fn view(&self) -> SpecRdn {
        self.atvs@.map_values(|a: AttributeTypeAndValue| a@)
    }
}

impl View for Name {
    type V = SpecName;

    open spec fn view(&self) -> SpecName {
        self.rdns@.map_values(|r: Rdn| r@)
    }
}

impl View for Asn1Time {
    type V = SpecAsn1Time;

    open spec fn view(&self) -> SpecAsn1Time {
        SpecAsn1Time {
            utc: self.utc,
            year: self.year,
            month: self.month,
            day: self.day,
            hour: self.hour,
            minute: self.minute,
            second: self.second,
        }
    }
}

impl View for Validity {
    type V = SpecValidity;

    open spec fn view(&self) -> SpecValidity {
        SpecValidity { not_before: self.not_before@, not_after: self.not_after@ }
    }
}

impl View for SubjectPublicKeyInfo {
    type V = SpecSubjectPublicKeyInfo;

    open spec fn view(&self) -> SpecSubjectPublicKeyInfo {
        SpecSubjectPublicKeyInfo {
            algorithm: self.algorithm@,
            subject_public_key: self.subject_public_key@,
        }
    }
}

impl View for Extension {
    type V = SpecExtension;

    open spec fn view(&self) -> SpecExtension {
        SpecExtension { oid: self.oid@, critical: self.critical, value: self.value@ }
    }
}

impl View for TbsCertificate {
    type V = SpecTbsCertificate;

    open spec fn view(&self) -> SpecTbsCertificate {
        SpecTbsCertificate {
            version: self.version,
            serial_number: self.serial_number@,
            signature: self.signature@,
            issuer: self.issuer@,
            validity: self.validity@,
            subject: self.subject@,
            subject_public_key_info: self.subject_public_key_info@,
            issuer_unique_id: match self.issuer_unique_id {
                Some(b) => Some(b@),
                None => None,
            },
            subject_unique_id: match self.subject_unique_id {
                Some(b) => Some(b@),
                None => None,
            },
            extensions: match self.extensions {
                Some(es) => Some(es@.map_values(|e: Extension| e@)),
                None => None,
            },
        }
    }
}

impl View for Certificate {
    type V = SpecCertificate;

    open spec fn view(&self) -> SpecCertificate {
        SpecCertificate {
            tbs_certificate: self.tbs_certificate@,
            signature_algorithm: self.signature_algorithm@,
            signature: self.signature@,
        }
    }
}

// ---------------------------------------------------------------------------
// Well-formedness
// ---------------------------------------------------------------------------

pub open spec fn wf_alg(a: SpecAlgorithmIdentifier) -> bool {
    &&& a.oid.len() >= 1
    &&& match a.params {
        Some(p) => p.len() >= 1,
        None => true,
    }
}

/// The ASN.1 string kinds an attribute value may carry: UTF8String,
/// PrintableString, IA5String.
pub open spec fn wf_atv(a: SpecAttributeTypeAndValue) -> bool {
    &&& a.oid.len() >= 1
    &&& (a.value_tag == 0x0cu8 || a.value_tag == 0x13u8 || a.value_tag == 0x16u8)
}

pub open spec fn wf_rdn(r: SpecRdn) -> bool {
    forall|i: int| 0 <= i < r.len() ==> wf_atv(#[trigger] r[i])
}

pub open spec fn wf_name(n: SpecName) -> bool {
    forall|i: int| 0 <= i < n.len() ==> wf_rdn(#[trigger] n[i])
}

pub open spec fn wf_time(t: SpecAsn1Time) -> bool {
    &&& 1 <= t.month <= 12
    &&& 1 <= t.day <= 31
    &&& t.hour <= 23
    &&& t.minute <= 59
    &&& t.second <= 59
    &&& if t.utc {
        1950 <= t.year < 2050
    } else {
        t.year <= 9999
    }
}

pub open spec fn wf_validity(v: SpecValidity) -> bool {
    wf_time(v.not_before) && wf_time(v.not_after)
}

pub open spec fn wf_spki(s: SpecSubjectPublicKeyInfo) -> bool {
    wf_alg(s.algorithm)
}

pub open spec fn wf_ext(e: SpecExtension) -> bool {
    e.oid.len() >= 1
}

/// A DER INTEGER body: nonempty and minimal (no redundant leading byte).
pub open spec fn wf_serial(s: Seq<u8>) -> bool {
    &&& s.len() >= 1
    &&& (s.len() >= 2 ==> !(s[0] == 0 && s[1] < 0x80) && !(s[0] == 0xff && s[1] >= 0x80))
}

pub open spec fn wf_tbs(t: SpecTbsCertificate) -> bool {
    &&& match t.version {
        Some(v) => v <= 2,
        None => true,
    }
    &&& wf_serial(t.serial_number)
    &&& wf_alg(t.signature)
    &&& wf_name(t.issuer)
    &&& wf_validity(t.validity)
    &&& wf_name(t.subject)
    &&& wf_spki(t.subject_public_key_info)
    &&& match t.extensions {
        Some(es) => es.len() >= 1 && forall|i: int| 0 <= i < es.len() ==> wf_ext(#[trigger] es[i]),
        None => true,
    }
}

pub open spec fn wf_certificate(c: SpecCertificate) -> bool {
    wf_tbs(c.tbs_certificate) && wf_alg(c.signature_algorithm)
}

// ---------------------------------------------------------------------------
// DER encoding, mathematically
// ---------------------------------------------------------------------------

pub open spec fn enc_oid(oid: Seq<u8>) -> Seq<u8> {
    spec_tlv(0x06, oid)
}

pub open spec fn enc_alg(a: SpecAlgorithmIdentifier) -> Seq<u8> {
    spec_tlv(
        0x30,
        enc_oid(a.oid) + match a.params {
            Some(p) => p,
            None => Seq::empty(),
        },
    )
}

pub open spec fn enc_atv(a: SpecAttributeTypeAndValue) -> Seq<u8> {
    spec_tlv(0x30, enc_oid(a.oid) + spec_tlv(a.value_tag, a.value))
}

pub open spec fn enc_atv_list(s: Seq<SpecAttributeTypeAndValue>) -> Seq<u8>
    decreases s.len(),
{
    if s.len() == 0 {
        Seq::empty()
    } else {
        enc_atv_list(s.drop_last()) + enc_atv(s.last())
    }
}

pub open spec fn enc_rdn(r: SpecRdn) -> Seq<u8> {
    spec_tlv(0x31, enc_atv_list(r))
}

pub open spec fn enc_rdn_list(s: SpecName) -> Seq<u8>
    decreases s.len(),
{
    if s.len() == 0 {
        Seq::empty()
    } else {
        enc_rdn_list(s.drop_last()) + enc_rdn(s.last())
    }
}

pub open spec fn enc_name(n: SpecName) -> Seq<u8> {
    spec_tlv(0x30, enc_rdn_list(n))
}

/// The two ASCII digits of `n` (for `n < 100`).
pub open spec fn two_digits(n: nat) -> Seq<u8> {
    seq![(0x30 + n / 10) as u8, (0x30 + n % 10) as u8]
}

pub open spec fn enc_time_body(t: SpecAsn1Time) -> Seq<u8> {
    let tail = two_digits((t.month % 100) as nat) + two_digits((t.day % 100) as nat) + two_digits(
        (t.hour % 100) as nat,
    ) + two_digits((t.minute % 100) as nat) + two_digits((t.second % 100) as nat) + seq![0x5au8];
    if t.utc {
        two_digits((t.year % 100) as nat) + tail
    } else {
        two_digits(((t.year / 100) % 100) as nat) + two_digits((t.year % 100) as nat) + tail
    }
}

pub open spec fn enc_time(t: SpecAsn1Time) -> Seq<u8> {
    spec_tlv(if t.utc { 0x17u8 } else { 0x18u8 }, enc_time_body(t))
}

pub open spec fn enc_validity(v: SpecValidity) -> Seq<u8> {
    spec_tlv(0x30, enc_time(v.not_before) + enc_time(v.not_after))
}

pub open spec fn enc_spki(s: SpecSubjectPublicKeyInfo) -> Seq<u8> {
    spec_tlv(0x30, enc_alg(s.algorithm) + spec_tlv(0x03, seq![0u8] + s.subject_public_key))
}

pub open spec fn enc_ext(e: SpecExtension) -> Seq<u8> {
    spec_tlv(
        0x30,
        enc_oid(e.oid) + (match e.critical {
            Some(b) => spec_tlv(0x01, seq![if b { 0xffu8 } else { 0x00u8 }]),
            None => Seq::empty(),
        }) + spec_tlv(0x04, e.value),
    )
}

pub open spec fn enc_ext_list(s: Seq<SpecExtension>) -> Seq<u8>
    decreases s.len(),
{
    if s.len() == 0 {
        Seq::empty()
    } else {
        enc_ext_list(s.drop_last()) + enc_ext(s.last())
    }
}

pub open spec fn enc_extensions(es: Seq<SpecExtension>) -> Seq<u8> {
    spec_tlv(0xa3, spec_tlv(0x30, enc_ext_list(es)))
}

pub open spec fn enc_version(v: Option<u8>) -> Seq<u8> {
    match v {
        Some(x) => spec_tlv(0xa0, spec_tlv(0x02, seq![x])),
        None => Seq::empty(),
    }
}

pub open spec fn enc_uid(tag: u8, o: Option<Seq<u8>>) -> Seq<u8> {
    match o {
        Some(b) => spec_tlv(tag, seq![0u8] + b),
        None => Seq::empty(),
    }
}

pub open spec fn enc_tbs_body(t: SpecTbsCertificate) -> Seq<u8> {
    enc_version(t.version) + spec_tlv(0x02, t.serial_number) + enc_alg(t.signature) + enc_name(
        t.issuer,
    ) + enc_validity(t.validity) + enc_name(t.subject) + enc_spki(t.subject_public_key_info)
        + enc_uid(0x81, t.issuer_unique_id) + enc_uid(0x82, t.subject_unique_id) + (match t
        .extensions {
        Some(es) => enc_extensions(es),
        None => Seq::empty(),
    })
}

pub open spec fn enc_tbs(t: SpecTbsCertificate) -> Seq<u8> {
    spec_tlv(0x30, enc_tbs_body(t))
}

pub open spec fn enc_certificate(c: SpecCertificate) -> Seq<u8> {
    spec_tlv(
        0x30,
        enc_tbs(c.tbs_certificate) + enc_alg(c.signature_algorithm) + spec_tlv(
            0x03,
            seq![0u8] + c.signature,
        ),
    )
}

// ---------------------------------------------------------------------------
// List-encoding lemmas
// ---------------------------------------------------------------------------

/// Byte-string equality.
pub fn bytes_eq(a: &[u8], b: &[u8]) -> (r: bool)
    ensures
        r == (a@ == b@),
{
    if a.len() != b.len() {
        return false;
    }
    let n = a.len();
    for i in 0..n
        invariant
            n == a@.len() == b@.len(),
            forall|j: int| 0 <= j < i ==> a@[j] == b@[j],
    {
        if a[i] != b[i] {
            return false;
        }
    }
    proof {
        assert(a@ =~= b@);
    }
    true
}

pub proof fn lemma_atv_list_push(s: Seq<SpecAttributeTypeAndValue>, x: SpecAttributeTypeAndValue)
    ensures
        enc_atv_list(s.push(x)) == enc_atv_list(s) + enc_atv(x),
{
    assert(s.push(x).drop_last() =~= s);
    assert(s.push(x).last() == x);
}

pub proof fn lemma_rdn_list_push(s: SpecName, x: SpecRdn)
    ensures
        enc_rdn_list(s.push(x)) == enc_rdn_list(s) + enc_rdn(x),
{
    assert(s.push(x).drop_last() =~= s);
    assert(s.push(x).last() == x);
}

pub proof fn lemma_ext_list_push(s: Seq<SpecExtension>, x: SpecExtension)
    ensures
        enc_ext_list(s.push(x)) == enc_ext_list(s) + enc_ext(x),
{
    assert(s.push(x).drop_last() =~= s);
    assert(s.push(x).last() == x);
}

} // verus!

//! The high-level X.509 certificate interface: parsed certificates,
//! byte-capturing certificates, mutable views, and signature verification.
//!
//! Verification always re-reads the captured original bytes: what is
//! checked is what was signed, never what the in-memory tree claims.

use vstd::prelude::*;

use core::cmp::Ordering;

use crate::decode::dec_certificate;
use crate::der::spec_read_tlv;
use crate::der::read_tlv;
use crate::encode::{copy_range, encode_certificate};
use crate::errors::X509CertificateError;
use crate::keys::{
    KeyAlgorithm, key_alg_from_oid, ring_verify, sig_alg_from_oid, sig_verifies,
    spec_key_alg_of_oid, spec_sig_alg_of_oid,
};
use crate::model::{
    AlgorithmIdentifier, AttributeTypeAndValue, Certificate, Extension, Name, Rdn,
    SpecCertificate, SpecName, SpecTbsCertificate, SubjectPublicKeyInfo, Validity, bytes_eq,
    enc_certificate, wf_certificate,
};
use crate::pemops::{
    certificate_tag, pem_armor, pem_blocks_of, pem_encode_block, pem_first_of, pem_parse_blocks,
    pem_parse_first, spec_certificate_tag,
};

verus! {

// ---------------------------------------------------------------------------
// Deep equality of names
// ---------------------------------------------------------------------------

pub fn atv_eq(a: &AttributeTypeAndValue, b: &AttributeTypeAndValue) -> (r: bool)
    ensures
        r == (a@ == b@),
{
    let r = bytes_eq(a.oid.as_slice(), b.oid.as_slice()) && a.value_tag == b.value_tag && bytes_eq(
        a.value.as_slice(),
        b.value.as_slice(),
    );
    proof {
        if r {
            assert(a@ =~= b@);
        }
    }
    r
}

pub fn rdn_eq(a: &Rdn, b: &Rdn) -> (r: bool)
    ensures
        r == (a@ == b@),
{
    if a.atvs.len() != b.atvs.len() {
        proof {
            assert(a@.len() == a.atvs@.len());
            assert(b@.len() == b.atvs@.len());
        }
        return false;
    }
    let n = a.atvs.len();
    for i in 0..n
        invariant
            n == a.atvs.len() == b.atvs.len(),
            forall|j: int| 0 <= j < i ==> a@[j] == b@[j],
    {
        if !atv_eq(&a.atvs[i], &b.atvs[i]) {
            proof {
                assert(a@[i as int] == a.atvs@[i as int]@);
                assert(b@[i as int] == b.atvs@[i as int]@);
            }
            return false;
        }
        proof {
            assert(a@[i as int] == a.atvs@[i as int]@);
            assert(b@[i as int] == b.atvs@[i as int]@);
        }
    }
    proof {
        assert(a@ =~= b@);
    }
    true
}

pub fn name_eq(a: &Name, b: &Name) -> (r: bool)
    ensures
        r == (a@ == b@),
{
    if a.rdns.len() != b.rdns.len() {
        proof {
            assert(a@.len() == a.rdns@.len());
            assert(b@.len() == b.rdns@.len());
        }
        return false;
    }
    let n = a.rdns.len();
    for i in 0..n
        invariant
            n == a.rdns.len() == b.rdns.len(),
            forall|j: int| 0 <= j < i ==> a@[j] == b@[j],
    {
        if !rdn_eq(&a.rdns[i], &b.rdns[i]) {
            proof {
                assert(a@[i as int] == a.rdns@[i as int]@);
                assert(b@[i as int] == b.rdns@[i as int]@);
            }
            return false;
        }
        proof {
            assert(a@[i as int] == a.rdns@[i as int]@);
            assert(b@[i as int] == b.rdns@[i as int]@);
        }
    }
    proof {
        assert(a@ =~= b@);
    }
    true
}

/// Whether a name holds this RDN set.
pub fn name_contains_rdn(n: &Name, x: &Rdn) -> (r: bool)
    ensures
        r == n@.contains(x@),
{
    let k = n.rdns.len();
    for i in 0..k
        invariant
            k == n.rdns.len(),
            forall|j: int| 0 <= j < i ==> n@[j] != x@,
    {
        if rdn_eq(&n.rdns[i], x) {
            proof {
                assert(n@[i as int] == n.rdns@[i as int]@);
                assert(n@.contains(x@));
            }
            return true;
        }
        proof {
            assert(n@[i as int] == n.rdns@[i as int]@);
        }
    }
    false
}

/// Every RDN set of `a` also stands in `b`.
pub open spec fn name_is_subset_of(a: SpecName, b: SpecName) -> bool {
    forall|i: int| 0 <= i < a.len() ==> b.contains(#[trigger] a[i])
}

/// Whether one certificate is a subset of another: the serial numbers are
/// equal and every RDN set of the first name stands in the second.
pub fn certificate_is_subset_of(
    a_serial: &Vec<u8>,
    a_name: &Name,
    b_serial: &Vec<u8>,
    b_name: &Name,
) -> (r: bool)
    ensures
        r == (a_serial@ == b_serial@ && name_is_subset_of(a_name@, b_name@)),
{
    if !bytes_eq(a_serial.as_slice(), b_serial.as_slice()) {
        return false;
    }
    let k = a_name.rdns.len();
    for i in 0..k
        invariant
            k == a_name.rdns.len(),
            forall|j: int| 0 <= j < i ==> b_name@.contains(#[trigger] a_name@[j]),
    {
        if !name_contains_rdn(b_name, &a_name.rdns[i]) {
            proof {
                assert(a_name@[i as int] == a_name.rdns@[i as int]@);
            }
            return false;
        }
        proof {
            assert(a_name@[i as int] == a_name.rdns@[i as int]@);
        }
    }
    true
}

// ---------------------------------------------------------------------------
// PEM block selection
// ---------------------------------------------------------------------------

/// The views of a tag allow-list.
pub open spec fn tag_views(tags: Seq<Vec<u8>>) -> Seq<Seq<u8>> {
    tags.map_values(|t: Vec<u8>| t@)
}

/// The contents of the blocks whose tag stands in the allow-list, in
/// document order.
pub open spec fn matching_contents(blocks: Seq<(Seq<u8>, Seq<u8>)>, tags: Seq<Seq<u8>>) -> Seq<
    Seq<u8>,
>
    decreases blocks.len(),
{
    if blocks.len() == 0 {
        Seq::empty()
    } else {
        let rest = matching_contents(blocks.drop_last(), tags);
        if tags.contains(blocks.last().0) {
            rest.push(blocks.last().1)
        } else {
            rest
        }
    }
}

/// Whether a tag stands in the allow-list.
fn tag_matches(tags: &Vec<Vec<u8>>, t: &[u8]) -> (r: bool)
    ensures
        r == tag_views(tags@).contains(t@),
{
    let m = tags.len();
    for j in 0..m
        invariant
            m == tags.len(),
            forall|k: int| 0 <= k < j ==> tag_views(tags@)[k] != t@,
    {
        if bytes_eq(tags[j].as_slice(), t) {
            proof {
                assert(tag_views(tags@)[j as int] == tags@[j as int]@);
                assert(tag_views(tags@).contains(t@));
            }
            return true;
        }
        proof {
            assert(tag_views(tags@)[j as int] == tags@[j as int]@);
        }
    }
    false
}

// ---------------------------------------------------------------------------
// The signed parts of an encoded certificate
// ---------------------------------------------------------------------------

/// The three signed parts of a DER certificate, read off the raw bytes:
/// the exact bytes of the TBS element (header included), the signature
/// algorithm's OID, and the signature bits.
pub open spec fn spec_signed_parts(data: Seq<u8>) -> Option<(Seq<u8>, Seq<u8>, Seq<u8>)> {
    match spec_read_tlv(data, 0) {
        Some((t0, cs, ce)) => if t0 == 0x30 && ce == data.len() {
            match spec_read_tlv(data, cs) {
                Some((t1, cs1, ce1)) => if t1 == 0x30 {
                    match spec_read_tlv(data, ce1) {
                        Some((t2, cs2, ce2)) => if t2 == 0x30 && ce2 <= ce {
                            match spec_read_tlv(data, cs2) {
                                Some((t3, cs3, ce3)) => if t3 == 0x06 && ce3 <= ce2 {
                                    match spec_read_tlv(data, ce2) {
                                        Some((t4, cs4, ce4)) => if t4 == 0x03 && ce4 == ce && cs4
                                            < ce4 && data[cs4] == 0 {
                                            Some(
                                                (
                                                    data.subrange(cs, ce1),
                                                    data.subrange(cs3, ce3),
                                                    data.subrange(cs4 + 1, ce4),
                                                ),
                                            )
                                        } else {
                                            None
                                        },
                                        None => None,
                                    }
                                } else {
                                    None
                                },
                                None => None,
                            }
                        } else {
                            None
                        },
                        None => None,
                    }
                } else {
                    None
                },
                None => None,
            }
        } else {
            None
        },
        None => None,
    }
}

/// Read the signed parts off raw certificate bytes.
pub fn extract_signed_parts(data: &[u8]) -> (r: Option<(Vec<u8>, Vec<u8>, Vec<u8>)>)
    ensures
        ({
            let m = spec_signed_parts(data@);
            match r {
                Some((tbs, oid, sig)) => m == Some((tbs@, oid@, sig@)),
                None => m is None,
            }
        }),
{
    let (t0, cs, ce) = match read_tlv(data, 0) {
        Some(x) => x,
        None => { return None; },
    };
    if !(t0 == 0x30 && ce == data.len()) {
        return None;
    }
    let (t1, cs1, ce1) = match read_tlv(data, cs) {
        Some(x) => x,
        None => { return None; },
    };
    if t1 != 0x30 {
        return None;
    }
    let (t2, cs2, ce2) = match read_tlv(data, ce1) {
        Some(x) => x,
        None => { return None; },
    };
    if !(t2 == 0x30 && ce2 <= ce) {
        return None;
    }
    let (t3, cs3, ce3) = match read_tlv(data, cs2) {
        Some(x) => x,
        None => { return None; },
    };
    if !(t3 == 0x06 && ce3 <= ce2) {
        return None;
    }
    let (t4, cs4, ce4) = match read_tlv(data, ce2) {
        Some(x) => x,
        None => { return None; },
    };
    if !(t4 == 0x03 && ce4 == ce && cs4 < ce4) {
        return None;
    }
    if data[cs4] != 0 {
        return None;
    }
    let tbs = copy_range(data, cs, ce1);
    let oid = copy_range(data, cs3, ce3);
    let sig = copy_range(data, cs4 + 1, ce4);
    Some((tbs, oid, sig))
}

/// Whether raw certificate bytes carry a signature by `key`: the bytes have
/// the signed shape, the algorithm OID is known, and the signature checks
/// out over the exact TBS bytes.
pub open spec fn cert_verify_ok(data: Seq<u8>, key: Seq<u8>) -> bool {
    match spec_signed_parts(data) {
        Some((tbs, oid, sig)) => match spec_sig_alg_of_oid(oid) {
            Some(a) => sig_verifies(a.spec_id(), key, tbs, sig),
            None => false,
        },
        None => false,
    }
}

/// The reader finds, in the encoding of a well-formed certificate, exactly
/// the signed parts the encoding carries: the TBS element's bytes, the
/// outer signature algorithm's OID, and the signature bits.
#[verifier::rlimit(100)]
pub proof fn lemma_signed_parts_of_enc(c: SpecCertificate)
    requires
        wf_certificate(c),
        enc_certificate(c).len() < crate::der::pow256(8),
    ensures
        spec_signed_parts(enc_certificate(c)) == Some(
            (
                crate::model::enc_tbs(c.tbs_certificate),
                c.signature_algorithm.oid,
                c.signature,
            ),
        ),
{
    let data = enc_certificate(c);
    let e1 = crate::model::enc_tbs(c.tbs_certificate);
    let e2 = crate::model::enc_alg(c.signature_algorithm);
    let e3 = crate::der::spec_tlv(0x03, seq![0u8] + c.signature);
    let body = e1 + e2 + e3;
    let tbs_body = crate::model::enc_tbs_body(c.tbs_certificate);
    let alg_body = crate::model::enc_oid(c.signature_algorithm.oid) + match c
        .signature_algorithm
        .params {
        Some(p) => p,
        None => Seq::<u8>::empty(),
    };
    assert(data == crate::der::spec_tlv(0x30, body));
    crate::roundtrip::lemma_tlv_len(0x30, body);
    crate::roundtrip::lemma_tlv_len(0x30, tbs_body);
    crate::roundtrip::lemma_tlv_len(0x30, alg_body);
    crate::roundtrip::lemma_tlv_len(0x06, c.signature_algorithm.oid);
    crate::roundtrip::lemma_tlv_len(0x03, seq![0u8] + c.signature);
    // the outer element spans the whole input
    assert(data.subrange(0, data.len() as int) =~= data);
    crate::roundtrip::lemma_read_tlv_of_enc(data, 0, 0x30, body);
    let h0 = 1 + crate::der::spec_len_bytes(body.len()).len() as int;
    let ce = h0 + body.len() as int;
    assert(ce == data.len());
    // the TBS element
    assert(data.subrange(h0, h0 + e1.len() as int) =~= e1) by {
        assert(forall|i: int|
            0 <= i < e1.len() ==> data.subrange(h0, ce)[i] == body[i] && body[i] == e1[i]);
    }
    crate::roundtrip::lemma_read_tlv_of_enc(data, h0, 0x30, tbs_body);
    let ce1 = h0 + e1.len() as int;
    // the outer algorithm element
    assert(data.subrange(ce1, ce1 + e2.len() as int) =~= e2) by {
        assert(forall|i: int|
            0 <= i < e2.len() ==> data.subrange(h0, ce)[e1.len() + i] == body[e1.len() + i]
                && body[e1.len() + i] == e2[i]);
    }
    crate::roundtrip::lemma_read_tlv_of_enc(data, ce1, 0x30, alg_body);
    let h2 = 1 + crate::der::spec_len_bytes(alg_body.len()).len() as int;
    let cs2 = ce1 + h2;
    let ce2 = ce1 + e2.len() as int;
    // its OID element
    let oid_tlv = crate::model::enc_oid(c.signature_algorithm.oid);
    assert(data.subrange(cs2, cs2 + oid_tlv.len() as int) =~= oid_tlv) by {
        assert(forall|i: int|
            0 <= i < oid_tlv.len() ==> data.subrange(cs2, ce2)[i] == alg_body[i] && alg_body[i]
                == oid_tlv[i]);
    }
    crate::roundtrip::lemma_read_tlv_of_enc(data, cs2, 0x06, c.signature_algorithm.oid);
    let h3 = 1 + crate::der::spec_len_bytes(c.signature_algorithm.oid.len()).len() as int;
    let ce3 = cs2 + oid_tlv.len() as int;
    assert(ce3 <= ce2);
    // the signature element
    assert(data.subrange(ce2, ce2 + e3.len() as int) =~= e3) by {
        assert(forall|i: int|
            0 <= i < e3.len() ==> data.subrange(h0, ce)[e1.len() + e2.len() + i] == body[e1.len()
                + e2.len() + i] && body[e1.len() + e2.len() + i] == e3[i]);
    }
    crate::roundtrip::lemma_read_tlv_of_enc(data, ce2, 0x03, seq![0u8] + c.signature);
    let h4 = 1 + crate::der::spec_len_bytes((seq![0u8] + c.signature).len()).len() as int;
    let cs4 = ce2 + h4;
    let ce4 = ce2 + e3.len() as int;
    assert(ce4 == ce);
    assert(data[cs4] == (seq![0u8] + c.signature)[0]);
    assert(data.subrange(cs4 + 1, ce4) =~= c.signature) by {
        assert(forall|i: int|
            0 <= i < c.signature.len() ==> #[trigger] data.subrange(cs4, ce4)[1 + i] == (seq![0u8]
                + c.signature)[1 + i]);
    }
    assert(data.subrange(h0, ce1) == e1);
    assert(data.subrange(cs2 + h3, ce3) == c.signature_algorithm.oid);
}

/// A well-formed certificate whose signature checks out over its TBS bytes
/// under a known algorithm verifies as captured bytes: verification over
/// the encoding succeeds with the same key.
pub proof fn lemma_verify_of_encoding(c: SpecCertificate, key: Seq<u8>)
    requires
        wf_certificate(c),
        enc_certificate(c).len() < crate::der::pow256(8),
        spec_sig_alg_of_oid(c.signature_algorithm.oid) matches Some(a) && sig_verifies(
            a.spec_id(),
            key,
            crate::model::enc_tbs(c.tbs_certificate),
            c.signature,
        ),
    ensures
        cert_verify_ok(enc_certificate(c), key),
{
    lemma_signed_parts_of_enc(c);
}

// ---------------------------------------------------------------------------
// X509Certificate
// ---------------------------------------------------------------------------

/// A parsed certificate with no record of the bytes it came from.
#[derive(Clone, Debug, PartialEq, Eq)]
pub struct X509Certificate(pub Certificate);

impl View for X509Certificate {
    type V = SpecCertificate;

    open spec fn view(&self) -> SpecCertificate {
        self.0@
    }
}

impl X509Certificate {
    /// Parse a certificate from DER bytes.
    pub fn from_der(data: &[u8]) -> (r: Result<Self, X509CertificateError>)
        ensures
            r matches Ok(c) ==> data@ == enc_certificate(c@) && wf_certificate(c@),
            r matches Err(e) ==> e == X509CertificateError::CertificateDecode,
    {
        match dec_certificate(data) {
            Some(c) => Ok(X509Certificate(c)),
            None => Err(X509CertificateError::CertificateDecode),
        }
    }

    /// Parse a certificate from BER bytes.  Only the definite-length subset
    /// of BER that coincides with DER is recognized.
    pub fn from_ber(data: &[u8]) -> (r: Result<Self, X509CertificateError>)
        ensures
            r matches Ok(c) ==> data@ == enc_certificate(c@) && wf_certificate(c@),
            r matches Err(e) ==> e == X509CertificateError::CertificateDecode,
    {
        Self::from_der(data)
    }

    /// Parse one certificate from the first PEM block of the input, which
    /// must carry the `CERTIFICATE` tag.
    pub fn from_pem(data: &[u8]) -> (r: Result<Self, X509CertificateError>)
        ensures
            r matches Ok(c) ==> {
                &&& pem_first_of(data@) matches Some(b) && b.0 == spec_certificate_tag() && b.1
                    == enc_certificate(c@)
                &&& wf_certificate(c@)
            },
            pem_first_of(data@) is None ==> r == Err::<Self, _>(X509CertificateError::PemDecode),
            (pem_first_of(data@) matches Some(b) && b.0 != spec_certificate_tag()) ==> r == Err::<
                Self,
                _,
            >(X509CertificateError::PemDecode),
    {
        match pem_parse_first(data) {
            Some((tag, contents)) => {
                if !bytes_eq(tag.as_slice(), certificate_tag().as_slice()) {
                    return Err(X509CertificateError::PemDecode);
                }
                Self::from_der(contents.as_slice())
            },
            None => Err(X509CertificateError::PemDecode),
        }
    }

    /// Parse every `CERTIFICATE`-tagged PEM block of the input.
    pub fn from_pem_multiple(data: &[u8]) -> (r: Result<Vec<Self>, X509CertificateError>)
        ensures
            r matches Ok(v) ==> {
                let m = matching_contents(pem_blocks_of(data@), seq![spec_certificate_tag()]);
                &&& v@.len() == m.len()
                &&& forall|i: int|
                    0 <= i < v@.len() ==> enc_certificate((#[trigger] v@[i])@) == m[i]
                        && wf_certificate(v@[i]@)
            },
    {
        let tag = certificate_tag();
        let mut tags: Vec<Vec<u8>> = Vec::new();
        tags.push(tag);
        proof {
            assert(tag_views(tags@) =~= seq![spec_certificate_tag()]);
        }
        Self::from_pem_multiple_tags(data, &tags)
    }

    /// Parse every PEM block whose tag stands in `tags`.  Blocks with other
    /// tags are ignored; a matching block that fails to parse is an error.
    /// On success the result holds, in document order, the parse of every
    /// matching block's contents.
    #[verifier::rlimit(100)]
    pub fn from_pem_multiple_tags(data: &[u8], tags: &Vec<Vec<u8>>) -> (r: Result<
        Vec<Self>,
        X509CertificateError,
    >)
        ensures
            r matches Ok(v) ==> {
                let m = matching_contents(pem_blocks_of(data@), tag_views(tags@));
                &&& v@.len() == m.len()
                &&& forall|i: int|
                    0 <= i < v@.len() ==> enc_certificate((#[trigger] v@[i])@) == m[i]
                        && wf_certificate(v@[i]@)
            },
    {
        let blocks = match pem_parse_blocks(data) {
            Some(b) => b,
            None => { return Err(X509CertificateError::PemDecode); },
        };
        let ghost full = pem_blocks_of(data@);
        let ghost tagv = tag_views(tags@);
        let mut out: Vec<Self> = Vec::new();
        let n = blocks.len();
        proof {
            assert(out@.map_values(|c: Self| enc_certificate(c@)) =~= matching_contents(
                full.subrange(0, 0),
                tagv,
            ));
        }
        for i in 0..n
            invariant
                n == blocks.len(),
                n == full.len(),
                full == pem_blocks_of(data@),
                tagv == tag_views(tags@),
                forall|k: int|
                    0 <= k < n ==> (#[trigger] blocks@[k]).0@ == full[k].0 && blocks@[k].1@
                        == full[k].1,
                out@.map_values(|c: Self| enc_certificate(c@)) == matching_contents(
                    full.subrange(0, i as int),
                    tagv,
                ),
                forall|k: int| 0 <= k < out@.len() ==> wf_certificate(#[trigger] out@[k]@),
        {
            let (btag, contents) = &blocks[i];
            let matched = tag_matches(tags, btag.as_slice());
            proof {
                let pre = full.subrange(0, i + 1);
                assert(pre.drop_last() =~= full.subrange(0, i as int));
                assert(pre.last() == full[i as int]);
                assert(full[i as int].0 == btag@);
            }
            if matched {
                match Self::from_der(contents.as_slice()) {
                    Ok(c) => {
                        let ghost prev = out@;
                        out.push(c);
                        proof {
                            assert(out@.map_values(|x: Self| enc_certificate(x@)) =~= prev
                                .map_values(|x: Self| enc_certificate(x@)).push(
                                enc_certificate(c@),
                            ));
                            assert(enc_certificate(c@) == full[i as int].1);
                        }
                    },
                    Err(e) => { return Err(e); },
                }
            }
        }
        proof {
            assert(full.subrange(0, n as int) =~= full);
        }
        Ok(out)
    }

    /// The serial number, as the contents of its ASN.1 INTEGER.
    pub fn serial_number_asn1(&self) -> (r: &Vec<u8>)
        ensures
            r@ == self@.tbs_certificate.serial_number,
    {
        &self.0.tbs_certificate.serial_number
    }

    /// The certificate's subject name.
    pub fn subject_name(&self) -> (r: &Name)
        ensures
            r@ == self@.tbs_certificate.subject,
    {
        &self.0.tbs_certificate.subject
    }

    /// The certificate's issuer name.
    pub fn issuer_name(&self) -> (r: &Name)
        ensures
            r@ == self@.tbs_certificate.issuer,
    {
        &self.0.tbs_certificate.issuer
    }

    /// DER-encode the in-memory structure.  This re-serializes; it need not
    /// match bytes the certificate was originally parsed from.
    pub fn encode_der(&self) -> (r: Result<Vec<u8>, X509CertificateError>)
        ensures
            r matches Ok(v) ==> v@ == enc_certificate(self@),
            r is Ok,
    {
        Ok(encode_certificate(&self.0))
    }

    /// BER-encode the in-memory structure.  DER is valid BER, and this
    /// library always emits the DER form.
    pub fn encode_ber(&self) -> (r: Result<Vec<u8>, X509CertificateError>)
        ensures
            r matches Ok(v) ==> v@ == enc_certificate(self@),
            r is Ok,
    {
        self.encode_der()
    }

    /// PEM-armor the DER encoding of the in-memory structure.
    pub fn encode_pem(&self) -> (r: Result<String, X509CertificateError>)
        ensures
            r matches Ok(s) ==> s@ == pem_armor("CERTIFICATE"@, enc_certificate(self@)),
            r is Ok,
    {
        let der = encode_certificate(&self.0);
        Ok(pem_encode_block("CERTIFICATE", der.as_slice()))
    }

    /// The key algorithm of the subject public key, if this library knows
    /// its OID.
    pub fn key_algorithm(&self) -> (r: Option<KeyAlgorithm>)
        ensures
            r == spec_key_alg_of_oid(
                self@.tbs_certificate.subject_public_key_info.algorithm.oid,
            ),
    {
        key_alg_from_oid(self.0.tbs_certificate.subject_public_key_info.algorithm.oid.as_slice())
    }

    /// A copy of the raw bytes of the subject public key.
    pub fn public_key_data(&self) -> (r: Vec<u8>)
        ensures
            r@ == self@.tbs_certificate.subject_public_key_info.subject_public_key,
    {
        let k = &self.0.tbs_certificate.subject_public_key_info.subject_public_key;
        copy_range(k.as_slice(), 0, k.len())
    }

    /// How `compare_issuer` orders two certificates.
    pub open spec fn spec_compare_issuer(a: SpecCertificate, b: SpecCertificate) -> Ordering {
        if a.tbs_certificate.subject == a.tbs_certificate.issuer {
            Ordering::Equal
        } else if a.tbs_certificate.issuer == b.tbs_certificate.subject {
            Ordering::Greater
        } else if a.tbs_certificate.subject == b.tbs_certificate.issuer {
            Ordering::Less
        } else {
            Ordering::Equal
        }
    }

    /// Sort two certificates so an issuer comes before what it issued.
    /// A self-signed certificate, or an unrelated pair, compares equal.
    pub fn compare_issuer(&self, other: &Self) -> (r: Ordering)
        ensures
            r == Self::spec_compare_issuer(self@, other@),
    {
        if name_eq(&self.0.tbs_certificate.subject, &self.0.tbs_certificate.issuer) {
            Ordering::Equal
        } else if name_eq(&self.0.tbs_certificate.issuer, &other.0.tbs_certificate.subject) {
            Ordering::Greater
        } else if name_eq(&self.0.tbs_certificate.subject, &other.0.tbs_certificate.issuer) {
            Ordering::Less
        } else {
            Ordering::Equal
        }
    }

    /// Whether the subject name equals the issuer name.
    pub fn subject_is_issuer(&self) -> (r: bool)
        ensures
            r == (self@.tbs_certificate.subject == self@.tbs_certificate.issuer),
    {
        name_eq(&self.0.tbs_certificate.subject, &self.0.tbs_certificate.issuer)
    }
}

// ---------------------------------------------------------------------------
// CapturedX509Certificate
// ---------------------------------------------------------------------------

#[derive(Clone, Debug, PartialEq, Eq)]
enum OriginalData {
    Ber(Vec<u8>),
    Der(Vec<u8>),
}

/// A certificate together with the exact bytes it was parsed from.  The
/// bytes are fixed at construction and are the only source verification
/// trusts.
#[derive(Clone, Debug, PartialEq, Eq)]
pub struct CapturedX509Certificate {
    original: OriginalData,
    inner: X509Certificate,
}

impl CapturedX509Certificate {
    /// The bytes this instance was constructed from.
    pub closed spec fn original_bytes(self) -> Seq<u8> {
        match self.original {
            OriginalData::Ber(d) => d@,
            OriginalData::Der(d) => d@,
        }
    }

    /// The parsed certificate value.
    pub closed spec fn parsed(self) -> SpecCertificate {
        self.inner@
    }

    /// Construct from DER bytes, keeping them.
    pub fn from_der(data: Vec<u8>) -> (r: Result<Self, X509CertificateError>)
        ensures
            r matches Ok(c) ==> {
                &&& c.original_bytes() == data@
                &&& data@ == enc_certificate(c.parsed())
                &&& wf_certificate(c.parsed())
            },
            r matches Err(e) ==> e == X509CertificateError::CertificateDecode,
    {
        match dec_certificate(data.as_slice()) {
            Some(c) => Ok(
                CapturedX509Certificate {
                    original: OriginalData::Der(data),
                    inner: X509Certificate(c),
                },
            ),
            None => Err(X509CertificateError::CertificateDecode),
        }
    }

    /// Construct from BER bytes, keeping them.  Only the definite-length
    /// subset of BER that coincides with DER is recognized.
    pub fn from_ber(data: Vec<u8>) -> (r: Result<Self, X509CertificateError>)
        ensures
            r matches Ok(c) ==> {
                &&& c.original_bytes() == data@
                &&& data@ == enc_certificate(c.parsed())
                &&& wf_certificate(c.parsed())
            },
            r matches Err(e) ==> e == X509CertificateError::CertificateDecode,
    {
        match dec_certificate(data.as_slice()) {
            Some(c) => Ok(
                CapturedX509Certificate {
                    original: OriginalData::Ber(data),
                    inner: X509Certificate(c),
                },
            ),
            None => Err(X509CertificateError::CertificateDecode),
        }
    }

    /// Construct from the first PEM block of the input, which must carry
    /// the `CERTIFICATE` tag.
    pub fn from_pem(data: &[u8]) -> (r: Result<Self, X509CertificateError>)
        ensures
            r matches Ok(c) ==> {
                &&& pem_first_of(data@) matches Some(b) && b.0 == spec_certificate_tag()
                    && c.original_bytes() == b.1
                &&& c.original_bytes() == enc_certificate(c.parsed())
                &&& wf_certificate(c.parsed())
            },
            pem_first_of(data@) is None ==> r == Err::<Self, _>(X509CertificateError::PemDecode),
            (pem_first_of(data@) matches Some(b) && b.0 != spec_certificate_tag()) ==> r == Err::<
                Self,
                _,
            >(X509CertificateError::PemDecode),
    {
        match pem_parse_first(data) {
            Some((tag, contents)) => {
                if !bytes_eq(tag.as_slice(), certificate_tag().as_slice()) {
                    return Err(X509CertificateError::PemDecode);
                }
                Self::from_der(contents)
            },
            None => Err(X509CertificateError::PemDecode),
        }
    }

    /// Construct from every `CERTIFICATE`-tagged PEM block of the input.
    pub fn from_pem_multiple(data: &[u8]) -> (r: Result<Vec<Self>, X509CertificateError>)
        ensures
            r matches Ok(v) ==> {
                let m = matching_contents(pem_blocks_of(data@), seq![spec_certificate_tag()]);
                &&& v@.len() == m.len()
                &&& forall|i: int|
                    0 <= i < v@.len() ==> {
                        &&& (#[trigger] v@[i]).original_bytes() == m[i]
                        &&& v@[i].original_bytes() == enc_certificate(v@[i].parsed())
                        &&& wf_certificate(v@[i].parsed())
                    }
            },
    {
        let tag = certificate_tag();
        let mut tags: Vec<Vec<u8>> = Vec::new();
        tags.push(tag);
        proof {
            assert(tag_views(tags@) =~= seq![spec_certificate_tag()]);
        }
        Self::from_pem_multiple_tags(data, &tags)
    }

    /// Construct from every PEM block whose tag stands in `tags`.  On
    /// success the result holds, in document order, one captured
    /// certificate per matching block, keeping that block's contents as
    /// its original bytes.
    #[verifier::rlimit(100)]
    pub fn from_pem_multiple_tags(data: &[u8], tags: &Vec<Vec<u8>>) -> (r: Result<
        Vec<Self>,
        X509CertificateError,
    >)
        ensures
            r matches Ok(v) ==> {
                let m = matching_contents(pem_blocks_of(data@), tag_views(tags@));
                &&& v@.len() == m.len()
                &&& forall|i: int|
                    0 <= i < v@.len() ==> {
                        &&& (#[trigger] v@[i]).original_bytes() == m[i]
                        &&& v@[i].original_bytes() == enc_certificate(v@[i].parsed())
                        &&& wf_certificate(v@[i].parsed())
                    }
            },
    {
        let blocks = match pem_parse_blocks(data) {
            Some(b) => b,
            None => { return Err(X509CertificateError::PemDecode); },
        };
        let ghost full = pem_blocks_of(data@);
        let ghost tagv = tag_views(tags@);
        let mut out: Vec<Self> = Vec::new();
        let n = blocks.len();
        proof {
            assert(out@.map_values(|c: Self| c.original_bytes()) =~= matching_contents(
                full.subrange(0, 0),
                tagv,
            ));
        }
        for i in 0..n
            invariant
                n == blocks.len(),
                n == full.len(),
                full == pem_blocks_of(data@),
                tagv == tag_views(tags@),
                forall|k: int|
                    0 <= k < n ==> (#[trigger] blocks@[k]).0@ == full[k].0 && blocks@[k].1@
                        == full[k].1,
                out@.map_values(|c: Self| c.original_bytes()) == matching_contents(
                    full.subrange(0, i as int),
                    tagv,
                ),
                forall|k: int|
                    0 <= k < out@.len() ==> {
                        &&& (#[trigger] out@[k]).original_bytes() == enc_certificate(
                            out@[k].parsed(),
                        )
                        &&& wf_certificate(out@[k].parsed())
                    },
        {
            let (btag, contents) = &blocks[i];
            let matched = tag_matches(tags, btag.as_slice());
            proof {
                let pre = full.subrange(0, i + 1);
                assert(pre.drop_last() =~= full.subrange(0, i as int));
                assert(pre.last() == full[i as int]);
                assert(full[i as int].0 == btag@);
            }
            if matched {
                let contents_copy = copy_range(contents.as_slice(), 0, contents.len());
                proof {
                    assert(contents@.subrange(0, contents@.len() as int) =~= contents@);
                }
                match Self::from_der(contents_copy) {
                    Ok(c) => {
                        let ghost prev = out@;
                        out.push(c);
                        proof {
                            assert(out@.map_values(|x: Self| x.original_bytes()) =~= prev
                                .map_values(|x: Self| x.original_bytes()).push(
                                c.original_bytes(),
                            ));
                            assert(c.original_bytes() == full[i as int].1);
                        }
                    },
                    Err(e) => { return Err(e); },
                }
            }
        }
        proof {
            assert(full.subrange(0, n as int) =~= full);
        }
        Ok(out)
    }

    /// Capture a certificate together with bytes already known to be its
    /// exact DER encoding; the consistency that parsing establishes holds
    /// here by construction.
    pub(crate) fn from_encoding_of(inner: X509Certificate, data: Vec<u8>) -> (r: Self)
        requires
            data@ == enc_certificate(inner@),
        ensures
            r.original_bytes() == data@,
            r.parsed() == inner@,
    {
        CapturedX509Certificate { original: OriginalData::Der(data), inner }
    }

    /// Re-encode to DER and re-parse, fixing a fresh byte baseline for a
    /// programmatically built certificate.
    pub fn try_from(cert: &X509Certificate) -> (r: Result<Self, X509CertificateError>)
        ensures
            r matches Ok(c) ==> {
                &&& c.original_bytes() == enc_certificate(cert@)
                &&& c.original_bytes() == enc_certificate(c.parsed())
                &&& wf_certificate(c.parsed())
            },
    {
        let der = encode_certificate(&cert.0);
        Self::from_der(der)
    }

    /// The exact bytes supplied at construction, unmodified.
    pub fn constructed_data(&self) -> (r: &Vec<u8>)
        ensures
            r@ == self.original_bytes(),
    {
        match &self.original {
            OriginalData::Ber(d) => d,
            OriginalData::Der(d) => d,
        }
    }

    /// PEM-armor the original bytes (not a re-encoding).
    pub fn encode_pem(&self) -> (r: String)
        ensures
            r@ == pem_armor("CERTIFICATE"@, self.original_bytes()),
    {
        pem_encode_block("CERTIFICATE", self.constructed_data().as_slice())
    }

    /// The parsed certificate.
    pub fn certificate(&self) -> (r: &X509Certificate)
        ensures
            r@ == self.parsed(),
    {
        &self.inner
    }

    /// Verify that the raw public key `public_key_data` signed this
    /// certificate.  The outcome is a function of the captured original
    /// bytes and the key alone; in-memory state plays no part.
    pub fn verify_signed_by_public_key(&self, public_key_data: &[u8]) -> (r: Result<
        (),
        X509CertificateError,
    >)
        ensures
            r is Ok <==> cert_verify_ok(self.original_bytes(), public_key_data@),
            spec_signed_parts(self.original_bytes()) is None ==> r == Err::<
                (),
                _,
            >(X509CertificateError::CertificateSignatureVerificationFailed),
            (spec_signed_parts(self.original_bytes()) matches Some(parts) && spec_sig_alg_of_oid(
                parts.1,
            ) is None) ==> r == Err::<(), _>(X509CertificateError::UnknownSignatureAlgorithm),
            (spec_signed_parts(self.original_bytes()) matches Some(parts) && (spec_sig_alg_of_oid(
                parts.1,
            ) matches Some(a) && !sig_verifies(a.spec_id(), public_key_data@, parts.0, parts.2)))
                ==> r == Err::<(), _>(
                X509CertificateError::CertificateSignatureVerificationFailed,
            ),
    {
        let data = self.constructed_data();
        match extract_signed_parts(data.as_slice()) {
            Some((tbs, oid, sig)) => {
                match sig_alg_from_oid(oid.as_slice()) {
                    Some(alg) => {
                        if ring_verify(alg, public_key_data, tbs.as_slice(), sig.as_slice()) {
                            Ok(())
                        } else {
                            Err(X509CertificateError::CertificateSignatureVerificationFailed)
                        }
                    },
                    None => Err(X509CertificateError::UnknownSignatureAlgorithm),
                }
            },
            None => Err(X509CertificateError::CertificateSignatureVerificationFailed),
        }
    }

    /// Verify that `other` signed this certificate.  For a self-signed
    /// certificate, pass this certificate's own parsed value.
    pub fn verify_signed_by_certificate(&self, other: &X509Certificate) -> (r: Result<
        (),
        X509CertificateError,
    >)
        ensures
            r is Ok <==> cert_verify_ok(
                self.original_bytes(),
                other@.tbs_certificate.subject_public_key_info.subject_public_key,
            ),
            spec_signed_parts(self.original_bytes()) is None ==> r == Err::<
                (),
                _,
            >(X509CertificateError::CertificateSignatureVerificationFailed),
            (spec_signed_parts(self.original_bytes()) matches Some(parts) && spec_sig_alg_of_oid(
                parts.1,
            ) is None) ==> r == Err::<(), _>(X509CertificateError::UnknownSignatureAlgorithm),
            (spec_signed_parts(self.original_bytes()) matches Some(parts) && (spec_sig_alg_of_oid(
                parts.1,
            ) matches Some(a) && !sig_verifies(
                a.spec_id(),
                other@.tbs_certificate.subject_public_key_info.subject_public_key,
                parts.0,
                parts.2,
            ))) ==> r == Err::<(), _>(
                X509CertificateError::CertificateSignatureVerificationFailed,
            ),
    {
        let key = other.public_key_data();
        self.verify_signed_by_public_key(key.as_slice())
    }
}

// ---------------------------------------------------------------------------
// MutableX509Certificate
// ---------------------------------------------------------------------------

/// A mutable view over a captured certificate.  Edits touch only the parsed
/// tree; the captured original bytes stay frozen, and verification through
/// the captured value keeps going by them.
#[derive(Clone, Debug, PartialEq, Eq)]
pub struct MutableX509Certificate(CapturedX509Certificate);

impl MutableX509Certificate {
    pub closed spec fn original_bytes(self) -> Seq<u8> {
        self.0.original_bytes()
    }

    pub closed spec fn parsed(self) -> SpecCertificate {
        self.0.inner@
    }

    /// Wrap a captured certificate for mutation.
    pub fn from_captured(cert: CapturedX509Certificate) -> (r: Self)
        ensures
            r.original_bytes() == cert.original_bytes(),
            r.parsed() == cert.parsed(),
    {
        MutableX509Certificate(cert)
    }

    /// The current parsed certificate.
    pub fn certificate(&self) -> (r: &X509Certificate)
        ensures
            r@ == self.parsed(),
    {
        &self.0.inner
    }

    /// The underlying captured value; its original bytes are this view's.
    pub fn captured(&self) -> (r: &CapturedX509Certificate)
        ensures
            r.original_bytes() == self.original_bytes(),
            r.parsed() == self.parsed(),
    {
        &self.0
    }

    /// Replace the serial number in the parsed tree.  The captured original
    /// bytes do not change.
    pub fn set_serial_number(&mut self, serial: Vec<u8>)
        ensures
            final(self).original_bytes() == old(self).original_bytes(),
            final(self).parsed() == (SpecCertificate {
                tbs_certificate: SpecTbsCertificate {
                    serial_number: serial@,
                    ..old(self).parsed().tbs_certificate
                },
                ..old(self).parsed()
            }),
    {
        self.0.inner.0.tbs_certificate.serial_number = serial;
        proof {
            assert(self.0.inner@ =~= (SpecCertificate {
                tbs_certificate: SpecTbsCertificate {
                    serial_number: serial@,
                    ..old(self).parsed().tbs_certificate
                },
                ..old(self).parsed()
            }));
        }
    }

    /// Replace the subject name in the parsed tree.  The captured original
    /// bytes do not change.
    pub fn set_subject(&mut self, subject: Name)
        ensures
            final(self).original_bytes() == old(self).original_bytes(),
            final(self).parsed() == (SpecCertificate {
                tbs_certificate: SpecTbsCertificate {
                    subject: subject@,
                    ..old(self).parsed().tbs_certificate
                },
                ..old(self).parsed()
            }),
    {
        let ghost target = SpecCertificate {
            tbs_certificate: SpecTbsCertificate {
                subject: subject@,
                ..old(self).parsed().tbs_certificate
            },
            ..old(self).parsed()
        };
        self.0.inner.0.tbs_certificate.subject = subject;
        proof {
            assert(self.0.inner@ =~= target);
        }
    }

    /// Replace the version field in the parsed tree.  The captured original
    /// bytes do not change.
    pub fn set_version(&mut self, version: Option<u8>)
        ensures
            final(self).original_bytes() == old(self).original_bytes(),
            final(self).parsed() == (SpecCertificate {
                tbs_certificate: SpecTbsCertificate {
                    version,
                    ..old(self).parsed().tbs_certificate
                },
                ..old(self).parsed()
            }),
    {
        let ghost target = SpecCertificate {
            tbs_certificate: SpecTbsCertificate { version, ..old(self).parsed().tbs_certificate },
            ..old(self).parsed()
        };
        self.0.inner.0.tbs_certificate.version = version;
        proof {
            assert(self.0.inner@ =~= target);
        }
    }

    /// Replace the inner (to-be-signed) signature algorithm in the parsed
    /// tree.  The captured original bytes do not change.
    pub fn set_tbs_signature_algorithm(&mut self, alg: AlgorithmIdentifier)
        ensures
            final(self).original_bytes() == old(self).original_bytes(),
            final(self).parsed() == (SpecCertificate {
                tbs_certificate: SpecTbsCertificate {
                    signature: alg@,
                    ..old(self).parsed().tbs_certificate
                },
                ..old(self).parsed()
            }),
    {
        let ghost target = SpecCertificate {
            tbs_certificate: SpecTbsCertificate {
                signature: alg@,
                ..old(self).parsed().tbs_certificate
            },
            ..old(self).parsed()
        };
        self.0.inner.0.tbs_certificate.signature = alg;
        proof {
            assert(self.0.inner@ =~= target);
        }
    }

    /// Replace the issuer name in the parsed tree.  The captured original
    /// bytes do not change.
    pub fn set_issuer(&mut self, issuer: Name)
        ensures
            final(self).original_bytes() == old(self).original_bytes(),
            final(self).parsed() == (SpecCertificate {
                tbs_certificate: SpecTbsCertificate {
                    issuer: issuer@,
                    ..old(self).parsed().tbs_certificate
                },
                ..old(self).parsed()
            }),
    {
        let ghost target = SpecCertificate {
            tbs_certificate: SpecTbsCertificate {
                issuer: issuer@,
                ..old(self).parsed().tbs_certificate
            },
            ..old(self).parsed()
        };
        self.0.inner.0.tbs_certificate.issuer = issuer;
        proof {
            assert(self.0.inner@ =~= target);
        }
    }

    /// Replace the validity window in the parsed tree.  The captured
    /// original bytes do not change.
    pub fn set_validity(&mut self, validity: Validity)
        ensures
            final(self).original_bytes() == old(self).original_bytes(),
            final(self).parsed() == (SpecCertificate {
                tbs_certificate: SpecTbsCertificate {
                    validity: validity@,
                    ..old(self).parsed().tbs_certificate
                },
                ..old(self).parsed()
            }),
    {
        let ghost target = SpecCertificate {
            tbs_certificate: SpecTbsCertificate {
                validity: validity@,
                ..old(self).parsed().tbs_certificate
            },
            ..old(self).parsed()
        };
        self.0.inner.0.tbs_certificate.validity = validity;
        proof {
            assert(self.0.inner@ =~= target);
        }
    }

    /// Replace the subject public key info in the parsed tree.  The
    /// captured original bytes do not change.
    pub fn set_subject_public_key_info(&mut self, spki: SubjectPublicKeyInfo)
        ensures
            final(self).original_bytes() == old(self).original_bytes(),
            final(self).parsed() == (SpecCertificate {
                tbs_certificate: SpecTbsCertificate {
                    subject_public_key_info: spki@,
                    ..old(self).parsed().tbs_certificate
                },
                ..old(self).parsed()
            }),
    {
        let ghost target = SpecCertificate {
            tbs_certificate: SpecTbsCertificate {
                subject_public_key_info: spki@,
                ..old(self).parsed().tbs_certificate
            },
            ..old(self).parsed()
        };
        self.0.inner.0.tbs_certificate.subject_public_key_info = spki;
        proof {
            assert(self.0.inner@ =~= target);
        }
    }

    /// Replace the issuer unique id in the parsed tree.  The captured
    /// original bytes do not change.
    pub fn set_issuer_unique_id(&mut self, uid: Option<Vec<u8>>)
        ensures
            final(self).original_bytes() == old(self).original_bytes(),
            final(self).parsed() == (SpecCertificate {
                tbs_certificate: SpecTbsCertificate {
                    issuer_unique_id: match uid {
                        Some(b) => Some(b@),
                        None => None,
                    },
                    ..old(self).parsed().tbs_certificate
                },
                ..old(self).parsed()
            }),
    {
        let ghost target = SpecCertificate {
            tbs_certificate: SpecTbsCertificate {
                issuer_unique_id: if uid is Some {
                    Some(uid->Some_0@)
                } else {
                    None
                },
                ..old(self).parsed().tbs_certificate
            },
            ..old(self).parsed()
        };
        self.0.inner.0.tbs_certificate.issuer_unique_id = uid;
        proof {
            assert(self.0.inner@ =~= target);
        }
    }

    /// Replace the subject unique id in the parsed tree.  The captured
    /// original bytes do not change.
    pub fn set_subject_unique_id(&mut self, uid: Option<Vec<u8>>)
        ensures
            final(self).original_bytes() == old(self).original_bytes(),
            final(self).parsed() == (SpecCertificate {
                tbs_certificate: SpecTbsCertificate {
                    subject_unique_id: match uid {
                        Some(b) => Some(b@),
                        None => None,
                    },
                    ..old(self).parsed().tbs_certificate
                },
                ..old(self).parsed()
            }),
    {
        let ghost target = SpecCertificate {
            tbs_certificate: SpecTbsCertificate {
                subject_unique_id: if uid is Some {
                    Some(uid->Some_0@)
                } else {
                    None
                },
                ..old(self).parsed().tbs_certificate
            },
            ..old(self).parsed()
        };
        self.0.inner.0.tbs_certificate.subject_unique_id = uid;
        proof {
            assert(self.0.inner@ =~= target);
        }
    }

    /// Replace the extension list in the parsed tree.  The captured
    /// original bytes do not change.
    pub fn set_extensions(&mut self, extensions: Option<Vec<Extension>>)
        ensures
            final(self).original_bytes() == old(self).original_bytes(),
            final(self).parsed() == (SpecCertificate {
                tbs_certificate: SpecTbsCertificate {
                    extensions: match extensions {
                        Some(es) => Some(es@.map_values(|e: Extension| e@)),
                        None => None,
                    },
                    ..old(self).parsed().tbs_certificate
                },
                ..old(self).parsed()
            }),
    {
        let ghost target = SpecCertificate {
            tbs_certificate: SpecTbsCertificate {
                extensions: if extensions is Some {
                    Some(extensions->Some_0@.map_values(|e: Extension| e@))
                } else {
                    None
                },
                ..old(self).parsed().tbs_certificate
            },
            ..old(self).parsed()
        };
        self.0.inner.0.tbs_certificate.extensions = extensions;
        proof {
            assert(self.0.inner@ =~= target);
        }
    }

    /// Replace the outer signature algorithm in the parsed tree.  The
    /// captured original bytes do not change.
    pub fn set_signature_algorithm(&mut self, alg: AlgorithmIdentifier)
        ensures
            final(self).original_bytes() == old(self).original_bytes(),
            final(self).parsed() == (SpecCertificate {
                signature_algorithm: alg@,
                ..old(self).parsed()
            }),
    {
        let ghost target = SpecCertificate { signature_algorithm: alg@, ..old(self).parsed() };
        self.0.inner.0.signature_algorithm = alg;
        proof {
            assert(self.0.inner@ =~= target);
        }
    }

    /// Replace the signature bits in the parsed tree.  The captured
    /// original bytes do not change.
    pub fn set_signature(&mut self, signature: Vec<u8>)
        ensures
            final(self).original_bytes() == old(self).original_bytes(),
            final(self).parsed() == (SpecCertificate {
                signature: signature@,
                ..old(self).parsed()
            }),
    {
        let ghost target = SpecCertificate { signature: signature@, ..old(self).parsed() };
        self.0.inner.0.signature = signature;
        proof {
            assert(self.0.inner@ =~= target);
        }
    }
}

/// Mutation isolation: what verification computes is a function of the
/// captured original bytes and the key alone, so two values with the same
/// original bytes verify alike, whatever their parsed trees hold.
pub proof fn lemma_verification_uses_original_only(
    a: CapturedX509Certificate,
    b: CapturedX509Certificate,
    key: Seq<u8>,
)
    requires
        a.original_bytes() == b.original_bytes(),
    ensures
        cert_verify_ok(a.original_bytes(), key) == cert_verify_ok(b.original_bytes(), key),
{
}

} // verus!

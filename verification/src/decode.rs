//! Strict DER parsing of the certificate model.
//!
//! Every parser is sound: when it accepts, the consumed bytes are exactly
//! the `enc_*` encoding of the returned value, and the value is well formed.

use vstd::prelude::*;

use crate::der::{lemma_read_tlv_sound, read_tlv, spec_tlv};
use crate::encode::copy_range;
use crate::model::{
    AlgorithmIdentifier, Asn1Time, AttributeTypeAndValue, Certificate, Extension, Name, Rdn,
    SubjectPublicKeyInfo, TbsCertificate, Validity, enc_alg, enc_atv, enc_atv_list,
    enc_certificate, enc_ext, enc_ext_list, enc_extensions, enc_name, enc_oid, enc_rdn,
    enc_rdn_list, enc_spki, enc_tbs, enc_tbs_body, enc_time, enc_time_body, enc_uid, enc_validity,
    enc_version, two_digits, wf_alg, wf_atv, wf_certificate, wf_ext, wf_name, wf_rdn, wf_serial,
    wf_spki, wf_tbs, wf_time, wf_validity,
};

verus! {

/// Read one element at `pos` whose tag must be `tag` and which must lie
/// within `end`.  On success the returned bounds decompose the bytes as
/// one `spec_tlv`.
fn dec_expect_tlv(data: &[u8], pos: usize, end: usize, tag: u8) -> (r: Option<(usize, usize)>)
    requires
        pos <= end <= data@.len(),
    ensures
        r matches Some((cs, ce)) ==> {
            &&& pos + 2 <= cs <= ce <= end
            &&& data@.subrange(pos as int, ce as int) == spec_tlv(
                tag,
                data@.subrange(cs as int, ce as int),
            )
        },
{
    match read_tlv(data, pos) {
        Some((t, cs, ce)) => {
            if t == tag && ce <= end {
                proof {
                    lemma_read_tlv_sound(data@, pos as int);
                }
                Some((cs, ce))
            } else {
                None
            }
        },
        None => None,
    }
}

/// Splitting a subrange of `s` at an interior point.
proof fn lemma_split(s: Seq<u8>, a: int, b: int, c: int)
    requires
        0 <= a <= b <= c <= s.len(),
    ensures
        s.subrange(a, c) == s.subrange(a, b) + s.subrange(b, c),
{
    assert(s.subrange(a, c) =~= s.subrange(a, b) + s.subrange(b, c));
}

pub fn dec_oid(data: &[u8], pos: usize, end: usize) -> (r: Option<(Vec<u8>, usize)>)
    requires
        pos <= end <= data@.len(),
    ensures
        r matches Some((v, np)) ==> {
            &&& pos < np <= end
            &&& data@.subrange(pos as int, np as int) == enc_oid(v@)
            &&& v@.len() >= 1
        },
{
    match dec_expect_tlv(data, pos, end, 0x06) {
        Some((cs, ce)) => {
            if ce == cs {
                return None;
            }
            let v = copy_range(data, cs, ce);
            Some((v, ce))
        },
        None => None,
    }
}

pub fn dec_alg(data: &[u8], pos: usize, end: usize) -> (r: Option<(AlgorithmIdentifier, usize)>)
    requires
        pos <= end <= data@.len(),
    ensures
        r matches Some((a, np)) ==> {
            &&& pos < np <= end
            &&& data@.subrange(pos as int, np as int) == enc_alg(a@)
            &&& wf_alg(a@)
        },
{
    let (cs, ce) = match dec_expect_tlv(data, pos, end, 0x30) {
        Some(x) => x,
        None => { return None; },
    };
    let (oid, p2) = match dec_oid(data, cs, ce) {
        Some(x) => x,
        None => { return None; },
    };
    let params = if p2 == ce {
        None
    } else {
        Some(copy_range(data, p2, ce))
    };
    let a = AlgorithmIdentifier { oid, params };
    proof {
        lemma_split(data@, cs as int, p2 as int, ce as int);
        assert(data@.subrange(cs as int, ce as int) =~= enc_oid(a.oid@) + match a@.params {
            Some(p) => p,
            None => Seq::<u8>::empty(),
        });
    }
    Some((a, ce))
}

pub fn dec_atv(data: &[u8], pos: usize, end: usize) -> (r: Option<
    (AttributeTypeAndValue, usize),
>)
    requires
        pos <= end <= data@.len(),
    ensures
        r matches Some((a, np)) ==> {
            &&& pos < np <= end
            &&& data@.subrange(pos as int, np as int) == enc_atv(a@)
            &&& wf_atv(a@)
        },
{
    let (cs, ce) = match dec_expect_tlv(data, pos, end, 0x30) {
        Some(x) => x,
        None => { return None; },
    };
    let (oid, p2) = match dec_oid(data, cs, ce) {
        Some(x) => x,
        None => { return None; },
    };
    let (vt, vcs, vce) = match read_tlv(data, p2) {
        Some(x) => x,
        None => { return None; },
    };
    if !(vt == 0x0c || vt == 0x13 || vt == 0x16) {
        return None;
    }
    if vce != ce {
        return None;
    }
    proof {
        lemma_read_tlv_sound(data@, p2 as int);
    }
    let value = copy_range(data, vcs, vce);
    let a = AttributeTypeAndValue { oid, value_tag: vt, value };
    proof {
        lemma_split(data@, cs as int, p2 as int, ce as int);
        assert(data@.subrange(cs as int, ce as int) =~= enc_oid(a.oid@) + spec_tlv(vt, a.value@));
    }
    Some((a, ce))
}

pub fn dec_rdn(data: &[u8], pos: usize, end: usize) -> (r: Option<(Rdn, usize)>)
    requires
        pos <= end <= data@.len(),
    ensures
        r matches Some((x, np)) ==> {
            &&& pos < np <= end
            &&& data@.subrange(pos as int, np as int) == enc_rdn(x@)
            &&& wf_rdn(x@)
        },
{
    let (cs, ce) = match dec_expect_tlv(data, pos, end, 0x31) {
        Some(x) => x,
        None => { return None; },
    };
    let mut atvs: Vec<AttributeTypeAndValue> = Vec::new();
    let mut p = cs;
    while p < ce
        invariant
            cs <= p <= ce <= data@.len(),
            data@.subrange(cs as int, p as int) == enc_atv_list(
                atvs@.map_values(|a: AttributeTypeAndValue| a@),
            ),
            forall|i: int| 0 <= i < atvs@.len() ==> wf_atv(#[trigger] atvs@[i]@),
        decreases ce - p,
    {
        let (a, np) = match dec_atv(data, p, ce) {
            Some(x) => x,
            None => { return None; },
        };
        proof {
            let ghost old_list = atvs@.map_values(|a: AttributeTypeAndValue| a@);
            lemma_split(data@, cs as int, p as int, np as int);
            crate::model::lemma_atv_list_push(old_list, a@);
            assert(atvs@.push(a).map_values(|x: AttributeTypeAndValue| x@) =~= old_list.push(a@));
        }
        atvs.push(a);
        p = np;
    }
    let x = Rdn { atvs };
    Some((x, ce))
}

pub fn dec_name(data: &[u8], pos: usize, end: usize) -> (r: Option<(Name, usize)>)
    requires
        pos <= end <= data@.len(),
    ensures
        r matches Some((x, np)) ==> {
            &&& pos < np <= end
            &&& data@.subrange(pos as int, np as int) == enc_name(x@)
            &&& wf_name(x@)
        },
{
    let (cs, ce) = match dec_expect_tlv(data, pos, end, 0x30) {
        Some(x) => x,
        None => { return None; },
    };
    let mut rdns: Vec<Rdn> = Vec::new();
    let mut p = cs;
    while p < ce
        invariant
            cs <= p <= ce <= data@.len(),
            data@.subrange(cs as int, p as int) == enc_rdn_list(rdns@.map_values(|r: Rdn| r@)),
            forall|i: int| 0 <= i < rdns@.len() ==> wf_rdn(#[trigger] rdns@[i]@),
        decreases ce - p,
    {
        let (x, np) = match dec_rdn(data, p, ce) {
            Some(x) => x,
            None => { return None; },
        };
        proof {
            let ghost old_list = rdns@.map_values(|r: Rdn| r@);
            lemma_split(data@, cs as int, p as int, np as int);
            crate::model::lemma_rdn_list_push(old_list, x@);
            assert(rdns@.push(x).map_values(|r: Rdn| r@) =~= old_list.push(x@));
        }
        rdns.push(x);
        p = np;
    }
    let x = Name { rdns };
    Some((x, ce))
}

/// Two ASCII digits at `pos`, as a value below 100.
fn dec_two_digits(data: &[u8], pos: usize) -> (r: Option<u8>)
    requires
        pos + 2 <= data@.len(),
    ensures
        r matches Some(v) ==> {
            &&& v < 100
            &&& data@.subrange(pos as int, pos + 2) == two_digits(v as nat)
        },
{
    let b0 = data[pos];
    let b1 = data[pos + 1];
    if b0 < 0x30 || b0 > 0x39 || b1 < 0x30 || b1 > 0x39 {
        return None;
    }
    let v = (b0 - 0x30) * 10 + (b1 - 0x30);
    proof {
        let a = b0 as int - 0x30;
        let b = b1 as int - 0x30;
        assert((a * 10 + b) / 10 == a && (a * 10 + b) % 10 == b) by (nonlinear_arith)
            requires
                0 <= a < 10,
                0 <= b < 10,
        ;
        assert(v as int == a * 10 + b);
        assert(data@.subrange(pos as int, pos + 2) =~= two_digits(v as nat));
    }
    Some(v)
}

#[verifier::rlimit(100)]
pub fn dec_time(data: &[u8], pos: usize, end: usize) -> (r: Option<(Asn1Time, usize)>)
    requires
        pos <= end <= data@.len(),
    ensures
        r matches Some((t, np)) ==> {
            &&& pos < np <= end
            &&& data@.subrange(pos as int, np as int) == enc_time(t@)
            &&& wf_time(t@)
        },
{
    let (tag, cs, ce) = match read_tlv(data, pos) {
        Some(x) => x,
        None => { return None; },
    };
    if !(tag == 0x17 || tag == 0x18) {
        return None;
    }
    if ce > end {
        return None;
    }
    proof {
        lemma_read_tlv_sound(data@, pos as int);
    }
    let utc = tag == 0x17;
    let expected: usize = if utc { 13 } else { 15 };
    if ce - cs != expected {
        return None;
    }
    let mut p = cs;
    let year: u16;
    if utc {
        let yy = match dec_two_digits(data, p) {
            Some(v) => v,
            None => { return None; },
        };
        year = if yy >= 50 {
            1900 + yy as u16
        } else {
            2000 + yy as u16
        };
        p = p + 2;
    } else {
        let y1 = match dec_two_digits(data, p) {
            Some(v) => v,
            None => { return None; },
        };
        let y2 = match dec_two_digits(data, p + 2) {
            Some(v) => v,
            None => { return None; },
        };
        year = y1 as u16 * 100 + y2 as u16;
        proof {
            assert(year / 100 == y1 && year % 100 == y2) by (nonlinear_arith)
                requires
                    year == y1 as u16 * 100 + y2,
                    y1 < 100,
                    y2 < 100,
            ;
        }
        p = p + 4;
    }
    let month = match dec_two_digits(data, p) {
        Some(v) => v,
        None => { return None; },
    };
    let day = match dec_two_digits(data, p + 2) {
        Some(v) => v,
        None => { return None; },
    };
    let hour = match dec_two_digits(data, p + 4) {
        Some(v) => v,
        None => { return None; },
    };
    let minute = match dec_two_digits(data, p + 6) {
        Some(v) => v,
        None => { return None; },
    };
    let second = match dec_two_digits(data, p + 8) {
        Some(v) => v,
        None => { return None; },
    };
    if data[p + 10] != 0x5a {
        return None;
    }
    if month < 1 || month > 12 || day < 1 || day > 31 || hour > 23 || minute > 59 || second > 59 {
        return None;
    }
    let t = Asn1Time { utc, year, month, day, hour, minute, second };
    proof {
        let body = data@.subrange(cs as int, ce as int);
        if utc {
            assert(t@.year % 100 == data@[cs as int] - 0x30 ==> true);
            assert(body =~= data@.subrange(cs as int, cs + 2) + data@.subrange(cs + 2, cs + 4)
                + data@.subrange(cs + 4, cs + 6) + data@.subrange(cs + 6, cs + 8) + data@.subrange(
                cs + 8,
                cs + 10,
            ) + data@.subrange(cs + 10, cs + 12) + seq![0x5au8]);
        } else {
            assert(body =~= data@.subrange(cs as int, cs + 2) + data@.subrange(cs + 2, cs + 4)
                + data@.subrange(cs + 4, cs + 6) + data@.subrange(cs + 6, cs + 8) + data@.subrange(
                cs + 8,
                cs + 10,
            ) + data@.subrange(cs + 10, cs + 12) + data@.subrange(cs + 12, cs + 14) + seq![0x5au8]);
        }
        assert(body =~= enc_time_body(t@));
        assert(data@.subrange(pos as int, ce as int) == enc_time(t@));
    }
    Some((t, ce))
}

pub fn dec_validity(data: &[u8], pos: usize, end: usize) -> (r: Option<(Validity, usize)>)
    requires
        pos <= end <= data@.len(),
    ensures
        r matches Some((v, np)) ==> {
            &&& pos < np <= end
            &&& data@.subrange(pos as int, np as int) == enc_validity(v@)
            &&& wf_validity(v@)
        },
{
    let (cs, ce) = match dec_expect_tlv(data, pos, end, 0x30) {
        Some(x) => x,
        None => { return None; },
    };
    let (nb, p2) = match dec_time(data, cs, ce) {
        Some(x) => x,
        None => { return None; },
    };
    let (na, p3) = match dec_time(data, p2, ce) {
        Some(x) => x,
        None => { return None; },
    };
    if p3 != ce {
        return None;
    }
    let v = Validity { not_before: nb, not_after: na };
    proof {
        lemma_split(data@, cs as int, p2 as int, ce as int);
        assert(data@.subrange(cs as int, ce as int) =~= enc_time(v@.not_before) + enc_time(
            v@.not_after,
        ));
    }
    Some((v, ce))
}

/// A BIT STRING with no unused bits: the bounds of its bit bytes.
fn dec_bit_string(data: &[u8], pos: usize, end: usize, tag: u8) -> (r: Option<(Vec<u8>, usize)>)
    requires
        pos <= end <= data@.len(),
    ensures
        r matches Some((v, np)) ==> {
            &&& pos < np <= end
            &&& data@.subrange(pos as int, np as int) == spec_tlv(tag, seq![0u8] + v@)
        },
{
    let (cs, ce) = match dec_expect_tlv(data, pos, end, tag) {
        Some(x) => x,
        None => { return None; },
    };
    if ce == cs {
        return None;
    }
    if data[cs] != 0 {
        return None;
    }
    let v = copy_range(data, cs + 1, ce);
    proof {
        assert(data@.subrange(cs as int, ce as int) =~= seq![0u8] + v@);
    }
    Some((v, ce))
}

pub fn dec_spki(data: &[u8], pos: usize, end: usize) -> (r: Option<(SubjectPublicKeyInfo, usize)>)
    requires
        pos <= end <= data@.len(),
    ensures
        r matches Some((s, np)) ==> {
            &&& pos < np <= end
            &&& data@.subrange(pos as int, np as int) == enc_spki(s@)
            &&& wf_spki(s@)
        },
{
    let (cs, ce) = match dec_expect_tlv(data, pos, end, 0x30) {
        Some(x) => x,
        None => { return None; },
    };
    let (alg, p2) = match dec_alg(data, cs, ce) {
        Some(x) => x,
        None => { return None; },
    };
    let (key, p3) = match dec_bit_string(data, p2, ce, 0x03) {
        Some(x) => x,
        None => { return None; },
    };
    if p3 != ce {
        return None;
    }
    let s = SubjectPublicKeyInfo { algorithm: alg, subject_public_key: key };
    proof {
        lemma_split(data@, cs as int, p2 as int, ce as int);
        assert(data@.subrange(cs as int, ce as int) =~= enc_alg(s@.algorithm) + spec_tlv(
            0x03,
            seq![0u8] + s@.subject_public_key,
        ));
    }
    Some((s, ce))
}

pub fn dec_ext(data: &[u8], pos: usize, end: usize) -> (r: Option<(Extension, usize)>)
    requires
        pos <= end <= data@.len(),
    ensures
        r matches Some((e, np)) ==> {
            &&& pos < np <= end
            &&& data@.subrange(pos as int, np as int) == enc_ext(e@)
            &&& wf_ext(e@)
        },
{
    let (cs, ce) = match dec_expect_tlv(data, pos, end, 0x30) {
        Some(x) => x,
        None => { return None; },
    };
    let (oid, p2) = match dec_oid(data, cs, ce) {
        Some(x) => x,
        None => { return None; },
    };
    let mut p = p2;
    let critical: Option<bool>;
    if p < ce && data[p] == 0x01 {
        let (bcs, bce) = match dec_expect_tlv(data, p, ce, 0x01) {
            Some(x) => x,
            None => { return None; },
        };
        if bce - bcs != 1 {
            return None;
        }
        let b = data[bcs];
        if b == 0xff {
            critical = Some(true);
        } else if b == 0x00 {
            critical = Some(false);
        } else {
            return None;
        }
        proof {
            assert(data@.subrange(bcs as int, bce as int) =~= seq![b]);
        }
        p = bce;
    } else {
        critical = None;
    }
    let (vcs, vce) = match dec_expect_tlv(data, p, ce, 0x04) {
        Some(x) => x,
        None => { return None; },
    };
    if vce != ce {
        return None;
    }
    let value = copy_range(data, vcs, vce);
    let e = Extension { oid, critical, value };
    proof {
        lemma_split(data@, cs as int, p2 as int, p as int);
        lemma_split(data@, cs as int, p as int, ce as int);
        assert(data@.subrange(cs as int, ce as int) =~= enc_oid(e.oid@) + (match e@.critical {
            Some(b) => spec_tlv(0x01, seq![if b { 0xffu8 } else { 0x00u8 }]),
            None => Seq::<u8>::empty(),
        }) + spec_tlv(0x04, e.value@));
    }
    Some((e, ce))
}

pub fn dec_extensions(data: &[u8], pos: usize, end: usize) -> (r: Option<(Vec<Extension>, usize)>)
    requires
        pos <= end <= data@.len(),
    ensures
        r matches Some((es, np)) ==> {
            &&& pos < np <= end
            &&& data@.subrange(pos as int, np as int) == enc_extensions(
                es@.map_values(|e: Extension| e@),
            )
            &&& es@.len() >= 1
            &&& forall|i: int| 0 <= i < es@.len() ==> wf_ext(#[trigger] es@[i]@)
        },
{
    let (acs, ace) = match dec_expect_tlv(data, pos, end, 0xa3) {
        Some(x) => x,
        None => { return None; },
    };
    let (cs, ce) = match dec_expect_tlv(data, acs, ace, 0x30) {
        Some(x) => x,
        None => { return None; },
    };
    if ce != ace {
        return None;
    }
    let mut es: Vec<Extension> = Vec::new();
    let mut p = cs;
    while p < ce
        invariant
            cs <= p <= ce <= data@.len(),
            data@.subrange(cs as int, p as int) == enc_ext_list(es@.map_values(|e: Extension| e@)),
            forall|i: int| 0 <= i < es@.len() ==> wf_ext(#[trigger] es@[i]@),
        decreases ce - p,
    {
        let (e, np) = match dec_ext(data, p, ce) {
            Some(x) => x,
            None => { return None; },
        };
        proof {
            let ghost old_list = es@.map_values(|x: Extension| x@);
            lemma_split(data@, cs as int, p as int, np as int);
            crate::model::lemma_ext_list_push(old_list, e@);
            assert(es@.push(e).map_values(|x: Extension| x@) =~= old_list.push(e@));
        }
        es.push(e);
        p = np;
    }
    if es.len() == 0 {
        return None;
    }
    proof {
        assert(data@.subrange(acs as int, ace as int) =~= spec_tlv(
            0x30,
            enc_ext_list(es@.map_values(|e: Extension| e@)),
        ));
    }
    Some((es, ace))
}

/// The optional `[0] EXPLICIT INTEGER` version field at `pos`, if present.
fn dec_version(data: &[u8], pos: usize, end: usize) -> (r: Option<(Option<u8>, usize)>)
    requires
        pos <= end <= data@.len(),
    ensures
        r matches Some((v, np)) ==> {
            &&& pos <= np <= end
            &&& data@.subrange(pos as int, np as int) == enc_version(v)
            &&& match v {
                Some(x) => x <= 2,
                None => true,
            }
        },
{
    if pos < end && data[pos] == 0xa0 {
        let (vcs, vce) = match dec_expect_tlv(data, pos, end, 0xa0) {
            Some(x) => x,
            None => { return None; },
        };
        let (ics, ice) = match dec_expect_tlv(data, vcs, vce, 0x02) {
            Some(x) => x,
            None => { return None; },
        };
        if ice != vce || ice - ics != 1 {
            return None;
        }
        let v = data[ics];
        if v > 2 {
            return None;
        }
        proof {
            assert(data@.subrange(ics as int, ice as int) =~= seq![v]);
            assert(data@.subrange(pos as int, vce as int) == enc_version(Some(v)));
        }
        Some((Some(v), vce))
    } else {
        proof {
            assert(data@.subrange(pos as int, pos as int) =~= enc_version(None::<u8>));
        }
        Some((None, pos))
    }
}

/// A serial number: a nonempty, minimally encoded INTEGER.
fn dec_serial(data: &[u8], pos: usize, end: usize) -> (r: Option<(Vec<u8>, usize)>)
    requires
        pos <= end <= data@.len(),
    ensures
        r matches Some((v, np)) ==> {
            &&& pos < np <= end
            &&& data@.subrange(pos as int, np as int) == spec_tlv(0x02, v@)
            &&& wf_serial(v@)
        },
{
    let (scs, sce) = match dec_expect_tlv(data, pos, end, 0x02) {
        Some(x) => x,
        None => { return None; },
    };
    if sce == scs {
        return None;
    }
    if sce - scs >= 2 {
        let b0 = data[scs];
        let b1 = data[scs + 1];
        if (b0 == 0 && b1 < 0x80) || (b0 == 0xff && b1 >= 0x80) {
            return None;
        }
    }
    let v = copy_range(data, scs, sce);
    Some((v, sce))
}

#[verifier::rlimit(100)]
pub fn dec_tbs(data: &[u8], pos: usize, end: usize) -> (r: Option<(TbsCertificate, usize)>)
    requires
        pos <= end <= data@.len(),
    ensures
        r matches Some((t, np)) ==> {
            &&& pos < np <= end
            &&& data@.subrange(pos as int, np as int) == enc_tbs(t@)
            &&& wf_tbs(t@)
        },
{
    let (cs, ce) = match dec_expect_tlv(data, pos, end, 0x30) {
        Some(x) => x,
        None => { return None; },
    };
    let (version, pv) = match dec_version(data, cs, ce) {
        Some(x) => x,
        None => { return None; },
    };
    let mut p = pv;
    let p_ver = p;
    let (serial_number, ps) = match dec_serial(data, p, ce) {
        Some(x) => x,
        None => { return None; },
    };
    p = ps;
    let p_serial = p;
    // signature algorithm
    let (signature, p2) = match dec_alg(data, p, ce) {
        Some(x) => x,
        None => { return None; },
    };
    p = p2;
    let p_alg = p;
    let (issuer, p3) = match dec_name(data, p, ce) {
        Some(x) => x,
        None => { return None; },
    };
    p = p3;
    let p_issuer = p;
    let (validity, p4) = match dec_validity(data, p, ce) {
        Some(x) => x,
        None => { return None; },
    };
    p = p4;
    let p_val = p;
    let (subject, p5) = match dec_name(data, p, ce) {
        Some(x) => x,
        None => { return None; },
    };
    p = p5;
    let p_subj = p;
    let (subject_public_key_info, p6) = match dec_spki(data, p, ce) {
        Some(x) => x,
        None => { return None; },
    };
    p = p6;
    let p_spki = p;
    // optional unique ids
    let issuer_unique_id: Option<Vec<u8>>;
    if p < ce && data[p] == 0x81 {
        let (u, np) = match dec_bit_string(data, p, ce, 0x81) {
            Some(x) => x,
            None => { return None; },
        };
        issuer_unique_id = Some(u);
        p = np;
    } else {
        issuer_unique_id = None;
    }
    let p_iuid = p;
    let subject_unique_id: Option<Vec<u8>>;
    if p < ce && data[p] == 0x82 {
        let (u, np) = match dec_bit_string(data, p, ce, 0x82) {
            Some(x) => x,
            None => { return None; },
        };
        subject_unique_id = Some(u);
        p = np;
    } else {
        subject_unique_id = None;
    }
    let p_suid = p;
    // optional extensions, tagged [3]
    let extensions: Option<Vec<Extension>>;
    if p < ce && data[p] == 0xa3 {
        let (es, np) = match dec_extensions(data, p, ce) {
            Some(x) => x,
            None => { return None; },
        };
        extensions = Some(es);
        p = np;
    } else {
        extensions = None;
    }
    if p != ce {
        return None;
    }
    let t = TbsCertificate {
        version,
        serial_number,
        signature,
        issuer,
        validity,
        subject,
        subject_public_key_info,
        issuer_unique_id,
        subject_unique_id,
        extensions,
    };
    proof {
        let d = data@;
        let e1 = enc_version(t@.version);
        let e2 = spec_tlv(0x02, t@.serial_number);
        let e3 = enc_alg(t@.signature);
        let e4 = enc_name(t@.issuer);
        let e5 = enc_validity(t@.validity);
        let e6 = enc_name(t@.subject);
        let e7 = enc_spki(t@.subject_public_key_info);
        let e8 = enc_uid(0x81, t@.issuer_unique_id);
        let e9 = enc_uid(0x82, t@.subject_unique_id);
        let e10 = match t@.extensions {
            Some(es) => enc_extensions(es),
            None => Seq::<u8>::empty(),
        };
        assert(d.subrange(cs as int, p_ver as int) == e1);
        assert(d.subrange(p_ver as int, p_serial as int) == e2);
        assert(d.subrange(p_serial as int, p_alg as int) == e3);
        assert(d.subrange(p_alg as int, p_issuer as int) == e4);
        assert(d.subrange(p_issuer as int, p_val as int) == e5);
        assert(d.subrange(p_val as int, p_subj as int) == e6);
        assert(d.subrange(p_subj as int, p_spki as int) == e7);
        assert(d.subrange(p_spki as int, p_iuid as int) == e8);
        assert(d.subrange(p_iuid as int, p_suid as int) == e9);
        assert(d.subrange(p_suid as int, ce as int) == e10);
        let s2 = e1 + e2;
        let s3 = s2 + e3;
        let s4 = s3 + e4;
        let s5 = s4 + e5;
        let s6 = s5 + e6;
        let s7 = s6 + e7;
        let s8 = s7 + e8;
        let s9 = s8 + e9;
        let s10 = s9 + e10;
        lemma_split(d, cs as int, p_ver as int, p_serial as int);
        assert(d.subrange(cs as int, p_serial as int) == s2);
        lemma_split(d, cs as int, p_serial as int, p_alg as int);
        assert(d.subrange(cs as int, p_alg as int) == s3);
        lemma_split(d, cs as int, p_alg as int, p_issuer as int);
        assert(d.subrange(cs as int, p_issuer as int) == s4);
        lemma_split(d, cs as int, p_issuer as int, p_val as int);
        assert(d.subrange(cs as int, p_val as int) == s5);
        lemma_split(d, cs as int, p_val as int, p_subj as int);
        assert(d.subrange(cs as int, p_subj as int) == s6);
        lemma_split(d, cs as int, p_subj as int, p_spki as int);
        assert(d.subrange(cs as int, p_spki as int) == s7);
        lemma_split(d, cs as int, p_spki as int, p_iuid as int);
        assert(d.subrange(cs as int, p_iuid as int) == s8);
        lemma_split(d, cs as int, p_iuid as int, p_suid as int);
        assert(d.subrange(cs as int, p_suid as int) == s9);
        lemma_split(d, cs as int, p_suid as int, ce as int);
        assert(d.subrange(cs as int, ce as int) == s10);
        assert(enc_tbs_body(t@) == s10);
    }
    Some((t, ce))
}

/// Strict decoding of one DER certificate occupying the whole input.
#[verifier::rlimit(60)]
pub fn dec_certificate(data: &[u8]) -> (r: Option<Certificate>)
    ensures
        r matches Some(c) ==> {
            &&& data@ == enc_certificate(c@)
            &&& wf_certificate(c@)
        },
{
    let n = data.len();
    let (cs, ce) = match dec_expect_tlv(data, 0, n, 0x30) {
        Some(x) => x,
        None => { return None; },
    };
    if ce != n {
        return None;
    }
    let (tbs_certificate, p1) = match dec_tbs(data, cs, ce) {
        Some(x) => x,
        None => { return None; },
    };
    let (signature_algorithm, p2) = match dec_alg(data, p1, ce) {
        Some(x) => x,
        None => { return None; },
    };
    let (signature, p3) = match dec_bit_string(data, p2, ce, 0x03) {
        Some(x) => x,
        None => { return None; },
    };
    if p3 != ce {
        return None;
    }
    let c = Certificate { tbs_certificate, signature_algorithm, signature };
    proof {
        let d = data@;
        let e1 = enc_tbs(c@.tbs_certificate);
        let e2 = enc_alg(c@.signature_algorithm);
        let e3 = spec_tlv(0x03, seq![0u8] + c@.signature);
        assert(d.subrange(cs as int, p1 as int) == e1);
        assert(d.subrange(p1 as int, p2 as int) == e2);
        assert(d.subrange(p2 as int, ce as int) == e3);
        lemma_split(d, cs as int, p1 as int, p2 as int);
        assert(d.subrange(cs as int, p2 as int) == e1 + e2);
        lemma_split(d, cs as int, p2 as int, ce as int);
        assert(d.subrange(cs as int, ce as int) == e1 + e2 + e3);
        assert(d =~= d.subrange(0, ce as int));
    }
    Some(c)
}

} // verus!

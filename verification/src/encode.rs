//! DER serialisation of the certificate model, proved byte-exact against
//! the `enc_*` spec functions of `crate::model`.

use vstd::prelude::*;
use vstd::slice::{slice_subrange, slice_to_vec};

use crate::der::{spec_tlv, wrap_tlv};
use crate::model::{
    AlgorithmIdentifier, Asn1Time, AttributeTypeAndValue, Certificate, Extension, Name, Rdn,
    SubjectPublicKeyInfo, TbsCertificate, Validity, enc_alg, enc_atv, enc_atv_list,
    enc_certificate, enc_ext, enc_ext_list, enc_extensions, enc_name, enc_oid, enc_rdn,
    enc_rdn_list, enc_spki, enc_tbs, enc_tbs_body, enc_time, enc_time_body, enc_validity,
    enc_version, two_digits,
};

verus! {

/// Copy of `data[from..to]`.
pub fn copy_range(data: &[u8], from: usize, to: usize) -> (r: Vec<u8>)
    requires
        from <= to <= data@.len(),
    ensures
        r@ == data@.subrange(from as int, to as int),
{
    slice_to_vec(slice_subrange(data, from, to))
}

pub fn encode_oid(oid: &Vec<u8>) -> (r: Vec<u8>)
    ensures
        r@ == enc_oid(oid@),
{
    wrap_tlv(0x06, slice_to_vec(oid.as_slice()))
}

pub fn encode_alg(a: &AlgorithmIdentifier) -> (r: Vec<u8>)
    ensures
        r@ == enc_alg(a@),
{
    let mut body = encode_oid(&a.oid);
    match &a.params {
        Some(p) => {
            let mut pc = slice_to_vec(p.as_slice());
            body.append(&mut pc);
        },
        None => {},
    }
    proof {
        assert(body@ =~= enc_oid(a.oid@) + match a@.params {
            Some(p) => p,
            None => Seq::<u8>::empty(),
        });
    }
    wrap_tlv(0x30, body)
}

pub fn encode_atv(a: &AttributeTypeAndValue) -> (r: Vec<u8>)
    ensures
        r@ == enc_atv(a@),
{
    let mut body = encode_oid(&a.oid);
    let mut v = wrap_tlv(a.value_tag, slice_to_vec(a.value.as_slice()));
    body.append(&mut v);
    wrap_tlv(0x30, body)
}

pub fn encode_rdn(r: &Rdn) -> (out: Vec<u8>)
    ensures
        out@ == enc_rdn(r@),
{
    let mut body: Vec<u8> = Vec::new();
    let n = r.atvs.len();
    for i in 0..n
        invariant
            n == r.atvs.len(),
            body@ == enc_atv_list(r@.subrange(0, i as int)),
    {
        let mut e = encode_atv(&r.atvs[i]);
        proof {
            assert(r@.subrange(0, i + 1).drop_last() =~= r@.subrange(0, i as int));
            assert(r@.subrange(0, i + 1).last() == r@[i as int]);
            assert(r@[i as int] == r.atvs@[i as int]@);
        }
        body.append(&mut e);
    }
    proof {
        assert(r@.subrange(0, n as int) =~= r@);
    }
    wrap_tlv(0x31, body)
}

pub fn encode_name(n: &Name) -> (out: Vec<u8>)
    ensures
        out@ == enc_name(n@),
{
    let mut body: Vec<u8> = Vec::new();
    let k = n.rdns.len();
    for i in 0..k
        invariant
            k == n.rdns.len(),
            body@ == enc_rdn_list(n@.subrange(0, i as int)),
    {
        let mut e = encode_rdn(&n.rdns[i]);
        proof {
            assert(n@.subrange(0, i + 1).drop_last() =~= n@.subrange(0, i as int));
            assert(n@.subrange(0, i + 1).last() == n@[i as int]);
            assert(n@[i as int] == n.rdns@[i as int]@);
        }
        body.append(&mut e);
    }
    proof {
        assert(n@.subrange(0, k as int) =~= n@);
    }
    wrap_tlv(0x30, body)
}

/// Append the two ASCII digits of `n` (taken modulo 100).
fn push_two_digits(out: &mut Vec<u8>, n: u8)
    ensures
        final(out)@ == old(out)@ + two_digits((n % 100) as nat),
{
    let m = n % 100;
    out.push(0x30 + m / 10);
    out.push(0x30 + m % 10);
    proof {
        assert(out@ =~= old(out)@ + two_digits((n % 100) as nat));
    }
}

#[verifier::rlimit(50)]
pub fn encode_time(t: &Asn1Time) -> (r: Vec<u8>)
    ensures
        r@ == enc_time(t@),
{
    let mut body: Vec<u8> = Vec::new();
    if t.utc {
        push_two_digits(&mut body, (t.year % 100) as u8);
    } else {
        push_two_digits(&mut body, ((t.year / 100) % 100) as u8);
        push_two_digits(&mut body, (t.year % 100) as u8);
    }
    push_two_digits(&mut body, t.month);
    push_two_digits(&mut body, t.day);
    push_two_digits(&mut body, t.hour);
    push_two_digits(&mut body, t.minute);
    push_two_digits(&mut body, t.second);
    body.push(0x5a);
    proof {
        assert(body@ =~= enc_time_body(t@));
    }
    wrap_tlv(if t.utc { 0x17 } else { 0x18 }, body)
}

pub fn encode_validity(v: &Validity) -> (r: Vec<u8>)
    ensures
        r@ == enc_validity(v@),
{
    let mut body = encode_time(&v.not_before);
    let mut b = encode_time(&v.not_after);
    body.append(&mut b);
    wrap_tlv(0x30, body)
}

/// A BIT STRING with no unused bits: a leading zero byte, then the bits.
fn encode_bit_string(tag: u8, bits: &Vec<u8>) -> (r: Vec<u8>)
    ensures
        r@ == spec_tlv(tag, seq![0u8] + bits@),
{
    let mut body: Vec<u8> = Vec::new();
    body.push(0);
    let mut b = slice_to_vec(bits.as_slice());
    body.append(&mut b);
    proof {
        assert(body@ =~= seq![0u8] + bits@);
    }
    wrap_tlv(tag, body)
}

pub fn encode_spki(s: &SubjectPublicKeyInfo) -> (r: Vec<u8>)
    ensures
        r@ == enc_spki(s@),
{
    let mut body = encode_alg(&s.algorithm);
    let mut b = encode_bit_string(0x03, &s.subject_public_key);
    body.append(&mut b);
    wrap_tlv(0x30, body)
}

pub fn encode_ext(e: &Extension) -> (r: Vec<u8>)
    ensures
        r@ == enc_ext(e@),
{
    let mut body = encode_oid(&e.oid);
    match e.critical {
        Some(b) => {
            let mut flag: Vec<u8> = Vec::new();
            flag.push(if b { 0xff } else { 0x00 });
            proof {
                assert(flag@ =~= seq![if b { 0xffu8 } else { 0x00u8 }]);
            }
            let mut f = wrap_tlv(0x01, flag);
            body.append(&mut f);
        },
        None => {},
    }
    let mut v = wrap_tlv(0x04, slice_to_vec(e.value.as_slice()));
    body.append(&mut v);
    proof {
        assert(body@ =~= enc_oid(e.oid@) + (match e@.critical {
            Some(b) => spec_tlv(0x01, seq![if b { 0xffu8 } else { 0x00u8 }]),
            None => Seq::<u8>::empty(),
        }) + spec_tlv(0x04, e.value@));
    }
    wrap_tlv(0x30, body)
}

pub fn encode_extensions(es: &Vec<Extension>) -> (r: Vec<u8>)
    ensures
        r@ == enc_extensions(es@.map_values(|e: Extension| e@)),
{
    let ghost ges = es@.map_values(|e: Extension| e@);
    let mut body: Vec<u8> = Vec::new();
    let n = es.len();
    for i in 0..n
        invariant
            n == es.len(),
            ges == es@.map_values(|e: Extension| e@),
            body@ == enc_ext_list(ges.subrange(0, i as int)),
    {
        let mut e = encode_ext(&es[i]);
        proof {
            assert(ges.subrange(0, i + 1).drop_last() =~= ges.subrange(0, i as int));
            assert(ges.subrange(0, i + 1).last() == ges[i as int]);
        }
        body.append(&mut e);
    }
    proof {
        assert(ges.subrange(0, n as int) =~= ges);
    }
    wrap_tlv(0xa3, wrap_tlv(0x30, body))
}

pub fn encode_tbs(t: &TbsCertificate) -> (r: Vec<u8>)
    ensures
        r@ == enc_tbs(t@),
{
    let mut body: Vec<u8> = Vec::new();
    match t.version {
        Some(v) => {
            let mut vb: Vec<u8> = Vec::new();
            vb.push(v);
            proof {
                assert(vb@ =~= seq![v]);
            }
            let mut ve = wrap_tlv(0xa0, wrap_tlv(0x02, vb));
            body.append(&mut ve);
        },
        None => {},
    }
    proof {
        assert(body@ =~= enc_version(t@.version));
    }
    let mut serial = wrap_tlv(0x02, slice_to_vec(t.serial_number.as_slice()));
    body.append(&mut serial);
    let mut alg = encode_alg(&t.signature);
    body.append(&mut alg);
    let mut issuer = encode_name(&t.issuer);
    body.append(&mut issuer);
    let mut val = encode_validity(&t.validity);
    body.append(&mut val);
    let mut subject = encode_name(&t.subject);
    body.append(&mut subject);
    let mut spki = encode_spki(&t.subject_public_key_info);
    body.append(&mut spki);
    match &t.issuer_unique_id {
        Some(b) => {
            let mut u = encode_bit_string(0x81, b);
            body.append(&mut u);
        },
        None => {},
    }
    match &t.subject_unique_id {
        Some(b) => {
            let mut u = encode_bit_string(0x82, b);
            body.append(&mut u);
        },
        None => {},
    }
    match &t.extensions {
        Some(es) => {
            let mut x = encode_extensions(es);
            body.append(&mut x);
        },
        None => {},
    }
    proof {
        assert(body@ =~= enc_tbs_body(t@));
    }
    wrap_tlv(0x30, body)
}

pub fn encode_certificate(c: &Certificate) -> (r: Vec<u8>)
    ensures
        r@ == enc_certificate(c@),
{
    let mut body = encode_tbs(&c.tbs_certificate);
    let mut alg = encode_alg(&c.signature_algorithm);
    body.append(&mut alg);
    let mut sig = encode_bit_string(0x03, &c.signature);
    body.append(&mut sig);
    proof {
        assert(body@ =~= enc_tbs(c@.tbs_certificate) + enc_alg(c@.signature_algorithm) + spec_tlv(
            0x03,
            seq![0u8] + c@.signature,
        ));
    }
    wrap_tlv(0x30, body)
}

} // verus!

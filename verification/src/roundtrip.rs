//! The encoding determines the value: two well-formed certificates with
//! the same DER encoding are the same certificate.
//!
//! Together with the decoder's soundness (whatever it accepts re-encodes
//! to the input) this pins the round trip down: decoding an encoding can
//! yield nothing but the encoded value.

use vstd::prelude::*;

use crate::der::{
    be_bytes, be_len, be_value, lemma_be_value_of_bytes, lemma_pow256_vals, pow256, spec_len_bytes,
    spec_tlv,
};
use crate::model::{
    SpecAlgorithmIdentifier, SpecAsn1Time, SpecAttributeTypeAndValue, SpecCertificate,
    SpecExtension, SpecName, SpecRdn, SpecSubjectPublicKeyInfo, SpecTbsCertificate, SpecValidity,
    enc_alg, enc_atv, enc_atv_list, enc_certificate, enc_ext, enc_ext_list, enc_extensions,
    enc_name, enc_oid, enc_rdn, enc_rdn_list, enc_spki, enc_tbs, enc_tbs_body, enc_time,
    enc_time_body, enc_uid, enc_validity, enc_version, two_digits, wf_alg, wf_certificate,
    wf_validity, wf_time,
};

verus! {

/// Every value needs fewer than `be_len(n) + 1` digits and fits its count.
pub proof fn lemma_be_len_bound(n: nat)
    ensures
        n < pow256(be_len(n)),
        be_len(n) >= 1,
    decreases n,
{
    if n < 256 {
        lemma_pow256_vals();
    } else {
        lemma_be_len_bound(n / 256);
        assert(n < 256 * pow256(be_len(n / 256))) by (nonlinear_arith)
            requires
                n / 256 < pow256(be_len(n / 256)),
                n >= 256,
        ;
    }
}

/// A value below 256^k has at most k digits.
pub proof fn lemma_be_len_le(n: nat, k: nat)
    requires
        k >= 1,
        n < pow256(k),
    ensures
        be_len(n) <= k,
    decreases k,
{
    if n < 256 {
    } else {
        lemma_pow256_vals();
        if k == 1 {
            assert(false);
        } else {
            assert(n / 256 < pow256((k - 1) as nat)) by (nonlinear_arith)
                requires
                    n < pow256(k),
                    pow256(k) == 256 * pow256((k - 1) as nat),
            ;
            lemma_be_len_le(n / 256, (k - 1) as nat);
        }
    }
}

pub proof fn lemma_len_bytes_len(n: nat)
    ensures
        spec_len_bytes(n).len() >= 1,
{
    if n < 0x80 {
    } else {
        lemma_be_len_bound(n);
    }
}

/// One element takes at least two bytes beyond its contents.
pub proof fn lemma_tlv_len(t: u8, c: Seq<u8>)
    ensures
        spec_tlv(t, c).len() >= c.len() + 2,
        spec_tlv(t, c).len() == 1 + spec_len_bytes(c.len()).len() + c.len(),
{
    lemma_len_bytes_len(c.len());
}

/// Unique prefix parse: if two framed elements followed by rests form the
/// same byte string, the tags, contents and rests agree.
#[verifier::rlimit(100)]
pub proof fn lemma_tlv_prefix(t1: u8, c1: Seq<u8>, r1: Seq<u8>, t2: u8, c2: Seq<u8>, r2: Seq<u8>)
    requires
        spec_tlv(t1, c1) + r1 == spec_tlv(t2, c2) + r2,
        c1.len() < pow256(8),
        c2.len() < pow256(8),
    ensures
        t1 == t2,
        c1 == c2,
        r1 == r2,
{
    let s = spec_tlv(t1, c1) + r1;
    let n1 = c1.len();
    let n2 = c2.len();
    let l1 = spec_len_bytes(n1);
    let l2 = spec_len_bytes(n2);
    lemma_pow256_vals();
    lemma_len_bytes_len(n1);
    lemma_len_bytes_len(n2);
    assert(s[0] == t1);
    assert((spec_tlv(t2, c2) + r2)[0] == t2);
    assert(s[1] == l1[0]);
    assert((spec_tlv(t2, c2) + r2)[1] == l2[0]);
    if n1 < 0x80 && n2 < 0x80 {
        assert(l1[0] == n1 as u8);
        assert(l2[0] == n2 as u8);
        assert(n1 == n2);
    } else if n1 >= 0x80 && n2 >= 0x80 {
        let k1 = be_len(n1);
        let k2 = be_len(n2);
        lemma_be_len_bound(n1);
        lemma_be_len_bound(n2);
        lemma_be_len_le(n1, 8);
        lemma_be_len_le(n2, 8);
        assert(l1[0] == (0x80 + k1) as u8);
        assert(l2[0] == (0x80 + k2) as u8);
        assert(k1 == k2);
        let d1 = be_bytes(n1, k1);
        let d2 = be_bytes(n2, k2);
        assert(d1.len() == k1 && d2.len() == k2) by {
            lemma_be_bytes_len(n1, k1);
            lemma_be_bytes_len(n2, k2);
        }
        assert forall|i: int| 0 <= i < k1 implies d1[i] == d2[i] by {
            assert(l1[1 + i] == d1[i]);
            assert(l2[1 + i] == d2[i]);
            assert(s[2 + i] == l1[1 + i]);
            assert((spec_tlv(t2, c2) + r2)[2 + i] == l2[1 + i]);
        }
        assert(d1 =~= d2);
        lemma_be_value_of_bytes(n1, k1);
        lemma_be_value_of_bytes(n2, k2);
        assert(n1 == n2);
    } else {
        // A short and a long form disagree on the first length byte.
        if n1 < 0x80 {
            let k2 = be_len(n2);
            lemma_be_len_bound(n2);
            lemma_be_len_le(n2, 8);
            assert(l1[0] == n1 as u8 && l1[0] < 0x80);
            assert(l2[0] == (0x80 + k2) as u8 && l2[0] >= 0x80);
            assert(false);
        } else {
            let k1 = be_len(n1);
            lemma_be_len_bound(n1);
            lemma_be_len_le(n1, 8);
            assert(l2[0] == n2 as u8 && l2[0] < 0x80);
            assert(l1[0] == (0x80 + k1) as u8 && l1[0] >= 0x80);
            assert(false);
        }
    }
    assert(l1 == l2);
    let h = 1 + l1.len();
    assert forall|i: int| 0 <= i < n1 implies c1[i] == c2[i] by {
        assert(s[h + i] == c1[i]);
        assert((spec_tlv(t2, c2) + r2)[h + i] == c2[i]);
    }
    assert(c1 =~= c2);
    assert(spec_tlv(t1, c1).len() == 1 + l1.len() + n1);
    assert(spec_tlv(t2, c2).len() == 1 + l2.len() + n2);
    assert(s.len() == spec_tlv(t1, c1).len() + r1.len());
    assert((spec_tlv(t2, c2) + r2).len() == spec_tlv(t2, c2).len() + r2.len());
    assert(r1.len() == r2.len());
    assert forall|i: int| 0 <= i < r1.len() implies r1[i] == r2[i] by {
        assert(s[h + n1 + i] == r1[i]);
        assert((spec_tlv(t2, c2) + r2)[h + n2 + i] == r2[i]);
    }
    assert(r1 =~= r2);
}

pub proof fn lemma_be_bytes_len(n: nat, k: nat)
    ensures
        be_bytes(n, k).len() == k,
    decreases k,
{
    if k > 0 {
        lemma_be_bytes_len(n / 256, (k - 1) as nat);
    }
}

/// Reading a length at the start of its own encoding gives it back.
#[verifier::rlimit(100)]
pub proof fn lemma_read_len_of_enc(s: Seq<u8>, pos: int, n: nat)
    requires
        0 <= pos,
        n < pow256(8),
        pos + spec_len_bytes(n).len() <= s.len(),
        s.subrange(pos, pos + spec_len_bytes(n).len() as int) == spec_len_bytes(n),
    ensures
        crate::der::spec_read_len(s, pos) == Some((n, pos + spec_len_bytes(n).len() as int)),
    decreases 0nat,
{
    let lb = spec_len_bytes(n);
    lemma_pow256_vals();
    if n < 0x80 {
        assert(s[pos] == lb[0]);
        assert(s[pos] == n as u8);
    } else {
        let k = be_len(n);
        lemma_be_len_bound(n);
        lemma_be_len_le(n, 8);
        lemma_be_bytes_len(n, k);
        assert(s[pos] == lb[0]);
        assert(lb[0] == (0x80 + k) as u8);
        assert(s.subrange(pos + 1, pos + 1 + k as int) =~= be_bytes(n, k)) by {
            assert(forall|i: int|
                0 <= i < k ==> s[pos + 1 + i] == lb[1 + i] && lb[1 + i] == be_bytes(n, k)[i]);
        }
        lemma_be_value_of_bytes(n, k);
        assert(be_value(s.subrange(pos + 1, pos + 1 + k as int)) == n);
    }
}

/// Reading one element at the start of its own encoding gives it back.
#[verifier::rlimit(100)]
pub proof fn lemma_read_tlv_of_enc(s: Seq<u8>, pos: int, t: u8, c: Seq<u8>)
    requires
        0 <= pos,
        c.len() < pow256(8),
        pos + spec_tlv(t, c).len() <= s.len(),
        s.subrange(pos, pos + spec_tlv(t, c).len() as int) == spec_tlv(t, c),
    ensures
        ({
            let hl = 1 + spec_len_bytes(c.len()).len() as int;
            &&& crate::der::spec_read_tlv(s, pos) == Some(
                (t, pos + hl, pos + spec_tlv(t, c).len() as int),
            )
            &&& s.subrange(pos + hl, pos + spec_tlv(t, c).len() as int) == c
        }),
{
    let lb = spec_len_bytes(c.len());
    let hl = 1 + lb.len() as int;
    lemma_tlv_len(t, c);
    assert(s[pos] == spec_tlv(t, c)[0]);
    assert(spec_tlv(t, c)[0] == t);
    assert(s.subrange(pos + 1, pos + 1 + lb.len() as int) =~= lb) by {
        assert(forall|i: int|
            0 <= i < lb.len() ==> s[pos + 1 + i] == spec_tlv(t, c)[1 + i] && spec_tlv(t, c)[1 + i]
                == lb[i]);
    }
    lemma_read_len_of_enc(s, pos + 1, c.len());
    assert(s.subrange(pos + hl, pos + spec_tlv(t, c).len() as int) =~= c) by {
        assert(forall|i: int|
            0 <= i < c.len() ==> s[pos + hl + i] == spec_tlv(t, c)[hl + i] && spec_tlv(t, c)[hl + i]
                == c[i]);
    }
}

/// The special case with no rests: equal framed elements have equal tags
/// and contents.
pub proof fn lemma_tlv_inj(t1: u8, c1: Seq<u8>, t2: u8, c2: Seq<u8>)
    requires
        spec_tlv(t1, c1) == spec_tlv(t2, c2),
        c1.len() < pow256(8),
        c2.len() < pow256(8),
    ensures
        t1 == t2,
        c1 == c2,
{
    assert(spec_tlv(t1, c1) + Seq::<u8>::empty() =~= spec_tlv(t1, c1));
    assert(spec_tlv(t2, c2) + Seq::<u8>::empty() =~= spec_tlv(t2, c2));
    lemma_tlv_prefix(t1, c1, Seq::empty(), t2, c2, Seq::empty());
}


/// Short enough that every framed length uses at most eight length bytes.
pub open spec fn fits(s: Seq<u8>) -> bool {
    s.len() < pow256(8)
}

pub proof fn lemma_two_digits_inj(x: nat, y: nat)
    requires
        x < 100,
        y < 100,
        two_digits(x) == two_digits(y),
    ensures
        x == y,
{
    assert(two_digits(x)[0] == two_digits(y)[0]);
    assert(two_digits(x)[1] == two_digits(y)[1]);
    assert(x / 10 == y / 10 && x % 10 == y % 10);
    assert(x == 10 * (x / 10) + x % 10);
    assert(y == 10 * (y / 10) + y % 10);
}

/// Equal concatenations split alike when the front parts have one length.
proof fn lemma_concat_parts(x1: Seq<u8>, y1: Seq<u8>, x2: Seq<u8>, y2: Seq<u8>)
    requires
        x1 + y1 == x2 + y2,
        x1.len() == x2.len(),
    ensures
        x1 == x2,
        y1 == y2,
{
    assert(x1 =~= x2) by {
        assert(forall|i: int| 0 <= i < x1.len() ==> (x1 + y1)[i] == x1[i] && (x2 + y2)[i] == x2[i]);
    }
    assert((x1 + y1).len() == x1.len() + y1.len());
    assert((x2 + y2).len() == x2.len() + y2.len());
    assert(y1.len() == y2.len());
    assert(y1 =~= (x1 + y1).subrange(x1.len() as int, (x1 + y1).len() as int));
    assert(y2 =~= (x2 + y2).subrange(x2.len() as int, (x2 + y2).len() as int));
}

/// Equal time-of-day digit runs name the same time of day.
#[verifier::rlimit(100)]
proof fn lemma_time_tail_inj(a: SpecAsn1Time, b: SpecAsn1Time)
    requires
        wf_time(a),
        wf_time(b),
        two_digits((a.month % 100) as nat) + two_digits((a.day % 100) as nat) + two_digits(
            (a.hour % 100) as nat,
        ) + two_digits((a.minute % 100) as nat) + two_digits((a.second % 100) as nat) + seq![0x5au8]
            == two_digits((b.month % 100) as nat) + two_digits((b.day % 100) as nat) + two_digits(
            (b.hour % 100) as nat,
        ) + two_digits((b.minute % 100) as nat) + two_digits((b.second % 100) as nat) + seq![0x5au8],
    ensures
        a.month == b.month,
        a.day == b.day,
        a.hour == b.hour,
        a.minute == b.minute,
        a.second == b.second,
{
    let moa = two_digits((a.month % 100) as nat);
    let da = two_digits((a.day % 100) as nat);
    let ha = two_digits((a.hour % 100) as nat);
    let mia = two_digits((a.minute % 100) as nat);
    let sa = two_digits((a.second % 100) as nat);
    let mob = two_digits((b.month % 100) as nat);
    let db = two_digits((b.day % 100) as nat);
    let hb = two_digits((b.hour % 100) as nat);
    let mib = two_digits((b.minute % 100) as nat);
    let sb = two_digits((b.second % 100) as nat);
    lemma_concat_parts(moa + da + ha + mia + sa, seq![0x5au8], mob + db + hb + mib + sb, seq![
        0x5au8,
    ]);
    lemma_concat_parts(moa + da + ha + mia, sa, mob + db + hb + mib, sb);
    lemma_concat_parts(moa + da + ha, mia, mob + db + hb, mib);
    lemma_concat_parts(moa + da, ha, mob + db, hb);
    lemma_concat_parts(moa, da, mob, db);
    lemma_two_digits_inj((a.month % 100) as nat, (b.month % 100) as nat);
    lemma_two_digits_inj((a.day % 100) as nat, (b.day % 100) as nat);
    lemma_two_digits_inj((a.hour % 100) as nat, (b.hour % 100) as nat);
    lemma_two_digits_inj((a.minute % 100) as nat, (b.minute % 100) as nat);
    lemma_two_digits_inj((a.second % 100) as nat, (b.second % 100) as nat);
}

/// Equal UTCTime bodies name the same instant.
#[verifier::rlimit(100)]
proof fn lemma_time_body_inj_utc(a: SpecAsn1Time, b: SpecAsn1Time)
    requires
        wf_time(a),
        wf_time(b),
        a.utc,
        b.utc,
        enc_time_body(a) == enc_time_body(b),
    ensures
        a == b,
{
    let ya = two_digits((a.year % 100) as nat);
    let yb = two_digits((b.year % 100) as nat);
    let taila = two_digits((a.month % 100) as nat) + two_digits((a.day % 100) as nat) + two_digits(
        (a.hour % 100) as nat,
    ) + two_digits((a.minute % 100) as nat) + two_digits((a.second % 100) as nat) + seq![0x5au8];
    let tailb = two_digits((b.month % 100) as nat) + two_digits((b.day % 100) as nat) + two_digits(
        (b.hour % 100) as nat,
    ) + two_digits((b.minute % 100) as nat) + two_digits((b.second % 100) as nat) + seq![0x5au8];
    assert(enc_time_body(a) == ya + taila);
    assert(enc_time_body(b) == yb + tailb);
    lemma_concat_parts(ya, taila, yb, tailb);
    lemma_two_digits_inj((a.year % 100) as nat, (b.year % 100) as nat);
    // In the UTCTime window the year is determined by its last two digits.
    assert(a.year == 100 * (a.year / 100) + a.year % 100);
    assert(b.year == 100 * (b.year / 100) + b.year % 100);
    if a.year % 100 >= 50 {
        assert(a.year / 100 == 19);
        assert(b.year / 100 == 19);
    } else {
        assert(a.year / 100 == 20);
        assert(b.year / 100 == 20);
    }
    assert(a.year == b.year);
    lemma_time_tail_inj(a, b);
    assert(a =~= b);
}

/// Four-digit years agree when their digit pairs agree.
proof fn lemma_gen_year(ya: u16, yb: u16)
    requires
        ya <= 9999,
        yb <= 9999,
        (ya / 100) % 100 == (yb / 100) % 100,
        ya % 100 == yb % 100,
    ensures
        ya == yb,
{
    assert(ya / 100 <= 99);
    assert(yb / 100 <= 99);
    assert((ya / 100) % 100 == ya / 100);
    assert((yb / 100) % 100 == yb / 100);
    assert(ya == 100 * (ya / 100) + ya % 100);
    assert(yb == 100 * (yb / 100) + yb % 100);
}

/// Equal GeneralizedTime bodies name the same instant.
#[verifier::rlimit(100)]
proof fn lemma_time_body_inj_gen(a: SpecAsn1Time, b: SpecAsn1Time)
    requires
        wf_time(a),
        wf_time(b),
        !a.utc,
        !b.utc,
        enc_time_body(a) == enc_time_body(b),
    ensures
        a == b,
{
    let y1a = two_digits(((a.year / 100) % 100) as nat);
    let y2a = two_digits((a.year % 100) as nat);
    let y1b = two_digits(((b.year / 100) % 100) as nat);
    let y2b = two_digits((b.year % 100) as nat);
    let taila = two_digits((a.month % 100) as nat) + two_digits((a.day % 100) as nat) + two_digits(
        (a.hour % 100) as nat,
    ) + two_digits((a.minute % 100) as nat) + two_digits((a.second % 100) as nat) + seq![0x5au8];
    let tailb = two_digits((b.month % 100) as nat) + two_digits((b.day % 100) as nat) + two_digits(
        (b.hour % 100) as nat,
    ) + two_digits((b.minute % 100) as nat) + two_digits((b.second % 100) as nat) + seq![0x5au8];
    assert(enc_time_body(a) == y1a + y2a + taila);
    assert(enc_time_body(b) == y1b + y2b + tailb);
    lemma_concat_parts(y1a + y2a, taila, y1b + y2b, tailb);
    lemma_concat_parts(y1a, y2a, y1b, y2b);
    lemma_two_digits_inj(((a.year / 100) % 100) as nat, ((b.year / 100) % 100) as nat);
    lemma_two_digits_inj((a.year % 100) as nat, (b.year % 100) as nat);
    lemma_gen_year(a.year, b.year);
    lemma_time_tail_inj(a, b);
    assert(a =~= b);
}

#[verifier::rlimit(100)]
pub proof fn lemma_time_inj(a: SpecAsn1Time, b: SpecAsn1Time)
    requires
        wf_time(a),
        wf_time(b),
        enc_time(a) == enc_time(b),
    ensures
        a == b,
{
    let ba = enc_time_body(a);
    let bb = enc_time_body(b);
    lemma_pow256_vals();
    assert(ba.len() == if a.utc { 13int } else { 15 });
    assert(bb.len() == if b.utc { 13int } else { 15 });
    lemma_tlv_inj(if a.utc { 0x17u8 } else { 0x18u8 }, ba, if b.utc { 0x17u8 } else { 0x18u8 }, bb);
    assert(a.utc == b.utc);
    assert(ba == bb);
    if a.utc {
        lemma_time_body_inj_utc(a, b);
    } else {
        lemma_time_body_inj_gen(a, b);
    }
}

pub proof fn lemma_alg_inj(a: SpecAlgorithmIdentifier, b: SpecAlgorithmIdentifier)
    requires
        wf_alg(a),
        wf_alg(b),
        enc_alg(a) == enc_alg(b),
        fits(enc_alg(a)),
    ensures
        a == b,
{
    let pa = match a.params {
        Some(p) => p,
        None => Seq::<u8>::empty(),
    };
    let pb = match b.params {
        Some(p) => p,
        None => Seq::<u8>::empty(),
    };
    let ca = enc_oid(a.oid) + pa;
    let cb = enc_oid(b.oid) + pb;
    lemma_tlv_len(0x30, ca);
    lemma_tlv_len(0x30, cb);
    lemma_tlv_len(0x06, a.oid);
    lemma_tlv_len(0x06, b.oid);
    lemma_tlv_inj(0x30, ca, 0x30, cb);
    lemma_tlv_prefix(0x06, a.oid, pa, 0x06, b.oid, pb);
    assert(a.oid == b.oid);
    assert(pa == pb);
    if a.params is Some && b.params is Some {
        assert(a =~= b);
    } else if a.params is None && b.params is None {
        assert(a =~= b);
    } else {
        // One side has parameters (nonempty by well-formedness), the other
        // has the empty sequence.
        assert(false);
    }
}

pub proof fn lemma_atv_inj(a: SpecAttributeTypeAndValue, b: SpecAttributeTypeAndValue)
    requires
        enc_atv(a) == enc_atv(b),
        fits(enc_atv(a)),
    ensures
        a == b,
{
    let ca = enc_oid(a.oid) + spec_tlv(a.value_tag, a.value);
    let cb = enc_oid(b.oid) + spec_tlv(b.value_tag, b.value);
    lemma_tlv_len(0x30, ca);
    lemma_tlv_len(0x30, cb);
    lemma_tlv_len(0x06, a.oid);
    lemma_tlv_len(0x06, b.oid);
    lemma_tlv_len(a.value_tag, a.value);
    lemma_tlv_len(b.value_tag, b.value);
    lemma_tlv_inj(0x30, ca, 0x30, cb);
    lemma_tlv_prefix(
        0x06,
        a.oid,
        spec_tlv(a.value_tag, a.value),
        0x06,
        b.oid,
        spec_tlv(b.value_tag, b.value),
    );
    lemma_tlv_inj(a.value_tag, a.value, b.value_tag, b.value);
    assert(a =~= b);
}

pub proof fn lemma_atv_list_head(s: Seq<SpecAttributeTypeAndValue>)
    requires
        s.len() > 0,
    ensures
        enc_atv_list(s) == enc_atv(s[0]) + enc_atv_list(s.drop_first()),
    decreases s.len(),
{
    if s.len() == 1 {
        assert(s.drop_last() =~= Seq::<SpecAttributeTypeAndValue>::empty());
        assert(s.drop_first() =~= Seq::<SpecAttributeTypeAndValue>::empty());
        assert(enc_atv_list(s) =~= enc_atv(s[0]) + enc_atv_list(s.drop_first()));
    } else {
        let d = s.drop_last();
        lemma_atv_list_head(d);
        assert(d[0] == s[0]);
        assert(d.drop_first() =~= s.drop_first().drop_last());
        assert(s.drop_first().last() == s.last());
        assert(s.drop_first().len() > 0);
        assert(enc_atv_list(s) =~= enc_atv(s[0]) + enc_atv_list(s.drop_first()));
    }
}

pub proof fn lemma_atv_list_inj(x: Seq<SpecAttributeTypeAndValue>, y: Seq<SpecAttributeTypeAndValue>)
    requires
        enc_atv_list(x) == enc_atv_list(y),
        fits(enc_atv_list(x)),
    ensures
        x == y,
    decreases x.len(),
{
    if x.len() == 0 && y.len() == 0 {
        assert(x =~= y);
    } else if x.len() == 0 {
        lemma_atv_list_head(y);
        lemma_tlv_len(0x30, enc_oid(y[0].oid) + spec_tlv(y[0].value_tag, y[0].value));
        assert(false);
    } else if y.len() == 0 {
        lemma_atv_list_head(x);
        lemma_tlv_len(0x30, enc_oid(x[0].oid) + spec_tlv(x[0].value_tag, x[0].value));
        assert(false);
    } else {
        lemma_atv_list_head(x);
        lemma_atv_list_head(y);
        let cx = enc_oid(x[0].oid) + spec_tlv(x[0].value_tag, x[0].value);
        let cy = enc_oid(y[0].oid) + spec_tlv(y[0].value_tag, y[0].value);
        lemma_tlv_len(0x30, cx);
        lemma_tlv_len(0x30, cy);
        lemma_tlv_prefix(0x30, cx, enc_atv_list(x.drop_first()), 0x30, cy, enc_atv_list(y.drop_first()));
        lemma_atv_inj(x[0], y[0]);
        lemma_atv_list_inj(x.drop_first(), y.drop_first());
        assert(x.len() == y.len());
        assert forall|i: int| 0 <= i < x.len() implies x[i] == y[i] by {
            if i > 0 {
                assert(x[i] == x.drop_first()[i - 1]);
                assert(y[i] == y.drop_first()[i - 1]);
            }
        }
        assert(x =~= y);
    }
}

pub proof fn lemma_rdn_inj(a: SpecRdn, b: SpecRdn)
    requires
        enc_rdn(a) == enc_rdn(b),
        fits(enc_rdn(a)),
    ensures
        a == b,
{
    lemma_tlv_len(0x31, enc_atv_list(a));
    lemma_tlv_len(0x31, enc_atv_list(b));
    lemma_tlv_inj(0x31, enc_atv_list(a), 0x31, enc_atv_list(b));
    lemma_atv_list_inj(a, b);
}

pub proof fn lemma_rdn_list_head(s: SpecName)
    requires
        s.len() > 0,
    ensures
        enc_rdn_list(s) == enc_rdn(s[0]) + enc_rdn_list(s.drop_first()),
    decreases s.len(),
{
    if s.len() == 1 {
        assert(s.drop_last() =~= Seq::<SpecRdn>::empty());
        assert(s.drop_first() =~= Seq::<SpecRdn>::empty());
        assert(enc_rdn_list(s) =~= enc_rdn(s[0]) + enc_rdn_list(s.drop_first()));
    } else {
        let d = s.drop_last();
        lemma_rdn_list_head(d);
        assert(d[0] == s[0]);
        assert(d.drop_first() =~= s.drop_first().drop_last());
        assert(s.drop_first().last() == s.last());
        assert(s.drop_first().len() > 0);
        assert(enc_rdn_list(s) =~= enc_rdn(s[0]) + enc_rdn_list(s.drop_first()));
    }
}

pub proof fn lemma_rdn_list_inj(x: SpecName, y: SpecName)
    requires
        enc_rdn_list(x) == enc_rdn_list(y),
        fits(enc_rdn_list(x)),
    ensures
        x == y,
    decreases x.len(),
{
    if x.len() == 0 && y.len() == 0 {
        assert(x =~= y);
    } else if x.len() == 0 {
        lemma_rdn_list_head(y);
        lemma_tlv_len(0x31, enc_atv_list(y[0]));
        assert(false);
    } else if y.len() == 0 {
        lemma_rdn_list_head(x);
        lemma_tlv_len(0x31, enc_atv_list(x[0]));
        assert(false);
    } else {
        lemma_rdn_list_head(x);
        lemma_rdn_list_head(y);
        lemma_tlv_len(0x31, enc_atv_list(x[0]));
        lemma_tlv_len(0x31, enc_atv_list(y[0]));
        lemma_tlv_prefix(
            0x31,
            enc_atv_list(x[0]),
            enc_rdn_list(x.drop_first()),
            0x31,
            enc_atv_list(y[0]),
            enc_rdn_list(y.drop_first()),
        );
        lemma_rdn_inj(x[0], y[0]);
        lemma_rdn_list_inj(x.drop_first(), y.drop_first());
        assert(x.len() == y.len());
        assert forall|i: int| 0 <= i < x.len() implies x[i] == y[i] by {
            if i > 0 {
                assert(x[i] == x.drop_first()[i - 1]);
                assert(y[i] == y.drop_first()[i - 1]);
            }
        }
        assert(x =~= y);
    }
}

pub proof fn lemma_name_inj(a: SpecName, b: SpecName)
    requires
        enc_name(a) == enc_name(b),
        fits(enc_name(a)),
    ensures
        a == b,
{
    lemma_tlv_len(0x30, enc_rdn_list(a));
    lemma_tlv_len(0x30, enc_rdn_list(b));
    lemma_tlv_inj(0x30, enc_rdn_list(a), 0x30, enc_rdn_list(b));
    lemma_rdn_list_inj(a, b);
}

pub proof fn lemma_validity_inj(a: SpecValidity, b: SpecValidity)
    requires
        wf_validity(a),
        wf_validity(b),
        enc_validity(a) == enc_validity(b),
        fits(enc_validity(a)),
    ensures
        a == b,
{
    let ca = enc_time(a.not_before) + enc_time(a.not_after);
    let cb = enc_time(b.not_before) + enc_time(b.not_after);
    lemma_tlv_len(0x30, ca);
    lemma_tlv_len(0x30, cb);
    lemma_tlv_inj(0x30, ca, 0x30, cb);
    lemma_tlv_len(if a.not_before.utc { 0x17u8 } else { 0x18u8 }, enc_time_body(a.not_before));
    lemma_tlv_len(if b.not_before.utc { 0x17u8 } else { 0x18u8 }, enc_time_body(b.not_before));
    lemma_pow256_vals();
    lemma_tlv_prefix(
        if a.not_before.utc { 0x17u8 } else { 0x18u8 },
        enc_time_body(a.not_before),
        enc_time(a.not_after),
        if b.not_before.utc { 0x17u8 } else { 0x18u8 },
        enc_time_body(b.not_before),
        enc_time(b.not_after),
    );
    lemma_time_inj(a.not_before, b.not_before);
    lemma_time_inj(a.not_after, b.not_after);
    assert(a =~= b);
}

pub proof fn lemma_spki_inj(a: SpecSubjectPublicKeyInfo, b: SpecSubjectPublicKeyInfo)
    requires
        wf_alg(a.algorithm),
        wf_alg(b.algorithm),
        enc_spki(a) == enc_spki(b),
        fits(enc_spki(a)),
    ensures
        a == b,
{
    let ka = seq![0u8] + a.subject_public_key;
    let kb = seq![0u8] + b.subject_public_key;
    let ca = enc_alg(a.algorithm) + spec_tlv(0x03, ka);
    let cb = enc_alg(b.algorithm) + spec_tlv(0x03, kb);
    lemma_tlv_len(0x30, ca);
    lemma_tlv_len(0x30, cb);
    lemma_tlv_inj(0x30, ca, 0x30, cb);
    let aa = enc_oid(a.algorithm.oid) + match a.algorithm.params {
        Some(p) => p,
        None => Seq::<u8>::empty(),
    };
    let ab = enc_oid(b.algorithm.oid) + match b.algorithm.params {
        Some(p) => p,
        None => Seq::<u8>::empty(),
    };
    lemma_tlv_len(0x30, aa);
    lemma_tlv_len(0x30, ab);
    lemma_tlv_len(0x03, ka);
    lemma_tlv_len(0x03, kb);
    lemma_tlv_prefix(0x30, aa, spec_tlv(0x03, ka), 0x30, ab, spec_tlv(0x03, kb));
    assert(enc_alg(a.algorithm) == enc_alg(b.algorithm));
    lemma_alg_inj(a.algorithm, b.algorithm);
    lemma_tlv_inj(0x03, ka, 0x03, kb);
    assert(a.subject_public_key =~= b.subject_public_key) by {
        assert(ka.drop_first() =~= a.subject_public_key);
        assert(kb.drop_first() =~= b.subject_public_key);
    }
    assert(a =~= b);
}


pub proof fn lemma_ext_inj(a: SpecExtension, b: SpecExtension)
    requires
        enc_ext(a) == enc_ext(b),
        fits(enc_ext(a)),
    ensures
        a == b,
{
    let cra = match a.critical {
        Some(x) => spec_tlv(0x01u8, seq![if x { 0xffu8 } else { 0x00u8 }]),
        None => Seq::<u8>::empty(),
    };
    let crb = match b.critical {
        Some(x) => spec_tlv(0x01u8, seq![if x { 0xffu8 } else { 0x00u8 }]),
        None => Seq::<u8>::empty(),
    };
    let va = spec_tlv(0x04, a.value);
    let vb = spec_tlv(0x04, b.value);
    let ca = enc_oid(a.oid) + cra + va;
    let cb = enc_oid(b.oid) + crb + vb;
    lemma_tlv_len(0x30, ca);
    lemma_tlv_len(0x30, cb);
    lemma_tlv_len(0x06, a.oid);
    lemma_tlv_len(0x06, b.oid);
    lemma_tlv_len(0x04, a.value);
    lemma_tlv_len(0x04, b.value);
    lemma_tlv_inj(0x30, ca, 0x30, cb);
    assert(ca =~= enc_oid(a.oid) + (cra + va));
    assert(cb =~= enc_oid(b.oid) + (crb + vb));
    lemma_tlv_prefix(0x06, a.oid, cra + va, 0x06, b.oid, crb + vb);
    assert(a.oid == b.oid);
    let ra = cra + va;
    let rb = crb + vb;
    assert(ra == rb);
    if a.critical is Some && b.critical is Some {
        let fa = seq![if a.critical->Some_0 { 0xffu8 } else { 0x00u8 }];
        let fb = seq![if b.critical->Some_0 { 0xffu8 } else { 0x00u8 }];
        lemma_tlv_prefix(0x01, fa, va, 0x01, fb, vb);
        assert(fa[0] == fb[0]);
        assert(a.critical->Some_0 == b.critical->Some_0);
        lemma_tlv_inj(0x04, a.value, 0x04, b.value);
        assert(a =~= b);
    } else if a.critical is None && b.critical is None {
        assert(ra =~= va);
        assert(rb =~= vb);
        lemma_tlv_inj(0x04, a.value, 0x04, b.value);
        assert(a =~= b);
    } else if a.critical is Some {
        assert(ra[0] == 0x01);
        assert(rb =~= vb);
        assert(rb[0] == 0x04);
        assert(false);
    } else {
        assert(rb[0] == 0x01);
        assert(ra =~= va);
        assert(ra[0] == 0x04);
        assert(false);
    }
}

pub proof fn lemma_ext_list_head(s: Seq<SpecExtension>)
    requires
        s.len() > 0,
    ensures
        enc_ext_list(s) == enc_ext(s[0]) + enc_ext_list(s.drop_first()),
    decreases s.len(),
{
    if s.len() == 1 {
        assert(s.drop_last() =~= Seq::<SpecExtension>::empty());
        assert(s.drop_first() =~= Seq::<SpecExtension>::empty());
        assert(enc_ext_list(s) =~= enc_ext(s[0]) + enc_ext_list(s.drop_first()));
    } else {
        let d = s.drop_last();
        lemma_ext_list_head(d);
        assert(d[0] == s[0]);
        assert(d.drop_first() =~= s.drop_first().drop_last());
        assert(s.drop_first().last() == s.last());
        assert(s.drop_first().len() > 0);
        assert(enc_ext_list(s) =~= enc_ext(s[0]) + enc_ext_list(s.drop_first()));
    }
}

pub proof fn lemma_ext_list_inj(x: Seq<SpecExtension>, y: Seq<SpecExtension>)
    requires
        enc_ext_list(x) == enc_ext_list(y),
        fits(enc_ext_list(x)),
    ensures
        x == y,
    decreases x.len(),
{
    if x.len() == 0 && y.len() == 0 {
        assert(x =~= y);
    } else if x.len() == 0 {
        lemma_ext_list_head(y);
        let cy = enc_oid(y[0].oid) + (match y[0].critical {
            Some(v) => spec_tlv(0x01u8, seq![if v { 0xffu8 } else { 0x00u8 }]),
            None => Seq::<u8>::empty(),
        }) + spec_tlv(0x04, y[0].value);
        lemma_tlv_len(0x30, cy);
        assert(false);
    } else if y.len() == 0 {
        lemma_ext_list_head(x);
        let cx = enc_oid(x[0].oid) + (match x[0].critical {
            Some(v) => spec_tlv(0x01u8, seq![if v { 0xffu8 } else { 0x00u8 }]),
            None => Seq::<u8>::empty(),
        }) + spec_tlv(0x04, x[0].value);
        lemma_tlv_len(0x30, cx);
        assert(false);
    } else {
        lemma_ext_list_head(x);
        lemma_ext_list_head(y);
        let cx = enc_oid(x[0].oid) + (match x[0].critical {
            Some(v) => spec_tlv(0x01u8, seq![if v { 0xffu8 } else { 0x00u8 }]),
            None => Seq::<u8>::empty(),
        }) + spec_tlv(0x04, x[0].value);
        let cy = enc_oid(y[0].oid) + (match y[0].critical {
            Some(v) => spec_tlv(0x01u8, seq![if v { 0xffu8 } else { 0x00u8 }]),
            None => Seq::<u8>::empty(),
        }) + spec_tlv(0x04, y[0].value);
        lemma_tlv_len(0x30, cx);
        lemma_tlv_len(0x30, cy);
        lemma_tlv_prefix(0x30, cx, enc_ext_list(x.drop_first()), 0x30, cy, enc_ext_list(y.drop_first()));
        lemma_ext_inj(x[0], y[0]);
        lemma_ext_list_inj(x.drop_first(), y.drop_first());
        assert(x.len() == y.len());
        assert forall|i: int| 0 <= i < x.len() implies x[i] == y[i] by {
            if i > 0 {
                assert(x[i] == x.drop_first()[i - 1]);
                assert(y[i] == y.drop_first()[i - 1]);
            }
        }
        assert(x =~= y);
    }
}

pub proof fn lemma_extensions_inj(x: Seq<SpecExtension>, y: Seq<SpecExtension>)
    requires
        enc_extensions(x) == enc_extensions(y),
        fits(enc_extensions(x)),
    ensures
        x == y,
{
    lemma_tlv_len(0xa3, spec_tlv(0x30, enc_ext_list(x)));
    lemma_tlv_len(0xa3, spec_tlv(0x30, enc_ext_list(y)));
    lemma_tlv_len(0x30, enc_ext_list(x));
    lemma_tlv_len(0x30, enc_ext_list(y));
    lemma_tlv_inj(0xa3, spec_tlv(0x30, enc_ext_list(x)), 0xa3, spec_tlv(0x30, enc_ext_list(y)));
    lemma_tlv_inj(0x30, enc_ext_list(x), 0x30, enc_ext_list(y));
    lemma_ext_list_inj(x, y);
}

/// The extensions part of a TBS body, or nothing.
pub open spec fn enc_exts_opt(t: SpecTbsCertificate) -> Seq<u8> {
    match t.extensions {
        Some(es) => enc_extensions(es),
        None => Seq::<u8>::empty(),
    }
}

/// The trailing optional fields of a TBS body.
pub open spec fn enc_tbs_tail(t: SpecTbsCertificate) -> Seq<u8> {
    enc_uid(0x81, t.issuer_unique_id) + (enc_uid(0x82, t.subject_unique_id) + enc_exts_opt(t))
}


proof fn lemma_assoc3(a: Seq<u8>, b: Seq<u8>, c: Seq<u8>)
    ensures
        a + b + c == a + (b + c),
{
    assert(a + b + c =~= a + (b + c));
}

/// Reassociation of the ten segments of a TBS body.
proof fn lemma_assoc10(
    e1: Seq<u8>,
    e2: Seq<u8>,
    e3: Seq<u8>,
    e4: Seq<u8>,
    e5: Seq<u8>,
    e6: Seq<u8>,
    e7: Seq<u8>,
    e8: Seq<u8>,
    e9: Seq<u8>,
    e10: Seq<u8>,
)
    ensures
        e1 + e2 + e3 + e4 + e5 + e6 + e7 + e8 + e9 + e10 == e1 + (e2 + (e3 + (e4 + (e5 + (e6 + (e7
            + (e8 + (e9 + e10)))))))),
{
    assert(e1 + e2 + e3 + e4 + e5 + e6 + e7 + e8 + e9 + e10 =~= e1 + (e2 + (e3 + (e4 + (e5 + (e6 + (
    e7 + (e8 + (e9 + e10)))))))));
}

/// Equal TBS bodies agree on the version, serial number and signature
/// algorithm, and on the bytes from the issuer on.
#[verifier::rlimit(100)]
proof fn lemma_tbs_front_head(a: SpecTbsCertificate, b: SpecTbsCertificate)
    requires
        crate::model::wf_tbs(a),
        crate::model::wf_tbs(b),
        enc_tbs_body(a) == enc_tbs_body(b),
        fits(enc_tbs_body(a)),
    ensures
        a.version == b.version,
        a.serial_number == b.serial_number,
        a.signature == b.signature,
        enc_name(a.issuer) + (enc_validity(a.validity) + (enc_name(a.subject) + (enc_spki(
            a.subject_public_key_info,
        ) + enc_tbs_tail(a)))) == enc_name(b.issuer) + (enc_validity(b.validity) + (enc_name(
            b.subject,
        ) + (enc_spki(b.subject_public_key_info) + enc_tbs_tail(b)))),
{
    let ta = enc_tbs_tail(a);
    let tb = enc_tbs_tail(b);
    let e1a = enc_version(a.version);
    let e2a = spec_tlv(0x02, a.serial_number);
    let e3a = enc_alg(a.signature);
    let e4a = enc_name(a.issuer);
    let e5a = enc_validity(a.validity);
    let e6a = enc_name(a.subject);
    let e7a = enc_spki(a.subject_public_key_info);
    let e8a = enc_uid(0x81, a.issuer_unique_id);
    let e9a = enc_uid(0x82, a.subject_unique_id);
    let e10a = enc_exts_opt(a);
    let e1b = enc_version(b.version);
    let e2b = spec_tlv(0x02, b.serial_number);
    let e3b = enc_alg(b.signature);
    let e4b = enc_name(b.issuer);
    let e5b = enc_validity(b.validity);
    let e6b = enc_name(b.subject);
    let e7b = enc_spki(b.subject_public_key_info);
    let e8b = enc_uid(0x81, b.issuer_unique_id);
    let e9b = enc_uid(0x82, b.subject_unique_id);
    let e10b = enc_exts_opt(b);
    assert(enc_tbs_body(a) == e1a + e2a + e3a + e4a + e5a + e6a + e7a + e8a + e9a + e10a);
    assert(enc_tbs_body(b) == e1b + e2b + e3b + e4b + e5b + e6b + e7b + e8b + e9b + e10b);
    lemma_assoc10(e1a, e2a, e3a, e4a, e5a, e6a, e7a, e8a, e9a, e10a);
    lemma_assoc10(e1b, e2b, e3b, e4b, e5b, e6b, e7b, e8b, e9b, e10b);
    assert(e8a + (e9a + e10a) =~= ta);
    assert(e8b + (e9b + e10b) =~= tb);
    let r6a = e7a + ta;
    let r5a = e6a + r6a;
    let r4a = e5a + r5a;
    let r3a = e4a + r4a;
    let r2a = e3a + r3a;
    let r1a = e2a + r2a;
    let r6b = e7b + tb;
    let r5b = e6b + r6b;
    let r4b = e5b + r5b;
    let r3b = e4b + r4b;
    let r2b = e3b + r3b;
    let r1b = e2b + r2b;
    assert(e1a + r1a == e1b + r1b);
    lemma_tlv_len(0x02, a.serial_number);
    lemma_tlv_len(0x02, b.serial_number);
    // version
    if a.version is Some && b.version is Some {
        let ia = spec_tlv(0x02, seq![a.version->Some_0]);
        let ib = spec_tlv(0x02, seq![b.version->Some_0]);
        lemma_tlv_len(0xa0, ia);
        lemma_tlv_len(0xa0, ib);
        lemma_tlv_prefix(0xa0, ia, r1a, 0xa0, ib, r1b);
        lemma_tlv_inj(0x02, seq![a.version->Some_0], 0x02, seq![b.version->Some_0]);
        assert(seq![a.version->Some_0][0] == seq![b.version->Some_0][0]);
        assert(a.version == b.version);
        assert(r1a == r1b);
    } else if a.version is None && b.version is None {
        assert(Seq::<u8>::empty() + r1a =~= r1a);
        assert(Seq::<u8>::empty() + r1b =~= r1b);
        assert(r1a == r1b);
    } else if a.version is Some {
        let ia = spec_tlv(0xa0, spec_tlv(0x02, seq![a.version->Some_0]));
        assert((e1a + r1a)[0] == ia[0]);
        assert(ia[0] == 0xa0);
        assert(Seq::<u8>::empty() + r1b =~= r1b);
        assert((e1b + r1b)[0] == r1b[0]);
        assert(r1b[0] == e2b[0]);
        assert(e2b[0] == 0x02);
        assert(false);
    } else {
        let ib = spec_tlv(0xa0, spec_tlv(0x02, seq![b.version->Some_0]));
        assert((e1b + r1b)[0] == ib[0]);
        assert(ib[0] == 0xa0);
        assert(Seq::<u8>::empty() + r1a =~= r1a);
        assert((e1a + r1a)[0] == r1a[0]);
        assert(r1a[0] == e2a[0]);
        assert(e2a[0] == 0x02);
        assert(false);
    }
    // serial number
    lemma_tlv_prefix(0x02, a.serial_number, r2a, 0x02, b.serial_number, r2b);
    assert(a.serial_number == b.serial_number);
    // signature algorithm
    let aa = enc_oid(a.signature.oid) + match a.signature.params {
        Some(p) => p,
        None => Seq::<u8>::empty(),
    };
    let ab = enc_oid(b.signature.oid) + match b.signature.params {
        Some(p) => p,
        None => Seq::<u8>::empty(),
    };
    lemma_tlv_len(0x30, aa);
    lemma_tlv_len(0x30, ab);
    lemma_tlv_prefix(0x30, aa, r3a, 0x30, ab, r3b);
    assert(e3a == e3b);
    lemma_alg_inj(a.signature, b.signature);
    assert(r3a == r3b);
}

/// Equal TBS bodies agree on everything up to the optional trailing
/// fields, and on the bytes of those trailing fields.
#[verifier::rlimit(100)]
proof fn lemma_tbs_front(a: SpecTbsCertificate, b: SpecTbsCertificate)
    requires
        crate::model::wf_tbs(a),
        crate::model::wf_tbs(b),
        enc_tbs_body(a) == enc_tbs_body(b),
        fits(enc_tbs_body(a)),
    ensures
        a.version == b.version,
        a.serial_number == b.serial_number,
        a.signature == b.signature,
        a.issuer == b.issuer,
        a.validity == b.validity,
        a.subject == b.subject,
        a.subject_public_key_info == b.subject_public_key_info,
        enc_tbs_tail(a) == enc_tbs_tail(b),
{
    lemma_tbs_front_head(a, b);
    let ta = enc_tbs_tail(a);
    let tb = enc_tbs_tail(b);
    let r6a = enc_spki(a.subject_public_key_info) + ta;
    let r5a = enc_name(a.subject) + r6a;
    let r4a = enc_validity(a.validity) + r5a;
    let r3a = enc_name(a.issuer) + r4a;
    let r6b = enc_spki(b.subject_public_key_info) + tb;
    let r5b = enc_name(b.subject) + r6b;
    let r4b = enc_validity(b.validity) + r5b;
    let r3b = enc_name(b.issuer) + r4b;
    assert(r3a == r3b);
    // the whole remainder is no longer than the body
    let e1a = enc_version(a.version);
    let e2a = spec_tlv(0x02, a.serial_number);
    let e3a = enc_alg(a.signature);
    assert(enc_tbs_body(a) == e1a + e2a + e3a + enc_name(a.issuer) + enc_validity(a.validity)
        + enc_name(a.subject) + enc_spki(a.subject_public_key_info) + enc_uid(
        0x81,
        a.issuer_unique_id,
    ) + enc_uid(0x82, a.subject_unique_id) + enc_exts_opt(a));
    lemma_assoc10(
        e1a,
        e2a,
        e3a,
        enc_name(a.issuer),
        enc_validity(a.validity),
        enc_name(a.subject),
        enc_spki(a.subject_public_key_info),
        enc_uid(0x81, a.issuer_unique_id),
        enc_uid(0x82, a.subject_unique_id),
        enc_exts_opt(a),
    );
    assert(enc_uid(0x81, a.issuer_unique_id) + (enc_uid(0x82, a.subject_unique_id) + enc_exts_opt(
        a,
    )) =~= ta);
    assert(enc_tbs_body(a).len() == e1a.len() + (e2a.len() + (e3a.len() + r3a.len())));
    assert(r3a.len() <= enc_tbs_body(a).len());
    // issuer
    lemma_tlv_len(0x30, enc_rdn_list(a.issuer));
    lemma_tlv_len(0x30, enc_rdn_list(b.issuer));
    lemma_tlv_prefix(0x30, enc_rdn_list(a.issuer), r4a, 0x30, enc_rdn_list(b.issuer), r4b);
    assert(enc_name(a.issuer) == enc_name(b.issuer));
    lemma_name_inj(a.issuer, b.issuer);
    // validity
    let va = enc_time(a.validity.not_before) + enc_time(a.validity.not_after);
    let vb = enc_time(b.validity.not_before) + enc_time(b.validity.not_after);
    lemma_tlv_len(0x30, va);
    lemma_tlv_len(0x30, vb);
    lemma_tlv_prefix(0x30, va, r5a, 0x30, vb, r5b);
    assert(enc_validity(a.validity) == enc_validity(b.validity));
    lemma_validity_inj(a.validity, b.validity);
    // subject
    lemma_tlv_len(0x30, enc_rdn_list(a.subject));
    lemma_tlv_len(0x30, enc_rdn_list(b.subject));
    lemma_tlv_prefix(0x30, enc_rdn_list(a.subject), r6a, 0x30, enc_rdn_list(b.subject), r6b);
    assert(enc_name(a.subject) == enc_name(b.subject));
    lemma_name_inj(a.subject, b.subject);
    // subject public key info
    let sa = enc_alg(a.subject_public_key_info.algorithm) + spec_tlv(
        0x03,
        seq![0u8] + a.subject_public_key_info.subject_public_key,
    );
    let sb = enc_alg(b.subject_public_key_info.algorithm) + spec_tlv(
        0x03,
        seq![0u8] + b.subject_public_key_info.subject_public_key,
    );
    lemma_tlv_len(0x30, sa);
    lemma_tlv_len(0x30, sb);
    lemma_tlv_prefix(0x30, sa, ta, 0x30, sb, tb);
    assert(enc_spki(a.subject_public_key_info) == enc_spki(b.subject_public_key_info));
    lemma_spki_inj(a.subject_public_key_info, b.subject_public_key_info);
}

/// Equal trailing fields agree on the unique ids and extensions.
#[verifier::rlimit(100)]
proof fn lemma_tbs_tail_inj(a: SpecTbsCertificate, b: SpecTbsCertificate)
    requires
        crate::model::wf_tbs(a),
        crate::model::wf_tbs(b),
        enc_tbs_tail(a) == enc_tbs_tail(b),
        fits(enc_tbs_tail(a)),
    ensures
        a.issuer_unique_id == b.issuer_unique_id,
        a.subject_unique_id == b.subject_unique_id,
        a.extensions == b.extensions,
{
    let sa = enc_uid(0x82, a.subject_unique_id) + enc_exts_opt(a);
    let sb = enc_uid(0x82, b.subject_unique_id) + enc_exts_opt(b);
    // issuer unique id
    if a.issuer_unique_id is Some && b.issuer_unique_id is Some {
        let ua = seq![0u8] + a.issuer_unique_id->Some_0;
        let ub = seq![0u8] + b.issuer_unique_id->Some_0;
        lemma_tlv_len(0x81, ua);
        lemma_tlv_len(0x81, ub);
        lemma_tlv_prefix(0x81, ua, sa, 0x81, ub, sb);
        assert(a.issuer_unique_id->Some_0 =~= b.issuer_unique_id->Some_0) by {
            assert(ua.drop_first() =~= a.issuer_unique_id->Some_0);
            assert(ub.drop_first() =~= b.issuer_unique_id->Some_0);
        }
        assert(a.issuer_unique_id == b.issuer_unique_id);
        assert(sa == sb);
    } else if a.issuer_unique_id is None && b.issuer_unique_id is None {
        assert(Seq::<u8>::empty() + sa =~= sa);
        assert(Seq::<u8>::empty() + sb =~= sb);
        assert(sa == sb);
    } else {
        // Exactly one side carries an issuer unique id: the first byte of
        // the tail tells them apart.
        let (p, q) = if a.issuer_unique_id is Some { (a, b) } else { (b, a) };
        let up = seq![0u8] + p.issuer_unique_id->Some_0;
        lemma_tlv_len(0x81, up);
        assert(enc_tbs_tail(p)[0] == spec_tlv(0x81, up)[0]);
        assert(enc_tbs_tail(p)[0] == 0x81);
        let sq = enc_uid(0x82, q.subject_unique_id) + enc_exts_opt(q);
        assert(enc_tbs_tail(q) =~= sq);
        if q.subject_unique_id is Some {
            let uq = seq![0u8] + q.subject_unique_id->Some_0;
            lemma_tlv_len(0x82, uq);
            assert(sq[0] == spec_tlv(0x82, uq)[0]);
            assert(sq[0] == 0x82);
        } else if q.extensions is Some {
            lemma_tlv_len(0xa3, spec_tlv(0x30, enc_ext_list(q.extensions->Some_0)));
            assert(sq =~= enc_exts_opt(q));
            assert(sq[0] == 0xa3);
        } else {
            assert(sq.len() == 0);
        }
        assert(false);
    }
    // subject unique id
    if a.subject_unique_id is Some && b.subject_unique_id is Some {
        let ua = seq![0u8] + a.subject_unique_id->Some_0;
        let ub = seq![0u8] + b.subject_unique_id->Some_0;
        lemma_tlv_len(0x82, ua);
        lemma_tlv_len(0x82, ub);
        lemma_tlv_prefix(0x82, ua, enc_exts_opt(a), 0x82, ub, enc_exts_opt(b));
        assert(a.subject_unique_id->Some_0 =~= b.subject_unique_id->Some_0) by {
            assert(ua.drop_first() =~= a.subject_unique_id->Some_0);
            assert(ub.drop_first() =~= b.subject_unique_id->Some_0);
        }
        assert(a.subject_unique_id == b.subject_unique_id);
        assert(enc_exts_opt(a) == enc_exts_opt(b));
    } else if a.subject_unique_id is None && b.subject_unique_id is None {
        assert(Seq::<u8>::empty() + enc_exts_opt(a) =~= enc_exts_opt(a));
        assert(Seq::<u8>::empty() + enc_exts_opt(b) =~= enc_exts_opt(b));
        assert(enc_exts_opt(a) == enc_exts_opt(b));
    } else {
        // Exactly one side carries a subject unique id: the first byte of
        // the remaining tail tells them apart.
        let (p, q) = if a.subject_unique_id is Some { (a, b) } else { (b, a) };
        let up = seq![0u8] + p.subject_unique_id->Some_0;
        lemma_tlv_len(0x82, up);
        let sp = enc_uid(0x82, p.subject_unique_id) + enc_exts_opt(p);
        assert(sp[0] == spec_tlv(0x82, up)[0]);
        assert(sp[0] == 0x82);
        let sq = enc_uid(0x82, q.subject_unique_id) + enc_exts_opt(q);
        assert(sq =~= enc_exts_opt(q));
        if q.extensions is Some {
            lemma_tlv_len(0xa3, spec_tlv(0x30, enc_ext_list(q.extensions->Some_0)));
            assert(sq[0] == 0xa3);
        } else {
            assert(sq.len() == 0);
        }
        assert(false);
    }
    // extensions
    if a.extensions is Some && b.extensions is Some {
        lemma_extensions_inj(a.extensions->Some_0, b.extensions->Some_0);
        assert(a.extensions == b.extensions);
    } else if a.extensions is None && b.extensions is None {
    } else if a.extensions is Some {
        lemma_tlv_len(0xa3, spec_tlv(0x30, enc_ext_list(a.extensions->Some_0)));
        assert(enc_exts_opt(b).len() == 0);
        assert(false);
    } else {
        lemma_tlv_len(0xa3, spec_tlv(0x30, enc_ext_list(b.extensions->Some_0)));
        assert(enc_exts_opt(a).len() == 0);
        assert(false);
    }
}

/// Equal certificate encodings agree on the TBS part and on the bytes of
/// the outer algorithm and signature.
#[verifier::rlimit(100)]
proof fn lemma_cert_parts(a: SpecCertificate, b: SpecCertificate)
    requires
        wf_certificate(a),
        wf_certificate(b),
        enc_certificate(a) == enc_certificate(b),
        fits(enc_certificate(a)),
    ensures
        a.tbs_certificate == b.tbs_certificate,
        enc_alg(a.signature_algorithm) + spec_tlv(0x03, seq![0u8] + a.signature) == enc_alg(
            b.signature_algorithm,
        ) + spec_tlv(0x03, seq![0u8] + b.signature),
        fits(enc_alg(a.signature_algorithm)),
{
    let siga = spec_tlv(0x03, seq![0u8] + a.signature);
    let sigb = spec_tlv(0x03, seq![0u8] + b.signature);
    let ca = enc_tbs(a.tbs_certificate) + enc_alg(a.signature_algorithm) + siga;
    let cb = enc_tbs(b.tbs_certificate) + enc_alg(b.signature_algorithm) + sigb;
    lemma_tlv_len(0x30, ca);
    lemma_tlv_len(0x30, cb);
    lemma_tlv_inj(0x30, ca, 0x30, cb);
    let r1a = enc_alg(a.signature_algorithm) + siga;
    let r1b = enc_alg(b.signature_algorithm) + sigb;
    lemma_assoc3(enc_tbs(a.tbs_certificate), enc_alg(a.signature_algorithm), siga);
    lemma_assoc3(enc_tbs(b.tbs_certificate), enc_alg(b.signature_algorithm), sigb);
    assert(ca == enc_tbs(a.tbs_certificate) + r1a);
    assert(cb == enc_tbs(b.tbs_certificate) + r1b);
    lemma_tlv_len(0x30, enc_tbs_body(a.tbs_certificate));
    lemma_tlv_len(0x30, enc_tbs_body(b.tbs_certificate));
    lemma_tlv_prefix(
        0x30,
        enc_tbs_body(a.tbs_certificate),
        r1a,
        0x30,
        enc_tbs_body(b.tbs_certificate),
        r1b,
    );
    lemma_tbs_front(a.tbs_certificate, b.tbs_certificate);
    lemma_tbs_tail_inj(a.tbs_certificate, b.tbs_certificate);
    assert(a.tbs_certificate =~= b.tbs_certificate);
}

/// An algorithm identifier followed by a signature bit string determines
/// both.
#[verifier::rlimit(100)]
proof fn lemma_alg_sig_inj(
    x: SpecAlgorithmIdentifier,
    sx: Seq<u8>,
    y: SpecAlgorithmIdentifier,
    sy: Seq<u8>,
)
    requires
        wf_alg(x),
        wf_alg(y),
        enc_alg(x) + spec_tlv(0x03, seq![0u8] + sx) == enc_alg(y) + spec_tlv(0x03, seq![0u8] + sy),
        fits(enc_alg(x) + spec_tlv(0x03, seq![0u8] + sx)),
    ensures
        x == y,
        sx == sy,
{
    let aa = enc_oid(x.oid) + match x.params {
        Some(p) => p,
        None => Seq::<u8>::empty(),
    };
    let ab = enc_oid(y.oid) + match y.params {
        Some(p) => p,
        None => Seq::<u8>::empty(),
    };
    lemma_tlv_len(0x30, aa);
    lemma_tlv_len(0x30, ab);
    lemma_tlv_len(0x03, seq![0u8] + sx);
    lemma_tlv_len(0x03, seq![0u8] + sy);
    lemma_tlv_prefix(
        0x30,
        aa,
        spec_tlv(0x03, seq![0u8] + sx),
        0x30,
        ab,
        spec_tlv(0x03, seq![0u8] + sy),
    );
    assert(enc_alg(x) == enc_alg(y));
    lemma_alg_inj(x, y);
    lemma_tlv_inj(0x03, seq![0u8] + sx, 0x03, seq![0u8] + sy);
    assert(sx =~= sy) by {
        assert((seq![0u8] + sx).drop_first() =~= sx);
        assert((seq![0u8] + sy).drop_first() =~= sy);
    }
}

/// The round-trip keystone: two well-formed certificates of reasonable
/// size with the same DER encoding are the same certificate.  With the
/// decoder's soundness, whatever decoding an encoding yields is the
/// encoded value itself.
#[verifier::rlimit(100)]
pub proof fn lemma_enc_certificate_injective(a: SpecCertificate, b: SpecCertificate)
    requires
        wf_certificate(a),
        wf_certificate(b),
        enc_certificate(a) == enc_certificate(b),
        fits(enc_certificate(a)),
    ensures
        a == b,
{
    lemma_cert_parts(a, b);
    assert(fits(enc_alg(a.signature_algorithm) + spec_tlv(0x03, seq![0u8] + a.signature))) by {
        let siga = spec_tlv(0x03, seq![0u8] + a.signature);
        let ca = enc_tbs(a.tbs_certificate) + enc_alg(a.signature_algorithm) + siga;
        lemma_assoc3(enc_tbs(a.tbs_certificate), enc_alg(a.signature_algorithm), siga);
        lemma_tlv_len(0x30, ca);
    }
    lemma_alg_sig_inj(a.signature_algorithm, a.signature, b.signature_algorithm, b.signature);
    assert(a =~= b);
}


/// Round trip, structurally: when decoding succeeds on the encoding of a
/// well-formed certificate, the decoded value is that certificate.  The
/// decoder's contract gives `data == enc_certificate(decoded)`; the
/// encoder's gives `data == enc_certificate(original)`; nothing else can
/// satisfy both.
pub proof fn lemma_round_trip(original: SpecCertificate, decoded: SpecCertificate, data: Seq<u8>)
    requires
        wf_certificate(original),
        wf_certificate(decoded),
        data == enc_certificate(original),
        data == enc_certificate(decoded),
        data.len() < pow256(8),
    ensures
        decoded == original,
{
    lemma_enc_certificate_injective(decoded, original);
}

} // verus!

//! DER primitives: definite-length tag-length-value framing.
//!
//! `spec_tlv` is the mathematical form of one DER element; the executable
//! reader and writer are proved against it.

use vstd::prelude::*;

verus! {

/// Big-endian base-256 value of a byte string.
pub open spec fn be_value(s: Seq<u8>) -> nat
    decreases s.len(),
{
    if s.len() == 0 {
        0
    } else {
        be_value(s.drop_last()) * 256 + s.last() as nat
    }
}

/// The big-endian bytes of `n`, exactly `k` bytes long (truncating above 256^k).
pub open spec fn be_bytes(n: nat, k: nat) -> Seq<u8>
    decreases k,
{
    if k == 0 {
        Seq::empty()
    } else {
        be_bytes(n / 256, (k - 1) as nat).push((n % 256) as u8)
    }
}

/// 256^k.
pub open spec fn pow256(k: nat) -> nat
    decreases k,
{
    if k == 0 {
        1
    } else {
        256 * pow256((k - 1) as nat)
    }
}

/// The least number of base-256 digits that hold `n`.
pub open spec fn be_len(n: nat) -> nat
    decreases n,
{
    if n < 256 {
        1
    } else {
        1 + be_len(n / 256)
    }
}

/// DER definite-length encoding of a content length.
pub open spec fn spec_len_bytes(n: nat) -> Seq<u8> {
    if n < 0x80 {
        seq![n as u8]
    } else {
        seq![(0x80 + be_len(n)) as u8] + be_bytes(n, be_len(n))
    }
}

/// One DER element: tag byte, definite length, contents.
pub open spec fn spec_tlv(tag: u8, c: Seq<u8>) -> Seq<u8> {
    seq![tag] + spec_len_bytes(c.len()) + c
}

/// The concrete values of the small powers of 256.
pub proof fn lemma_pow256_vals()
    ensures
        pow256(0nat) == 1,
        pow256(1nat) == 256,
        pow256(2nat) == 0x1_0000,
        pow256(3nat) == 0x100_0000,
        pow256(4nat) == 0x1_0000_0000,
        pow256(5nat) == 0x100_0000_0000,
        pow256(6nat) == 0x1_0000_0000_0000,
        pow256(7nat) == 0x100_0000_0000_0000,
        pow256(8nat) == 0x1_0000_0000_0000_0000,
{
    assert(pow256(0nat) == 1);
    assert(pow256(1nat) == 256);
    assert(pow256(2nat) == 0x1_0000);
    assert(pow256(3nat) == 0x100_0000);
    assert(pow256(4nat) == 0x1_0000_0000);
    assert(pow256(5nat) == 0x100_0000_0000);
    assert(pow256(6nat) == 0x1_0000_0000_0000);
    assert(pow256(7nat) == 0x100_0000_0000_0000);
    assert(pow256(8nat) == 0x1_0000_0000_0000_0000);
}

pub proof fn lemma_pow256_pos(k: nat)
    ensures
        pow256(k) >= 1,
    decreases k,
{
    if k > 0 {
        lemma_pow256_pos((k - 1) as nat);
    }
}

pub proof fn lemma_be_value_bound(s: Seq<u8>)
    ensures
        be_value(s) < pow256(s.len()),
    decreases s.len(),
{
    if s.len() > 0 {
        lemma_be_value_bound(s.drop_last());
        assert(be_value(s.drop_last()) * 256 + s.last() < pow256(s.len())) by (nonlinear_arith)
            requires
                be_value(s.drop_last()) < pow256((s.len() - 1) as nat),
                s.last() < 256,
                pow256(s.len()) == 256 * pow256((s.len() - 1) as nat),
        ;
    }
}

/// A byte string with a nonzero first byte has a value needing all its digits.
pub proof fn lemma_be_value_lower(s: Seq<u8>)
    requires
        s.len() > 0,
        s[0] != 0,
    ensures
        be_value(s) >= pow256((s.len() - 1) as nat),
    decreases s.len(),
{
    if s.len() == 1 {
        assert(be_value(s) == be_value(s.drop_last()) * 256 + s.last());
        assert(s.drop_last().len() == 0);
        assert(be_value(s) == s[0] as nat);
    } else {
        let d = s.drop_last();
        assert(d[0] == s[0]);
        lemma_be_value_lower(d);
        assert(be_value(d) * 256 + s.last() >= pow256((s.len() - 1) as nat)) by (nonlinear_arith)
            requires
                be_value(d) >= pow256((s.len() - 2) as nat),
                pow256((s.len() - 1) as nat) == 256 * pow256((s.len() - 2) as nat),
        ;
    }
}

/// `be_len` is characterised by the power-of-256 window.
pub proof fn lemma_be_len_window(n: nat, k: nat)
    requires
        k >= 1,
        pow256((k - 1) as nat) <= n || k == 1,
        n < pow256(k),
    ensures
        be_len(n) == k,
    decreases k,
{
    if k == 1 {
        lemma_pow256_vals();
    } else {
        assert(pow256((k - 1) as nat) >= 256) by {
            lemma_pow256_pos((k - 2) as nat);
        }
        assert(n >= 256);
        assert(pow256((k - 2) as nat) <= n / 256 && n / 256 < pow256((k - 1) as nat))
            by (nonlinear_arith)
            requires
                n >= pow256((k - 1) as nat),
                n < pow256(k),
                pow256((k - 1) as nat) == 256 * pow256((k - 2) as nat),
                pow256(k) == 256 * pow256((k - 1) as nat),
        ;
        lemma_be_len_window(n / 256, (k - 1) as nat);
    }
}

/// Reading back the big-endian digits of a value gives the digits.
pub proof fn lemma_be_bytes_of_value(s: Seq<u8>)
    ensures
        be_bytes(be_value(s), s.len()) == s,
    decreases s.len(),
{
    if s.len() > 0 {
        let d = s.drop_last();
        lemma_be_bytes_of_value(d);
        let n = be_value(s);
        assert(n == be_value(d) * 256 + s.last());
        assert(n / 256 == be_value(d) && n % 256 == s.last() as nat) by (nonlinear_arith)
            requires
                n == be_value(d) * 256 + s.last(),
                s.last() < 256,
        ;
        assert(be_bytes(n, s.len()) == be_bytes(be_value(d), d.len()).push(s.last()));
        assert(be_bytes(n, s.len()) =~= s);
    }
}

/// The digits of a value read back to the value.
pub proof fn lemma_be_value_of_bytes(n: nat, k: nat)
    requires
        n < pow256(k),
    ensures
        be_value(be_bytes(n, k)) == n,
    decreases k,
{
    if k == 0 {
    } else {
        assert(n / 256 < pow256((k - 1) as nat)) by (nonlinear_arith)
            requires
                n < pow256(k),
                pow256(k) == 256 * pow256((k - 1) as nat),
        ;
        lemma_be_value_of_bytes(n / 256, (k - 1) as nat);
        let b = be_bytes(n, k);
        assert(b.drop_last() =~= be_bytes(n / 256, (k - 1) as nat));
        assert(be_value(b) == (n / 256) * 256 + n % 256);
        assert((n / 256) * 256 + n % 256 == n) by (nonlinear_arith);
    }
}

/// Functional reading of a length at `pos` (after the tag): the decoded
/// content length and the position just after the length bytes.  Enforces
/// minimal (DER) length encodings.
pub open spec fn spec_read_len(s: Seq<u8>, pos: int) -> Option<(nat, int)> {
    if 0 <= pos < s.len() {
        let b0 = s[pos];
        if b0 < 0x80 {
            Some((b0 as nat, pos + 1))
        } else {
            let k = (b0 - 0x80) as nat;
            if 1 <= k <= 8 && pos + 1 + k <= s.len() {
                let l = be_value(s.subrange(pos + 1, pos + 1 + k));
                if be_len(l) == k && l >= 0x80 {
                    Some((l, pos + 1 + k))
                } else {
                    None
                }
            } else {
                None
            }
        }
    } else {
        None
    }
}

/// Functional reading of one element at `pos`: its tag, the bounds of its
/// contents, both within `s`.
pub open spec fn spec_read_tlv(s: Seq<u8>, pos: int) -> Option<(u8, int, int)> {
    if 0 <= pos < s.len() {
        match spec_read_len(s, pos + 1) {
            Some((l, cs)) => if cs + l <= s.len() {
                Some((s[pos], cs, cs + l))
            } else {
                None
            },
            None => None,
        }
    } else {
        None
    }
}

/// Soundness: a successful read decomposes the bytes as one `spec_tlv`.
pub proof fn lemma_read_tlv_sound(s: Seq<u8>, pos: int)
    requires
        spec_read_tlv(s, pos) is Some,
    ensures
        ({
            let (tag, cs, ce) = spec_read_tlv(s, pos)->Some_0;
            &&& pos < cs <= ce <= s.len()
            &&& tag == s[pos]
            &&& s.subrange(pos, ce) == spec_tlv(tag, s.subrange(cs, ce))
        }),
{
    let (tag, cs, ce) = spec_read_tlv(s, pos)->Some_0;
    let c = s.subrange(cs, ce);
    let b0 = s[pos + 1];
    if b0 < 0x80 {
        assert(c.len() == b0 as nat);
        assert(s.subrange(pos, ce) =~= spec_tlv(tag, c));
    } else {
        let k = (b0 - 0x80) as nat;
        let lb = s.subrange(pos + 2, pos + 2 + k);
        let l = be_value(lb);
        assert(c.len() == l);
        assert(be_len(l) == k);
        lemma_be_bytes_of_value(lb);
        assert(be_bytes(l, k) == lb);
        assert(spec_len_bytes(l) == seq![(0x80 + k) as u8] + lb);
        assert(s.subrange(pos, ce) =~= spec_tlv(tag, c));
    }
}

/// Append the DER length encoding of `n` to `out`.
pub fn encode_len(out: &mut Vec<u8>, n: usize)
    ensures
        final(out)@ == old(out)@ + spec_len_bytes(n as nat),
{
    if n < 0x80 {
        out.push(n as u8);
        assert(out@ =~= old(out)@ + spec_len_bytes(n as nat));
    } else {
        let n64 = n as u64;
        let k: usize = if n64 < 0x100 {
            1
        } else if n64 < 0x1_0000 {
            2
        } else if n64 < 0x100_0000 {
            3
        } else if n64 < 0x1_0000_0000 {
            4
        } else if n64 < 0x100_0000_0000 {
            5
        } else if n64 < 0x1_0000_0000_0000 {
            6
        } else if n64 < 0x100_0000_0000_0000 {
            7
        } else {
            8
        };
        proof {
            lemma_pow256_vals();
            lemma_be_len_window(n as nat, k as nat);
        }
        out.push(0x80 + k as u8);
        push_be_bytes(out, n64, k);
        proof {
            assert(out@ =~= old(out)@ + spec_len_bytes(n as nat));
        }
    }
}

/// Append the `k`-byte big-endian form of `n` to `out`.
fn push_be_bytes(out: &mut Vec<u8>, n: u64, k: usize)
    requires
        k <= 8,
    ensures
        final(out)@ == old(out)@ + be_bytes(n as nat, k as nat),
    decreases k,
{
    if k == 0 {
        assert(out@ =~= old(out)@ + be_bytes(n as nat, 0));
    } else {
        push_be_bytes(out, n / 256, k - 1);
        out.push((n % 256) as u8);
        assert(out@ =~= old(out)@ + be_bytes(n as nat, k as nat));
    }
}

/// Wrap `body` as one DER element with the given tag.
pub fn wrap_tlv(tag: u8, body: Vec<u8>) -> (r: Vec<u8>)
    ensures
        r@ == spec_tlv(tag, body@),
{
    let mut out: Vec<u8> = Vec::new();
    out.push(tag);
    encode_len(&mut out, body.len());
    let mut b = body;
    out.append(&mut b);
    proof {
        assert(out@ =~= spec_tlv(tag, body@));
    }
    out
}

/// Read one DER element header at `pos`: the tag and the bounds of the
/// contents.  Mirrors `spec_read_tlv` exactly.
pub fn read_tlv(data: &[u8], pos: usize) -> (r: Option<(u8, usize, usize)>)
    ensures
        ({
            let m = spec_read_tlv(data@, pos as int);
            match r {
                Some((tag, cs, ce)) => m == Some((tag, cs as int, ce as int)),
                None => m is None,
            }
        }),
{
    if pos >= data.len() {
        return None;
    }
    let tag = data[pos];
    if pos + 1 >= data.len() {
        return None;
    }
    let b0 = data[pos + 1];
    if b0 < 0x80 {
        let l = b0 as usize;
        if l <= data.len() - (pos + 2) {
            Some((tag, pos + 2, pos + 2 + l))
        } else {
            None
        }
    } else {
        let k = (b0 - 0x80) as usize;
        if k < 1 || k > 8 {
            return None;
        }
        if k > data.len() - (pos + 2) {
            return None;
        }
        // Accumulate the big-endian length value.
        let mut acc: u64 = 0;
        let mut i: usize = 0;
        while i < k
            invariant
                i <= k <= 8,
                pos + 2 + k <= data.len(),
                acc == be_value(data@.subrange(pos + 2, pos + 2 + i as int)),
                acc < pow256(i as nat),
            decreases k - i,
        {
            proof {
                lemma_pow256_pos(7nat);
                assert(pow256(i as nat) <= pow256(8nat)) by {
                    lemma_pow256_mono(i as nat, 8nat);
                }
                lemma_pow256_vals();
            }
            let b = data[pos + 2 + i];
            proof {
                let sub1 = data@.subrange(pos + 2, pos + 2 + (i + 1) as int);
                assert(sub1.drop_last() =~= data@.subrange(pos + 2, pos + 2 + i as int));
                assert(sub1.last() == b);
                assert(acc * 256 + b < 256 * pow256(i as nat)) by (nonlinear_arith)
                    requires
                        acc < pow256(i as nat),
                        b < 256,
                ;
                assert(acc * 256 < pow256(8nat)) by (nonlinear_arith)
                    requires
                        acc * 256 + b < 256 * pow256(i as nat),
                        256 * pow256(i as nat) <= 256 * pow256(7nat),
                        256 * pow256(7nat) == pow256(8nat),
                        i < 8,
                        pow256(i as nat) <= pow256(7nat),
                ;
            }
            acc = acc * 256 + b as u64;
            i = i + 1;
        }
        let lb_first = data[pos + 2];
        proof {
            let lb = data@.subrange(pos + 2, pos + 2 + k as int);
            if lb_first != 0 {
                lemma_be_value_lower(lb);
                lemma_be_value_bound(lb);
                lemma_be_len_window(acc as nat, k as nat);
                if k >= 2 {
                    assert(pow256((k - 1) as nat) >= 256) by {
                        lemma_pow256_vals();
                        lemma_pow256_mono(1nat, (k - 1) as nat);
                    }
                }
            } else {
                // Leading zero: the encoding is not minimal.
                if k >= 2 {
                    lemma_be_value_bound(lb.subrange(1, k as int));
                    lemma_be_value_leading_zero(lb);
                    if be_len(acc as nat) == k {
                        lemma_be_len_window_rev(acc as nat, k as nat);
                    }
                }
            }
        }
        let minimal = if k == 1 {
            acc >= 0x80
        } else {
            lb_first != 0
        };
        if !minimal {
            return None;
        }
        if acc > (data.len() - (pos + 2 + k)) as u64 {
            return None;
        }
        let l = acc as usize;
        Some((tag, pos + 2 + k, pos + 2 + k + l))
    }
}

pub proof fn lemma_pow256_mono(a: nat, b: nat)
    requires
        a <= b,
    ensures
        pow256(a) <= pow256(b),
    decreases b,
{
    if a < b {
        lemma_pow256_mono(a, (b - 1) as nat);
        lemma_pow256_pos((b - 1) as nat);
    }
}

/// A byte string with a leading zero has the value of its tail.
pub proof fn lemma_be_value_leading_zero(s: Seq<u8>)
    requires
        s.len() >= 1,
        s[0] == 0,
    ensures
        be_value(s) == be_value(s.subrange(1, s.len() as int)),
        be_value(s) < pow256((s.len() - 1) as nat),
    decreases s.len(),
{
    if s.len() == 1 {
        assert(be_value(s) == be_value(s.drop_last()) * 256 + s.last());
        assert(s.subrange(1, 1).len() == 0);
    } else {
        let d = s.drop_last();
        lemma_be_value_leading_zero(d);
        let t = s.subrange(1, s.len() as int);
        assert(t.drop_last() =~= d.subrange(1, d.len() as int));
        assert(t.last() == s.last());
        assert(be_value(s) == be_value(d) * 256 + s.last());
        assert(be_value(t) == be_value(t.drop_last()) * 256 + t.last());
        assert(be_value(d) * 256 + s.last() < 256 * pow256((s.len() - 2) as nat))
            by (nonlinear_arith)
            requires
                be_value(d) < pow256((s.len() - 2) as nat),
                s.last() < 256,
        ;
    }
}

/// If a value fits in k-1 digits then its minimal digit count is below k.
pub proof fn lemma_be_len_window_rev(n: nat, k: nat)
    requires
        k >= 2,
        n < pow256((k - 1) as nat),
    ensures
        be_len(n) < k,
    decreases k,
{
    if k == 2 {
        assert(pow256(1nat) == 256);
    } else {
        if n < 256 {
        } else {
            assert(n / 256 < pow256((k - 2) as nat)) by (nonlinear_arith)
                requires
                    n < pow256((k - 1) as nat),
                    pow256((k - 1) as nat) == 256 * pow256((k - 2) as nat),
            ;
            lemma_be_len_window_rev(n / 256, (k - 1) as nat);
        }
    }
}

} // verus!

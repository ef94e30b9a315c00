//! PEM armoring and de-armoring, through the `pem` crate.
//!
//! What `pem` computes is a function of its input alone; each result is
//! given a name that the library's contracts speak of.

use vstd::prelude::*;

verus! {

/// The first PEM block of the input: its tag (as ASCII bytes) and its
/// decoded contents.
pub uninterp spec fn pem_first_of(data: Seq<u8>) -> Option<(Seq<u8>, Seq<u8>)>;

/// Every PEM block of the input, in order: tag bytes and decoded contents.
pub uninterp spec fn pem_blocks_of(data: Seq<u8>) -> Seq<(Seq<u8>, Seq<u8>)>;

/// The PEM armoring of contents under a tag.
pub uninterp spec fn pem_armor(tag: Seq<char>, contents: Seq<u8>) -> Seq<char>;

/// Relies on pem::parse: the first PEM block, a function of the input alone.
#[verifier::external_body]
pub fn pem_parse_first(data: &[u8]) -> (r: Option<(Vec<u8>, Vec<u8>)>)
    ensures
        r matches Some((t, c)) ==> pem_first_of(data@) == Some((t@, c@)),
        r is None ==> pem_first_of(data@) is None,
{
    match pem::parse(data) {
        Ok(p) => Some((p.tag().as_bytes().to_vec(), p.into_contents())),
        Err(_) => None,
    }
}

/// Relies on pem::parse_many: all PEM blocks, a function of the input alone.
#[verifier::external_body]
pub fn pem_parse_blocks(data: &[u8]) -> (r: Option<Vec<(Vec<u8>, Vec<u8>)>>)
    ensures
        r matches Some(v) ==> {
            &&& v@.len() == pem_blocks_of(data@).len()
            &&& forall|i: int|
                0 <= i < v@.len() ==> (#[trigger] v@[i]).0@ == pem_blocks_of(data@)[i].0 && v@[
                    i
                ].1@ == pem_blocks_of(data@)[i].1
        },
{
    match pem::parse_many(data) {
        Ok(blocks) => Some(
            blocks
                .into_iter()
                .map(|p| (p.tag().as_bytes().to_vec(), p.into_contents()))
                .collect(),
        ),
        Err(_) => None,
    }
}

/// Relies on pem::encode: deterministic armoring of contents under a tag.
#[verifier::external_body]
pub fn pem_encode_block(tag: &str, contents: &[u8]) -> (r: String)
    ensures
        r@ == pem_armor(tag@, contents@),
{
    pem::encode(&pem::Pem::new(tag, contents))
}

/// The ASCII bytes of the tag under which certificates are armored.
pub open spec fn spec_certificate_tag() -> Seq<u8> {
    seq![0x43u8, 0x45, 0x52, 0x54, 0x49, 0x46, 0x49, 0x43, 0x41, 0x54, 0x45]
}

pub fn certificate_tag() -> (r: Vec<u8>)
    ensures
        r@ == spec_certificate_tag(),
{
    let mut v: Vec<u8> = Vec::new();
    v.push(0x43);
    v.push(0x45);
    v.push(0x52);
    v.push(0x54);
    v.push(0x49);
    v.push(0x46);
    v.push(0x49);
    v.push(0x43);
    v.push(0x41);
    v.push(0x54);
    v.push(0x45);
    proof {
        assert(v@ =~= spec_certificate_tag());
    }
    v
}

} // verus!

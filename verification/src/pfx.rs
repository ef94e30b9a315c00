//! PKCS#12 (PFX) extraction: authenticate a container with a password,
//! decrypt its nested content, and extract exactly one certificate and one
//! signing key.
//!
//! The container parsing, MAC and decryption are done by `p12` and
//! `yasna`.  Every stage's outcome is a function of the container bytes
//! and the password alone and is given a name; the decisions between the
//! stages are verified, and `spec_pfx_scan` states, over those names, what
//! extraction yields (the last certificate and the last key win).

use vstd::prelude::*;

use crate::certificate::CapturedX509Certificate;
use crate::errors::X509CertificateError;
use crate::keys::InMemorySigningKeyPair;
use crate::model::{enc_certificate, wf_certificate};

verus! {

// ---------------------------------------------------------------------------
// Named results of the container stages
// ---------------------------------------------------------------------------

/// Whether the bytes parse as a PFX container.
pub uninterp spec fn pfx_parses(data: Seq<u8>) -> bool;

/// Whether the container's integrity MAC matches the password.
pub uninterp spec fn pfx_mac_ok(data: Seq<u8>, password: Seq<char>) -> bool;

/// The authSafe payload, when the container's authSafe is plain Data.
pub uninterp spec fn pfx_payload(data: Seq<u8>) -> Option<Seq<u8>>;

/// What the inner content-info sequence of an authSafe payload yields
/// under a password: `None` when the sequence does not parse; per item,
/// `Ok(bytes)` for plain Data or an EncryptedData that decrypts, `Err(0)`
/// for an EncryptedData that does not, `Err(1)` for any other kind.
pub uninterp spec fn ci_payloads_of(payload: Seq<u8>, bmp_password: Seq<u8>) -> Option<
    Seq<Result<Seq<u8>, int>>,
>;

/// What the SafeBag sequence of one decrypted blob yields under a
/// password: `None` when the sequence does not parse; per bag,
/// `Ok((0, der))` for an X.509 certificate bag, `Ok((1, pkcs8))` for a
/// shrouded key bag that decrypts, `Err(0)` for an SDSI certificate bag,
/// `Err(1)` for a shrouded key bag that does not decrypt, `Err(2)` for any
/// other bag kind.
pub uninterp spec fn bag_payloads_of(blob: Seq<u8>, bmp_password: Seq<u8>) -> Option<
    Seq<Result<(int, Seq<u8>), int>>,
>;

// ---------------------------------------------------------------------------
// Trusted wrappers around p12 and yasna
// ---------------------------------------------------------------------------

/// Relies on p12::PFX::parse, p12::PFX::verify_mac and the PFX.auth_safe
/// field.  Whether the bytes parse, whether the MAC matches, and the
/// plain-Data authSafe payload are each functions of the container bytes
/// (and the password); they are read in one call so that each can be
/// stated over those bytes rather than over an opaque parsed value.  A
/// container without MAC data passes p12's check under every password.
/// p12's parsers carry debug assertions on some malformed inputs; the
/// clauses hold of builds with debug assertions disabled, where those
/// inputs come back as errors.
#[verifier::external_body]
fn pfx_open(data: &[u8], password: &str) -> (r: Option<(bool, Option<Vec<u8>>)>)
    ensures
        r is Some <==> pfx_parses(data@),
        r matches Some((mac, payload)) ==> {
            &&& mac == pfx_mac_ok(data@, password@)
            &&& match payload {
                Some(p) => pfx_payload(data@) == Some(p@),
                None => pfx_payload(data@) is None,
            }
        },
{
    match p12::PFX::parse(data) {
        Ok(pfx) => {
            let mac = pfx.verify_mac(password);
            let payload = match &pfx.auth_safe {
                p12::ContentInfo::Data(d) => Some(d.clone()),
                _ => None,
            };
            Some((mac, payload))
        },
        Err(_) => None,
    }
}

/// What one inner content-info yields.
pub enum CiPayload {
    /// Plain Data content, or EncryptedData decrypted with the password.
    Payload(Vec<u8>),
    /// EncryptedData content that would not decrypt.
    DecryptFailed,
    /// A content-info kind outside the recognized subset.
    OtherKind,
}

/// Relies on yasna::parse_der with p12::ContentInfo::parse, and on
/// p12::EncryptedData::data for the encrypted items: the whole stage is a
/// deterministic function of the payload bytes and the password, named by
/// `ci_payloads_of`.  p12's parsers carry debug assertions on some
/// malformed inputs; the clauses hold of builds with debug assertions
/// disabled.
#[verifier::external_body]
fn open_content_infos(payload: &[u8], bmp_password: &[u8]) -> (r: Option<Vec<CiPayload>>)
    ensures
        r is Some <==> ci_payloads_of(payload@, bmp_password@) is Some,
        r matches Some(v) ==> {
            let m = ci_payloads_of(payload@, bmp_password@)->Some_0;
            &&& v@.len() == m.len()
            &&& forall|i: int|
                0 <= i < v@.len() ==> match #[trigger] v@[i] {
                    CiPayload::Payload(d) => m[i] == Ok::<Seq<u8>, int>(d@),
                    CiPayload::DecryptFailed => m[i] == Err::<Seq<u8>, int>(0),
                    CiPayload::OtherKind => m[i] == Err::<Seq<u8>, int>(1),
                }
        },
{
    let cis = yasna::parse_der(payload, |reader| reader.collect_sequence_of(p12::ContentInfo::parse)).ok()?;
    Some(cis.into_iter().map(|ci| match ci {
        p12::ContentInfo::Data(d) => CiPayload::Payload(d),
        p12::ContentInfo::EncryptedData(e) => match e.data(bmp_password) {
            Some(v) => CiPayload::Payload(v),
            None => CiPayload::DecryptFailed,
        },
        p12::ContentInfo::OtherContext(_) => CiPayload::OtherKind,
    }).collect())
}

/// What one SafeBag holds.
pub enum BagPayload {
    /// An X.509 certificate bag: the DER bytes of the certificate.
    CertX509(Vec<u8>),
    /// An SDSI certificate bag (not accepted).
    CertSdsi,
    /// A PKCS#8-shrouded key bag, decrypted with the password.
    Key(Vec<u8>),
    /// A shrouded key bag that would not decrypt.
    KeyDecryptFailed,
    /// A bag kind outside the recognized subset.
    OtherKind,
}

/// Relies on yasna::parse_ber with p12::SafeBag::parse, and on
/// p12::EncryptedPrivateKeyInfo::decrypt for shrouded key bags: the whole
/// stage is a deterministic function of the blob bytes and the password,
/// named by `bag_payloads_of`.
#[verifier::external_body]
fn open_safe_bags(blob: &[u8], bmp_password: &[u8]) -> (r: Option<Vec<BagPayload>>)
    ensures
        r is Some <==> bag_payloads_of(blob@, bmp_password@) is Some,
        r matches Some(v) ==> {
            let m = bag_payloads_of(blob@, bmp_password@)->Some_0;
            &&& v@.len() == m.len()
            &&& forall|i: int|
                0 <= i < v@.len() ==> match #[trigger] v@[i] {
                    BagPayload::CertX509(d) => m[i] == Ok::<(int, Seq<u8>), int>((0int, d@)),
                    BagPayload::Key(d) => m[i] == Ok::<(int, Seq<u8>), int>((1int, d@)),
                    BagPayload::CertSdsi => m[i] == Err::<(int, Seq<u8>), int>(0),
                    BagPayload::KeyDecryptFailed => m[i] == Err::<(int, Seq<u8>), int>(1),
                    BagPayload::OtherKind => m[i] == Err::<(int, Seq<u8>), int>(2),
                }
        },
{
    let bags = yasna::parse_ber(blob, |reader| reader.collect_sequence_of(p12::SafeBag::parse)).ok()?;
    Some(bags.into_iter().map(|bag| match bag.bag {
        p12::SafeBagKind::CertBag(p12::CertBag::X509(x)) => BagPayload::CertX509(x),
        p12::SafeBagKind::CertBag(p12::CertBag::SDSI(_)) => BagPayload::CertSdsi,
        p12::SafeBagKind::Pkcs8ShroudedKeyBag(kb) => match kb.decrypt(bmp_password) {
            Some(d) => BagPayload::Key(d),
            None => BagPayload::KeyDecryptFailed,
        },
        p12::SafeBagKind::OtherBagKind(_) => BagPayload::OtherKind,
    }).collect())
}

// ---------------------------------------------------------------------------
// BMP (UTF-16BE, NUL-terminated) password encoding
// ---------------------------------------------------------------------------

/// The UTF-16 code units of a string.
pub uninterp spec fn utf16_units_of(s: Seq<char>) -> Seq<u16>;

/// Relies on str::encode_utf16: the UTF-16 code units of a string, a
/// function of its characters alone.
#[verifier::external_body]
fn utf16_units(s: &str) -> (r: Vec<u16>)
    ensures
        r@ == utf16_units_of(s@),
{
    s.encode_utf16().collect()
}

/// UTF-16 code units as big-endian byte pairs.
pub open spec fn spec_bmp_units(u: Seq<u16>) -> Seq<u8>
    decreases u.len(),
{
    if u.len() == 0 {
        Seq::empty()
    } else {
        spec_bmp_units(u.drop_last()) + seq![(u.last() / 256) as u8, (u.last() % 256) as u8]
    }
}

/// The BMP encoding of a password: UTF-16BE code units followed by a
/// two-byte NUL terminator.
pub open spec fn spec_bmp_string(s: Seq<char>) -> Seq<u8> {
    spec_bmp_units(utf16_units_of(s)) + seq![0u8, 0u8]
}

/// Encode a password as PKCS#12 wants it: UTF-16BE with a NUL terminator.
pub fn bmp_string(s: &str) -> (r: Vec<u8>)
    ensures
        r@ == spec_bmp_string(s@),
{
    let units = utf16_units(s);
    let mut bytes: Vec<u8> = Vec::new();
    let n = units.len();
    for i in 0..n
        invariant
            n == units.len(),
            units@ == utf16_units_of(s@),
            bytes@ == spec_bmp_units(units@.subrange(0, i as int)),
    {
        let c = units[i];
        proof {
            let pre = units@.subrange(0, i + 1);
            assert(pre.drop_last() =~= units@.subrange(0, i as int));
            assert(pre.last() == c);
        }
        bytes.push((c / 256) as u8);
        bytes.push((c % 256) as u8);
        proof {
            assert(bytes@ =~= spec_bmp_units(units@.subrange(0, i + 1)));
        }
    }
    bytes.push(0x00);
    bytes.push(0x00);
    proof {
        assert(units@.subrange(0, n as int) =~= units@);
        assert(bytes@ =~= spec_bmp_string(s@));
    }
    bytes
}

// ---------------------------------------------------------------------------
// What extraction yields, over the named stage results
// ---------------------------------------------------------------------------

/// Fold one blob's bags into the certificate/key slots: later bags
/// overwrite earlier ones (last wins); any rejected bag aborts.
pub open spec fn scan_bags(
    bags: Seq<Result<(int, Seq<u8>), int>>,
    cert: Option<Seq<u8>>,
    key: Option<Seq<u8>>,
) -> Option<(Option<Seq<u8>>, Option<Seq<u8>>)>
    decreases bags.len(),
{
    if bags.len() == 0 {
        Some((cert, key))
    } else {
        match bags[0] {
            Ok((kind, bytes)) => if kind == 0 {
                scan_bags(bags.drop_first(), Some(bytes), key)
            } else if kind == 1 {
                scan_bags(bags.drop_first(), cert, Some(bytes))
            } else {
                None
            },
            Err(_) => None,
        }
    }
}

/// Fold every content-info's bags in order; any rejected item aborts.
pub open spec fn scan_content_infos(
    cis: Seq<Result<Seq<u8>, int>>,
    bmp: Seq<u8>,
    cert: Option<Seq<u8>>,
    key: Option<Seq<u8>>,
) -> Option<(Option<Seq<u8>>, Option<Seq<u8>>)>
    decreases cis.len(),
{
    if cis.len() == 0 {
        Some((cert, key))
    } else {
        match cis[0] {
            Ok(blob) => match bag_payloads_of(blob, bmp) {
                Some(bags) => match scan_bags(bags, cert, key) {
                    Some((c2, k2)) => scan_content_infos(cis.drop_first(), bmp, c2, k2),
                    None => None,
                },
                None => None,
            },
            Err(_) => None,
        }
    }
}

/// The certificate bytes and PKCS#8 key bytes a container yields under a
/// password, over the named stage results: `None` when any stage rejects.
/// The slots hold the last certificate bag and the last decrypted key bag
/// seen, in container order.
pub open spec fn spec_pfx_scan(data: Seq<u8>, password: Seq<char>) -> Option<
    (Option<Seq<u8>>, Option<Seq<u8>>),
> {
    if pfx_parses(data) && pfx_mac_ok(data, password) {
        match pfx_payload(data) {
            Some(payload) => match ci_payloads_of(payload, spec_bmp_string(password)) {
                Some(cis) => scan_content_infos(cis, spec_bmp_string(password), None, None),
                None => None,
            },
            None => None,
        }
    } else {
        None
    }
}

/// The certificate slot of an optional captured certificate.
pub open spec fn cert_slot(c: Option<CapturedX509Certificate>) -> Option<Seq<u8>> {
    match c {
        Some(x) => Some(x.original_bytes()),
        None => None,
    }
}

/// The key slot of an optional signing key.
pub open spec fn key_slot(k: Option<InMemorySigningKeyPair>) -> Option<Seq<u8>> {
    match k {
        Some(x) => Some(x.pkcs8_der@),
        None => None,
    }
}

// ---------------------------------------------------------------------------
// Extraction
// ---------------------------------------------------------------------------

/// Parse PFX data into a certificate and a signing key.
///
/// The container must parse; its MAC must match the password (a mismatch
/// is the distinct bad-password error, so callers can prompt again); its
/// authSafe must be plain Data; every inner content-info must be Data or
/// EncryptedData; every bag must be an X.509 certificate bag or a shrouded
/// key bag; and exactly one certificate and one key must be present (if
/// several are, the last of each wins).  On success the returned pair is
/// exactly what `spec_pfx_scan` names, so two calls on the same bytes and
/// password return the same certificate bytes and key material; when the
/// scan yields both slots, only a certificate or key that fails to decode
/// stands between the caller and success.
pub fn parse_pfx_data(data: &[u8], password: &str) -> (r: Result<
    (CapturedX509Certificate, InMemorySigningKeyPair),
    X509CertificateError,
>)
    ensures
        !pfx_parses(data@) ==> r == Err::<
            (CapturedX509Certificate, InMemorySigningKeyPair),
            _,
        >(X509CertificateError::PfxParse),
        r == Err::<(CapturedX509Certificate, InMemorySigningKeyPair), _>(
            X509CertificateError::PfxBadPassword,
        ) <==> (pfx_parses(data@) && !pfx_mac_ok(data@, password@)),
        (pfx_parses(data@) && pfx_mac_ok(data@, password@) && pfx_payload(data@) is None) ==> r
            == Err::<
            (CapturedX509Certificate, InMemorySigningKeyPair),
            _,
        >(X509CertificateError::PfxParse),
        (pfx_parses(data@) && pfx_mac_ok(data@, password@) && (pfx_payload(data@) matches Some(p)
            && ci_payloads_of(p, spec_bmp_string(password@)) is None)) ==> r == Err::<
            (CapturedX509Certificate, InMemorySigningKeyPair),
            _,
        >(X509CertificateError::PfxParse),
        r matches Ok((cert, key)) ==> {
            &&& spec_pfx_scan(data@, password@) == Some(
                (Some(cert.original_bytes()), Some(key.pkcs8_der@)),
            )
            &&& cert.original_bytes() == enc_certificate(cert.parsed())
            &&& wf_certificate(cert.parsed())
            &&& key.wf()
        },
        (spec_pfx_scan(data@, password@) matches Some(slots) && slots.0 is Some && slots.1
            is Some) ==> (r is Ok || r == Err::<
            (CapturedX509Certificate, InMemorySigningKeyPair),
            _,
        >(X509CertificateError::CertificateDecode) || r == Err::<
            (CapturedX509Certificate, InMemorySigningKeyPair),
            _,
        >(X509CertificateError::KeyDecode)),
        r == Err::<(CapturedX509Certificate, InMemorySigningKeyPair), _>(
            X509CertificateError::PfxMissingCertificate,
        ) ==> (spec_pfx_scan(data@, password@) matches Some(slots) && slots.0 is None
            && slots.1 is Some),
        r == Err::<(CapturedX509Certificate, InMemorySigningKeyPair), _>(
            X509CertificateError::PfxMissingKey,
        ) ==> (spec_pfx_scan(data@, password@) matches Some(slots) && slots.1 is None),
{
    let opened = pfx_open(data, password);
    let (mac, payload) = match opened {
        Some(x) => x,
        None => { return Err(X509CertificateError::PfxParse); },
    };
    if !mac {
        return Err(X509CertificateError::PfxBadPassword);
    }
    let payload = match payload {
        Some(p) => p,
        None => { return Err(X509CertificateError::PfxParse); },
    };
    let bmp_password = bmp_string(password);
    let content_infos = match open_content_infos(payload.as_slice(), bmp_password.as_slice()) {
        Some(x) => x,
        None => { return Err(X509CertificateError::PfxParse); },
    };
    let ghost bmp = spec_bmp_string(password@);
    let ghost cis_m = ci_payloads_of(payload@, bmp)->Some_0;

    let mut certificate: Option<CapturedX509Certificate> = None;
    let mut signing_key: Option<InMemorySigningKeyPair> = None;

    let n = content_infos.len();
    proof {
        assert(cis_m.subrange(0, n as int) =~= cis_m);
    }
    for i in 0..n
        invariant
            n == content_infos.len(),
            pfx_parses(data@),
            pfx_mac_ok(data@, password@),
            pfx_payload(data@) == Some(payload@),
            bmp == spec_bmp_string(password@),
            bmp_password@ == bmp,
            ci_payloads_of(payload@, bmp) == Some(cis_m),
            n == cis_m.len(),
            forall|k: int|
                0 <= k < n ==> match #[trigger] content_infos@[k] {
                    CiPayload::Payload(d) => cis_m[k] == Ok::<Seq<u8>, int>(d@),
                    CiPayload::DecryptFailed => cis_m[k] == Err::<Seq<u8>, int>(0),
                    CiPayload::OtherKind => cis_m[k] == Err::<Seq<u8>, int>(1),
                },
            scan_content_infos(cis_m, bmp, None, None) == scan_content_infos(
                cis_m.subrange(i as int, n as int),
                bmp,
                cert_slot(certificate),
                key_slot(signing_key),
            ),
            certificate matches Some(c) ==> c.original_bytes() == enc_certificate(c.parsed())
                && wf_certificate(c.parsed()),
            signing_key matches Some(k) ==> k.wf(),
    {
        let ghost rest = cis_m.subrange(i as int, n as int);
        proof {
            assert(rest[0] == cis_m[i as int]);
            assert(rest.drop_first() =~= cis_m.subrange(i + 1, n as int));
        }
        let bags_data = match &content_infos[i] {
            CiPayload::Payload(d) => d,
            CiPayload::DecryptFailed => { return Err(X509CertificateError::PfxParse); },
            CiPayload::OtherKind => { return Err(X509CertificateError::PfxParse); },
        };
        proof {
            assert(cis_m[i as int] == Ok::<Seq<u8>, int>(bags_data@));
        }
        let bags = match open_safe_bags(bags_data.as_slice(), bmp_password.as_slice()) {
            Some(b) => b,
            None => { return Err(X509CertificateError::PfxParse); },
        };
        let ghost bags_m = bag_payloads_of(bags_data@, bmp)->Some_0;
        let m = bags.len();
        proof {
            assert(bags_m.subrange(0, m as int) =~= bags_m);
            assert(scan_content_infos(rest, bmp, cert_slot(certificate), key_slot(signing_key))
                == (match scan_bags(bags_m, cert_slot(certificate), key_slot(signing_key)) {
                Some((c2, k2)) => scan_content_infos(cis_m.subrange(i + 1, n as int), bmp, c2, k2),
                None => None,
            }));
        }
        for j in 0..m
            invariant
                m == bags.len(),
                pfx_parses(data@),
                pfx_mac_ok(data@, password@),
                pfx_payload(data@) == Some(payload@),
                bmp == spec_bmp_string(password@),
                ci_payloads_of(payload@, bmp) == Some(cis_m),
                n == cis_m.len(),
                i < n,
                cis_m[i as int] == Ok::<Seq<u8>, int>(bags_data@),
                bag_payloads_of(bags_data@, bmp) == Some(bags_m),
                m == bags_m.len(),
                forall|k: int|
                    0 <= k < m ==> match #[trigger] bags@[k] {
                        BagPayload::CertX509(d) => bags_m[k] == Ok::<(int, Seq<u8>), int>(
                            (0int, d@),
                        ),
                        BagPayload::Key(d) => bags_m[k] == Ok::<(int, Seq<u8>), int>((1int, d@)),
                        BagPayload::CertSdsi => bags_m[k] == Err::<(int, Seq<u8>), int>(0),
                        BagPayload::KeyDecryptFailed => bags_m[k] == Err::<(int, Seq<u8>), int>(1),
                        BagPayload::OtherKind => bags_m[k] == Err::<(int, Seq<u8>), int>(2),
                    },
                scan_content_infos(cis_m, bmp, None, None) == (match scan_bags(
                    bags_m.subrange(j as int, m as int),
                    cert_slot(certificate),
                    key_slot(signing_key),
                ) {
                    Some((c2, k2)) => scan_content_infos(
                        cis_m.subrange(i + 1, n as int),
                        bmp,
                        c2,
                        k2,
                    ),
                    None => None,
                }),
                certificate matches Some(c) ==> c.original_bytes() == enc_certificate(c.parsed())
                    && wf_certificate(c.parsed()),
                signing_key matches Some(k) ==> k.wf(),
        {
            let ghost brest = bags_m.subrange(j as int, m as int);
            proof {
                assert(brest[0] == bags_m[j as int]);
                assert(brest.drop_first() =~= bags_m.subrange(j + 1, m as int));
            }
            match &bags[j] {
                BagPayload::CertX509(cert_data) => {
                    let copy = crate::encode::copy_range(cert_data.as_slice(), 0, cert_data.len());
                    proof {
                        assert(cert_data@.subrange(0, cert_data@.len() as int) =~= cert_data@);
                    }
                    match CapturedX509Certificate::from_der(copy) {
                        Ok(c) => {
                            certificate = Some(c);
                        },
                        Err(e) => { return Err(e); },
                    }
                },
                BagPayload::CertSdsi => { return Err(X509CertificateError::PfxParse); },
                BagPayload::Key(decrypted) => {
                    match InMemorySigningKeyPair::from_pkcs8_der(decrypted.as_slice()) {
                        Ok(k) => {
                            signing_key = Some(k);
                        },
                        Err(e) => { return Err(e); },
                    }
                },
                BagPayload::KeyDecryptFailed => { return Err(X509CertificateError::PfxParse); },
                BagPayload::OtherKind => { return Err(X509CertificateError::PfxParse); },
            }
        }
        proof {
            assert(bags_m.subrange(m as int, m as int).len() == 0);
        }
    }
    proof {
        assert(cis_m.subrange(n as int, n as int).len() == 0);
    }
    match (certificate, signing_key) {
        (Some(c), Some(k)) => Ok((c, k)),
        (None, Some(_)) => Err(X509CertificateError::PfxMissingCertificate),
        (_, None) => Err(X509CertificateError::PfxMissingKey),
    }
}

} // verus!

//! Signature checking and key identity.
//!
//! A device is trusted through exactly one P-256 public key, recorded at pairing time. Its
//! identity is derived from the key (SHA-256 over the re-encoded SPKI), never from the PEM
//! text or the clock.

use vstd::prelude::*;
use vstd::utf8::encode_utf8;
use crate::primitives::{
    p256_der_signature, p256_signature_verifies, p256_spki_der, sha256, sha256_digest,
    spki_der_from_pem, verify_p256,
};
use crate::text::{
    hex, hex_digit, hex_digit_upper, hex_lower, hex_string_upper, hex_upper, is_lower_hex, is_upper_hex,
    lemma_hex_lower, lemma_hex_upper, to_upper_hex,
};
use vstd::slice::slice_subrange;

verus! {

/// 128 bits of SHA-256 over the SPKI. Long enough that two devices cannot collide, so a
/// re-pair of the same phone overwrites its record instead of adding a second one.
pub const ID_BYTES: usize = 16;

/// 48 bits, rendered as three groups of four hex digits, read off two screens and compared
/// by eye: it identifies a device, it does not authenticate one.
pub const FINGERPRINT_BYTES: usize = 6;

/// An enrolled device key: a P-256 public key, held as its SPKI DER.
pub struct DeviceKey {
    spki: Vec<u8>,
}

impl View for DeviceKey {
    type V = Seq<u8>;

    closed spec fn view(&self) -> Seq<u8> {
        self.spki@
    }
}

impl DeviceKey {
    /// A device key from its SPKI DER, as produced by the key's own encoder.
    pub(crate) fn from_spki(spki: Vec<u8>) -> (r: DeviceKey)
        ensures
            r@ == spki@,
    {
        DeviceKey { spki }
    }
}

/// Why a key or a signature was refused.
#[derive(Debug, Clone, Copy, PartialEq, Eq, Structural)]
pub enum LinkError {
    KeyNotP256,
    SignatureNotDer,
    SignatureRejected,
}

/// The message for `e`.
pub open spec fn link_error_text(e: LinkError) -> Seq<char> {
    match e {
        LinkError::KeyNotP256 => "device public key is not a P-256 SPKI PEM"@,
        LinkError::SignatureNotDer => "signature is not valid DER ECDSA"@,
        LinkError::SignatureRejected => "signature does not verify against the enrolled device key"@,
    }
}

impl LinkError {
    /// The message the daemon reports for this error.
    pub fn message(&self) -> (r: String)
        ensures
            r@ == link_error_text(*self),
    {
        let text = match self {
            LinkError::KeyNotP256 => "device public key is not a P-256 SPKI PEM",
            LinkError::SignatureNotDer => "signature is not valid DER ECDSA",
            LinkError::SignatureRejected => "signature does not verify against the enrolled device key",
        };
        text.to_owned()
    }
}

/// Loads a device key from SPKI PEM.
pub fn load_verifying_key(pem: &str) -> (r: Result<DeviceKey, LinkError>)
    ensures
        p256_spki_der(pem@) matches Some(der) ==> (r matches Ok(key) && key@ == der),
        p256_spki_der(pem@) is None ==> r == Err::<DeviceKey, LinkError>(LinkError::KeyNotP256),
{
    match spki_der_from_pem(pem) {
        Some(spki) => Ok(DeviceKey { spki }),
        None => Err(LinkError::KeyNotP256),
    }
}

/// Checks an assertion against the enrolled device key over the exact bytes that were
/// sent. A reply cannot be moved onto a different request, because the request *is* the
/// message: the signature is checked over the UTF-8 bytes of `sent_line` and nothing else.
pub fn verify_assertion(key: &DeviceKey, sent_line: &str, der_signature: &[u8]) -> (r: Result<(), LinkError>)
    ensures
        !p256_der_signature(der_signature@) ==> r == Err::<(), LinkError>(LinkError::SignatureNotDer),
        p256_der_signature(der_signature@) && p256_signature_verifies(key@, encode_utf8(sent_line@), der_signature@)
            ==> r is Ok,
        p256_der_signature(der_signature@) && !p256_signature_verifies(key@, encode_utf8(sent_line@), der_signature@)
            ==> r == Err::<(), LinkError>(LinkError::SignatureRejected),
{
    match verify_p256(key.spki.as_slice(), sent_line.as_bytes(), der_signature) {
        None => Err(LinkError::SignatureNotDer),
        Some(true) => Ok(()),
        Some(false) => Err(LinkError::SignatureRejected),
    }
}

/// SHA-256 over the re-encoded SPKI, never the PEM text: whitespace and line wrapping must
/// not change a device's identity.
fn spki_digest(pem: &str) -> (r: Result<Vec<u8>, LinkError>)
    ensures
        p256_spki_der(pem@) matches Some(der) ==> (r matches Ok(d) && d@ == sha256(der) && d@.len() == 32),
        p256_spki_der(pem@) is None ==> r == Err::<Vec<u8>, LinkError>(LinkError::KeyNotP256),
{
    match spki_der_from_pem(pem) {
        Some(der) => {
            assert(der.deep_view() =~= der@);
            Ok(sha256_digest(der.as_slice()))
        },
        None => Err(LinkError::KeyNotP256),
    }
}

/// The device id of an SPKI: 32 lower-case hex digits, the first 16 bytes of its SHA-256.
pub open spec fn spki_id(spki: Seq<u8>) -> Seq<char> {
    hex_lower(sha256(spki).take(ID_BYTES as int))
}

/// The fingerprint of an SPKI: the first six bytes of its SHA-256 as three groups of four
/// upper-case hex digits, separated by spaces.
pub open spec fn spki_fingerprint(spki: Seq<u8>) -> Seq<char> {
    let d = sha256(spki);
    hex_upper(d.subrange(0, 2)) + " "@ + hex_upper(d.subrange(2, 4)) + " "@ + hex_upper(d.subrange(4, 6))
}

/// Whether `id` is 32 lower-case hexadecimal digits.
pub open spec fn is_device_id(id: Seq<char>) -> bool {
    id.len() == 2 * ID_BYTES && forall|i: int| 0 <= i < id.len() ==> is_lower_hex(#[trigger] id[i])
}

/// Whether `fp` is three groups of four upper-case hexadecimal digits, separated by single
/// spaces, that spell the first twelve digits of the device id `id`.
pub open spec fn fingerprint_matches_id(fp: Seq<char>, id: Seq<char>) -> bool {
    &&& fp.len() == 14
    &&& fp[4] == ' ' && fp[9] == ' '
    &&& forall|k: int| 0 <= k < 14 && k % 5 != 4 ==> is_upper_hex(#[trigger] fp[k]) && fp[k] == to_upper_hex(
        id[k - k / 5],
    )
}

proof fn lemma_hex_digit(x: nat)
    requires
        x < 16,
    ensures
        is_lower_hex(hex_digit(x)),
        is_upper_hex(hex_digit_upper(x)),
        to_upper_hex(hex_digit(x)) == hex_digit_upper(x),
{
}

/// The id of a 32-byte digest is 32 lower-case hex digits.
proof fn lemma_device_id(d: Seq<u8>)
    requires
        d.len() == 32,
    ensures
        is_device_id(hex_lower(d.take(ID_BYTES as int))),
{
    let b = d.take(ID_BYTES as int);
    lemma_hex_lower(b);
    assert forall|i: int| 0 <= i < hex_lower(b).len() implies is_lower_hex(#[trigger] hex_lower(b)[i]) by {
        let j = i / 2;
        assert(0 <= j < b.len());
        lemma_hex_digit(b[j] as nat / 16);
        lemma_hex_digit(b[j] as nat % 16);
        if i % 2 == 0 {
            assert(i == 2 * j);
        } else {
            assert(i == 2 * j + 1);
        }
    }
}

/// The fingerprint of a 32-byte digest matches the id of the same digest.
proof fn lemma_fingerprint_text(d: Seq<u8>)
    requires
        d.len() == 32,
    ensures
        fingerprint_matches_id(
            hex_upper(d.subrange(0, 2)) + " "@ + hex_upper(d.subrange(2, 4)) + " "@ + hex_upper(d.subrange(4, 6)),
            hex_lower(d.take(ID_BYTES as int)),
        ),
{
    reveal_strlit(" ");
    let id = hex_lower(d.take(ID_BYTES as int));
    let a = hex_upper(d.subrange(0, 2));
    let b = hex_upper(d.subrange(2, 4));
    let c = hex_upper(d.subrange(4, 6));
    lemma_hex_lower(d.take(ID_BYTES as int));
    lemma_hex_upper(d.subrange(0, 2));
    lemma_hex_upper(d.subrange(2, 4));
    lemma_hex_upper(d.subrange(4, 6));
    let fp = a + " "@ + b + " "@ + c;
    assert(fp.len() == 14);
    assert forall|k: int| 0 <= k < 14 && k % 5 != 4 implies is_upper_hex(#[trigger] fp[k]) && fp[k] == to_upper_hex(
        id[k - k / 5],
    ) by {
        let g = k / 5;
        let j = k % 5;
        let byte = 2 * g + j / 2;
        assert(0 <= byte < 6);
        let t = d.take(ID_BYTES as int);
        assert(t[byte] == d[byte]);
        lemma_hex_digit(d[byte] as nat / 16);
        lemma_hex_digit(d[byte] as nat % 16);
        assert(k - k / 5 == 2 * byte + j % 2);
        if g == 0 {
            assert(fp[k] == a[j]);
            assert(d.subrange(0, 2)[j / 2] == d[byte]);
        } else if g == 1 {
            assert(fp[k] == b[j]);
            assert(d.subrange(2, 4)[j / 2] == d[byte]);
        } else {
            assert(fp[k] == c[j]);
            assert(d.subrange(4, 6)[j / 2] == d[byte]);
        }
        if j % 2 == 0 {
            assert(j == 2 * (j / 2));
        } else {
            assert(j == 2 * (j / 2) + 1);
        }
    }
}

/// The device id, derived from the key rather than from the clock, so the same phone
/// always lands on the same record.
pub fn key_id(pem: &str) -> (r: Result<String, LinkError>)
    ensures
        p256_spki_der(pem@) matches Some(der) ==> (r matches Ok(id) && id@ == spki_id(der) && is_device_id(id@)),
        p256_spki_der(pem@) is None ==> r == Err::<String, LinkError>(LinkError::KeyNotP256),
{
    let digest = spki_digest(pem)?;
    let id = hex(slice_subrange(digest.as_slice(), 0, ID_BYTES));
    assert(digest@.subrange(0, ID_BYTES as int) =~= digest@.take(ID_BYTES as int));
    proof {
        lemma_device_id(digest@);
    }
    Ok(id)
}

/// The same identity in a form a person can compare against the phone's screen.
pub fn key_fingerprint(pem: &str) -> (r: Result<String, LinkError>)
    ensures
        p256_spki_der(pem@) matches Some(der) ==> (r matches Ok(text) && text@ == spki_fingerprint(der)
            && fingerprint_matches_id(text@, spki_id(der))),
        p256_spki_der(pem@) is None ==> r == Err::<String, LinkError>(LinkError::KeyNotP256),
{
    let digest = spki_digest(pem)?;
    proof {
        lemma_fingerprint_text(digest@);
    }
    let mut text = hex_string_upper(slice_subrange(digest.as_slice(), 0, 2));
    text.append(" ");
    let middle = hex_string_upper(slice_subrange(digest.as_slice(), 2, 4));
    text.append(middle.as_str());
    text.append(" ");
    let last = hex_string_upper(slice_subrange(digest.as_slice(), 4, FINGERPRINT_BYTES));
    text.append(last.as_str());
    Ok(text)
}

/// Two PEMs that carry the same key give the same device id and the same fingerprint,
/// however their text is wrapped: identity follows the key.
pub proof fn lemma_identity_follows_key(pem1: Seq<char>, pem2: Seq<char>)
    requires
        p256_spki_der(pem1) is Some,
        p256_spki_der(pem1) == p256_spki_der(pem2),
    ensures
        spki_id(p256_spki_der(pem1)->0) == spki_id(p256_spki_der(pem2)->0),
        spki_fingerprint(p256_spki_der(pem1)->0) == spki_fingerprint(p256_spki_der(pem2)->0),
{
}

} // verus!

//! The calls this library makes into outside crates, each behind a trusted wrapper whose
//! contract is what the crate's source and documentation show.

use base64::Engine as _;
use p256::ecdsa::signature::Signer as _;
use p256::ecdsa::signature::Verifier as _;
use p256::elliptic_curve::sec1::ToEncodedPoint as _;
use p256::pkcs8::{DecodePublicKey as _, EncodePublicKey as _};
use rand::TryRngCore as _;
use sha2::Digest as _;
use vstd::prelude::*;
use crate::text::hex_digit;

verus! {

/// SHA-256 of a byte string.
pub uninterp spec fn sha256(data: Seq<u8>) -> Seq<u8>;

/// Base64 text of `data` in the standard alphabet with padding.
pub uninterp spec fn base64_standard(data: Seq<u8>) -> Seq<char>;

/// Bytes that the standard, padded Base64 engine decodes `text` into, or `None` if it refuses.
pub uninterp spec fn base64_standard_decoded(text: Seq<char>) -> Option<Seq<u8>>;

/// Base64 text of `data` in the URL-safe alphabet without padding.
pub uninterp spec fn base64_url(data: Seq<u8>) -> Seq<char>;

/// Bytes that the URL-safe, unpadded Base64 engine decodes `text` into, or `None`.
pub uninterp spec fn base64_url_decoded(text: Seq<char>) -> Option<Seq<u8>>;

/// How serde_json writes one character inside a string literal: `"` and `\` behind a
/// backslash; U+0008, U+0009, U+000A, U+000C and U+000D as `\b`, `\t`, `\n`, `\f` and
/// `\r`; the other characters below U+0020 as `\u00` and two lower-case hex digits; every
/// other character as itself.
pub open spec fn json_char(c: char) -> Seq<char> {
    if c == '"' {
        seq!['\\', '"']
    } else if c == '\\' {
        seq!['\\', '\\']
    } else if c == '\u{8}' {
        seq!['\\', 'b']
    } else if c == '\t' {
        seq!['\\', 't']
    } else if c == '\n' {
        seq!['\\', 'n']
    } else if c == '\u{c}' {
        seq!['\\', 'f']
    } else if c == '\r' {
        seq!['\\', 'r']
    } else if (c as u32) < 32 {
        seq!['\\', 'u', '0', '0', hex_digit((c as u32 / 16) as nat), hex_digit((c as u32 % 16) as nat)]
    } else {
        seq![c]
    }
}

/// The escaped characters of `text`, one escape after another.
pub open spec fn json_chars(text: Seq<char>) -> Seq<char>
    decreases text.len(),
{
    if text.len() == 0 {
        Seq::empty()
    } else {
        json_char(text[0]) + json_chars(text.drop_first())
    }
}

/// The JSON string literal that serde_json writes for `text`: the escaped characters
/// between two double quotes.
#[verifier::opaque]
pub open spec fn json_string(text: Seq<char>) -> Seq<char> {
    seq!['"'] + json_chars(text) + seq!['"']
}

/// The SPKI DER re-encoding of a P-256 public key given as SPKI PEM, or `None` when the PEM
/// is not a P-256 public key.
pub uninterp spec fn p256_spki_der(pem: Seq<char>) -> Option<Seq<u8>>;

/// The affine coordinates (x, y) of a P-256 public key given as SPKI PEM, or `None`.
pub uninterp spec fn p256_affine_xy(pem: Seq<char>) -> Option<(Seq<u8>, Seq<u8>)>;

/// Whether `signature` is a well-formed DER encoding of an ECDSA P-256 signature.
pub uninterp spec fn p256_der_signature(signature: Seq<u8>) -> bool;

/// Whether the DER `signature` verifies over `message` under the SPKI DER key `spki`
/// (ECDSA P-256 with SHA-256).
pub uninterp spec fn p256_signature_verifies(spki: Seq<u8>, message: Seq<u8>, signature: Seq<u8>) -> bool;

/// The SPKI DER of the public key whose P-256 secret scalar is the big-endian `secret`, or
/// `None` when `secret` is not a valid scalar.
pub uninterp spec fn p256_public_spki(secret: Seq<u8>) -> Option<Seq<u8>>;

/// The deterministic (RFC 6979) ECDSA P-256/SHA-256 signature of `message` under the
/// secret scalar `secret`, DER-encoded, or `None` when `secret` is not a valid scalar.
pub uninterp spec fn p256_rfc6979_der(secret: Seq<u8>, message: Seq<u8>) -> Option<Seq<u8>>;

/// `sha2::Sha256::digest`: the 32-byte SHA-256 digest of `data`.
#[verifier::external_body]
pub(crate) fn sha256_digest(data: &[u8]) -> (r: Vec<u8>)
    ensures
        r@ == sha256(data@),
        r@.len() == 32,
{
    sha2::Sha256::digest(data).to_vec()
}

/// `base64::engine::general_purpose::STANDARD.encode`. The crate documents that the same
/// engine decodes what it encoded back to the original bytes.
#[verifier::external_body]
pub(crate) fn encode_base64(data: &[u8]) -> (r: String)
    ensures
        r@ == base64_standard(data@),
        base64_standard_decoded(r@) == Some(data@),
{
    base64::engine::general_purpose::STANDARD.encode(data)
}

/// `base64::engine::general_purpose::STANDARD.decode`, with its error mapped to `None`.
#[verifier::external_body]
pub(crate) fn decode_base64(text: &str) -> (r: Option<Vec<u8>>)
    ensures
        r.deep_view() == base64_standard_decoded(text@),
{
    base64::engine::general_purpose::STANDARD.decode(text).ok()
}

/// `base64::engine::general_purpose::URL_SAFE_NO_PAD.encode`. The same engine decodes its
/// output back to the original bytes.
#[verifier::external_body]
pub(crate) fn encode_base64_url(data: &[u8]) -> (r: String)
    ensures
        r@ == base64_url(data@),
        base64_url_decoded(r@) == Some(data@),
{
    base64::engine::general_purpose::URL_SAFE_NO_PAD.encode(data)
}

/// `base64::engine::general_purpose::URL_SAFE_NO_PAD.decode`, with its error mapped to `None`.
#[verifier::external_body]
pub(crate) fn decode_base64_url(text: &str) -> (r: Option<Vec<u8>>)
    ensures
        r.deep_view() == base64_url_decoded(text@),
{
    base64::engine::general_purpose::URL_SAFE_NO_PAD.decode(text).ok()
}

/// `serde_json::to_string` on a string slice: the quoted, escaped JSON string literal, as
/// `format_escaped_str` and the compact formatter's `write_char_escape` write it.
/// Serialising a `str` into a `String` has no failure path in serde_json.
#[verifier::external_body]
pub(crate) fn json_quote(text: &str) -> (r: String)
    ensures
        r@ == json_string(text@),
{
    serde_json::to_string(text).unwrap_or_default()
}

/// `rand::rngs::OsRng::try_fill_bytes` on an `N`-byte buffer: `None` when the operating
/// system entropy source fails. The bytes drawn are not stated: they are random.
#[verifier::external_body]
pub(crate) fn os_random<const N: usize>() -> (r: Option<[u8; N]>)
{
    let mut bytes = [0u8; N];
    rand::rngs::OsRng.try_fill_bytes(&mut bytes).ok().map(|_| bytes)
}

/// `p256::PublicKey::from_public_key_pem` followed by `to_public_key_der`: the key's SPKI
/// DER, or `None` when the PEM is not a P-256 SPKI (the re-encoding has no other failure
/// for a decoded key).
#[verifier::external_body]
pub(crate) fn spki_der_from_pem(pem: &str) -> (r: Option<Vec<u8>>)
    ensures
        r.deep_view() == p256_spki_der(pem@),
{
    let public = p256::PublicKey::from_public_key_pem(pem).ok()?;
    public.to_public_key_der().ok().map(|der| der.as_bytes().to_vec())
}

/// `p256::PublicKey::from_public_key_pem` followed by `to_encoded_point(false)`: the
/// uncompressed affine coordinates, each a 32-byte field element, or `None` when the PEM is
/// not a P-256 SPKI.
#[verifier::external_body]
pub(crate) fn affine_xy_from_pem(pem: &str) -> (r: Option<(Vec<u8>, Vec<u8>)>)
    ensures
        r.deep_view() == p256_affine_xy(pem@),
        r matches Some((x, y)) ==> x@.len() == 32 && y@.len() == 32,
{
    let public = p256::PublicKey::from_public_key_pem(pem).ok()?;
    let point = public.to_encoded_point(false);
    Some((point.x()?.to_vec(), point.y()?.to_vec()))
}

/// `p256::ecdsa::Signature::from_der`, then `VerifyingKey::from_public_key_der` and
/// `Verifier::verify`: `None` when the signature is not DER, otherwise whether it verifies
/// over `message` under the key (a key that does not decode verifies nothing).
#[verifier::external_body]
pub(crate) fn verify_p256(spki: &[u8], message: &[u8], signature: &[u8]) -> (r: Option<bool>)
    ensures
        r is None <==> !p256_der_signature(signature@),
        r matches Some(ok) ==> ok == p256_signature_verifies(spki@, message@, signature@),
{
    let signature = p256::ecdsa::Signature::from_der(signature).ok()?;
    match p256::ecdsa::VerifyingKey::from_public_key_der(spki) {
        Ok(key) => Some(key.verify(message, &signature).is_ok()),
        Err(_) => Some(false),
    }
}

/// `p256::ecdsa::SigningKey::from_slice`, then `verifying_key().to_public_key_der()`: the
/// public key of a secret scalar as SPKI DER, `None` when the bytes are not a valid scalar.
#[verifier::external_body]
pub(crate) fn public_spki_of(secret: &[u8]) -> (r: Option<Vec<u8>>)
    ensures
        r.deep_view() == p256_public_spki(secret@),
{
    let signing = p256::ecdsa::SigningKey::from_slice(secret).ok()?;
    signing.verifying_key().to_public_key_der().ok().map(|der| der.as_bytes().to_vec())
}

/// `p256::ecdsa::SigningKey::from_slice`, then `Signer::try_sign` (deterministic, RFC 6979)
/// and `Signature::to_der`: the DER signature of `message`, `None` when the bytes are not a
/// valid scalar.
#[verifier::external_body]
pub(crate) fn sign_rfc6979(secret: &[u8], message: &[u8]) -> (r: Option<Vec<u8>>)
    ensures
        r.deep_view() == p256_rfc6979_der(secret@, message@),
{
    let signing = p256::ecdsa::SigningKey::from_slice(secret).ok()?;
    let signature: p256::ecdsa::Signature = signing.try_sign(message).ok()?;
    Some(signature.to_der().as_bytes().to_vec())
}

} // verus!

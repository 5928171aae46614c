//! The self-test: the challenge/verify logic exercised with an ephemeral key, including
//! the case that matters most — a signature over different bytes must be rejected.

use vstd::prelude::*;
use vstd::utf8::encode_utf8;
use crate::link::{DeviceKey, LinkError, link_error_text, verify_assertion};
use crate::primitives::{
    os_random, p256_der_signature, p256_public_spki, p256_rfc6979_der, p256_signature_verifies, public_spki_of,
    sign_rfc6979,
};
use crate::protocol::{ProtocolError, VerifyRequest, protocol_error_text, request_line};

verus! {

/// Why the self-test failed.
pub enum SelfTestError {
    Request(ProtocolError),
    /// No key could be drawn: the entropy source failed, or no draw was a valid scalar.
    KeyUnavailable,
    /// A correct signature was refused.
    CorrectRejected(LinkError),
    TamperedAccepted,
    ForeignAccepted,
}

/// The message for `e`.
pub open spec fn self_test_error_text(e: SelfTestError) -> Seq<char> {
    match e {
        SelfTestError::Request(cause) => protocol_error_text(cause),
        SelfTestError::KeyUnavailable => "drawing an ephemeral P-256 key"@,
        SelfTestError::CorrectRejected(cause) => "a correct signature failed to verify: "@ + link_error_text(cause),
        SelfTestError::TamperedAccepted => "a signature verified over tampered bytes; the binding is broken"@,
        SelfTestError::ForeignAccepted => "a signature from an unenrolled key verified; device binding is broken"@,
    }
}

impl SelfTestError {
    /// The message the self-test reports for this failure.
    pub fn message(&self) -> (r: String)
        ensures
            r@ == self_test_error_text(*self),
    {
        match self {
            SelfTestError::Request(e) => e.message(),
            SelfTestError::KeyUnavailable => "drawing an ephemeral P-256 key".to_owned(),
            SelfTestError::CorrectRejected(e) => {
                let mut text = "a correct signature failed to verify: ".to_owned();
                let cause = e.message();
                text.append(cause.as_str());
                text
            },
            SelfTestError::TamperedAccepted => {
                "a signature verified over tampered bytes; the binding is broken".to_owned()
            },
            SelfTestError::ForeignAccepted => {
                "a signature from an unenrolled key verified; device binding is broken".to_owned()
            },
        }
    }
}

pub open spec fn verifies(key: Seq<u8>, line: Seq<char>, signature: Seq<u8>) -> bool {
    p256_der_signature(signature) && p256_signature_verifies(key, encode_utf8(line), signature)
}

/// The lines the self-test prints as each check passes.
pub open spec fn passed_lines() -> Seq<Seq<char>> {
    seq![
        "ok: correct signature verifies"@,
        "ok: signature does NOT verify once the user field is altered"@,
        "ok: a different device's signature is rejected"@,
        "self-test passed"@,
    ]
}

pub open spec fn lines_view(lines: Seq<String>) -> Seq<Seq<char>> {
    lines.map_values(|l: String| l@)
}

/// The lines the three tests print, in order, and their outcome: the correct signature `good`
/// over `line` must verify under `key`; the same signature must not verify over
/// `tampered`; a signature by another key (`foreign`) must not verify over `line`. The
/// lines are those of the checks that passed before the first that failed.
pub open spec fn judge_spec(key: Seq<u8>, line: Seq<char>, tampered: Seq<char>, good: Seq<u8>, foreign: Seq<u8>) -> (Seq<Seq<char>>, Result<(), SelfTestError>) {
    if !verifies(key, line, good) {
        let cause = if p256_der_signature(good) { LinkError::SignatureRejected } else { LinkError::SignatureNotDer };
        (Seq::empty(), Err(SelfTestError::CorrectRejected(cause)))
    } else if verifies(key, tampered, good) {
        (passed_lines().take(1), Err(SelfTestError::TamperedAccepted))
    } else if verifies(key, line, foreign) {
        (passed_lines().take(2), Err(SelfTestError::ForeignAccepted))
    } else {
        (passed_lines(), Ok(()))
    }
}

/// Runs the three checks of the self-test on given keys and signatures.
pub fn judge(key: &DeviceKey, line: &str, tampered: &str, good: &[u8], foreign: &[u8]) -> (r: (Vec<String>, Result<(), SelfTestError>))
    ensures
        (lines_view(r.0@), r.1) == judge_spec(key@, line@, tampered@, good@, foreign@),
{
    let mut lines: Vec<String> = Vec::new();
    match verify_assertion(key, line, good) {
        Ok(()) => {},
        Err(e) => {
            assert(lines_view(lines@) =~= Seq::<Seq<char>>::empty());
            return (lines, Err(SelfTestError::CorrectRejected(e)));
        },
    }
    lines.push("ok: correct signature verifies".to_owned());
    if verify_assertion(key, tampered, good).is_ok() {
        assert(lines_view(lines@) =~= passed_lines().take(1));
        return (lines, Err(SelfTestError::TamperedAccepted));
    }
    lines.push("ok: signature does NOT verify once the user field is altered".to_owned());
    if verify_assertion(key, line, foreign).is_ok() {
        assert(lines_view(lines@) =~= passed_lines().take(2));
        return (lines, Err(SelfTestError::ForeignAccepted));
    }
    lines.push("ok: a different device's signature is rejected".to_owned());
    lines.push("self-test passed".to_owned());
    assert(lines_view(lines@) =~= passed_lines());
    (lines, Ok(()))
}

/// How many secrets are drawn in search of a valid P-256 scalar before the self-test gives
/// up; a uniformly drawn 32-byte string fails to be one with probability about 2^-32.
const SECRET_DRAWS: u32 = 8;

/// A fresh ephemeral secret scalar, its public key as SPKI DER and its deterministic
/// signature over `message`. Draws again while the bytes are not a valid scalar; `None`
/// when the entropy source fails or no draw was valid.
fn ephemeral_signature(message: &[u8]) -> (r: Option<([u8; 32], Vec<u8>, Vec<u8>)>)
    ensures
        r matches Some((secret, spki, signature)) ==> p256_public_spki(secret@) == Some(spki@)
            && p256_rfc6979_der(secret@, message@) == Some(signature@),
{
    let mut draws: u32 = 0;
    while draws < SECRET_DRAWS
        invariant
            draws <= SECRET_DRAWS,
        decreases SECRET_DRAWS - draws,
    {
        draws = draws + 1;
        let secret = match os_random::<32>() {
            Some(secret) => secret,
            None => return None,
        };
        if let Some(spki) = public_spki_of(&secret) {
            if let Some(signature) = sign_rfc6979(&secret, message) {
                assert(spki.deep_view() =~= spki@);
                assert(signature.deep_view() =~= signature@);
                return Some((secret, spki, signature));
            }
        }
    }
    None
}

/// The request line the self-test signs on `host` with the challenge `challenge`.
pub open spec fn signed_line(host: Seq<char>, challenge: Seq<u8>) -> Seq<char> {
    request_line(1, challenge, "tester"@, host, "self-test"@, "ephemeral key"@)
}

/// The same request with the user changed to `root`: the bytes a forger would want signed.
pub open spec fn tampered_line(host: Seq<char>, challenge: Seq<u8>) -> Seq<char> {
    request_line(1, challenge, "root"@, host, "self-test"@, "ephemeral key"@)
}

/// Whether `first` and `second` are valid secret scalars that sign `line`.
pub open spec fn keys_sign(first: Seq<u8>, second: Seq<u8>, line: Seq<char>) -> bool {
    &&& p256_public_spki(first) is Some
    &&& p256_rfc6979_der(first, encode_utf8(line)) is Some
    &&& p256_rfc6979_der(second, encode_utf8(line)) is Some
}

/// What the self-test reports on `host` when the request drew `challenge` and the two
/// ephemeral keys are the secrets `first` (the enrolled one) and `second` (the foreign one).
pub open spec fn self_test_verdict(host: Seq<char>, challenge: Seq<u8>, first: Seq<u8>, second: Seq<u8>) -> (Seq<Seq<char>>, Result<(), SelfTestError>) {
    let line = signed_line(host, challenge);
    judge_spec(
        p256_public_spki(first).unwrap(),
        line,
        tampered_line(host, challenge),
        p256_rfc6979_der(first, encode_utf8(line)).unwrap(),
        p256_rfc6979_der(second, encode_utf8(line)).unwrap(),
    )
}

/// The three properties the self-test establishes of the keys it drew: the signature by
/// `first` over the request verifies under `first`'s key, it does not verify over the
/// tampered request, and `second`'s signature over the request does not verify under
/// `first`'s key.
pub open spec fn self_test_holds(host: Seq<char>, challenge: Seq<u8>, first: Seq<u8>, second: Seq<u8>) -> bool {
    let line = signed_line(host, challenge);
    let key = p256_public_spki(first).unwrap();
    let good = p256_rfc6979_der(first, encode_utf8(line)).unwrap();
    let foreign = p256_rfc6979_der(second, encode_utf8(line)).unwrap();
    &&& keys_sign(first, second, line)
    &&& verifies(key, line, good)
    &&& !verifies(key, tampered_line(host, challenge), good)
    &&& !verifies(key, line, foreign)
}

/// Whether `e` is a failure to build the request or to draw a key, before any check ran.
pub open spec fn failed_before_checks(e: SelfTestError) -> bool {
    e is Request || e is KeyUnavailable
}

/// Runs the self-test on this machine (`host`): signs request 1 with an ephemeral key and
/// checks that the signature verifies, that it stops verifying once the user field is
/// altered, and that another key's signature is refused. Returns the lines to print and
/// the verdict. The challenge and the keys are random; whatever was drawn, the verdict is
/// the one the three checks give on it.
pub fn self_test(host: String) -> (r: (Vec<String>, Result<(), SelfTestError>))
    ensures
        r.1 matches Err(SelfTestError::Request(e)) ==> e == ProtocolError::EntropyUnavailable,
        r.1 matches Err(e) && failed_before_checks(e) ==> r.0@.len() == 0,
        !(r.1 matches Err(e) && failed_before_checks(e)) ==> exists|challenge: Seq<u8>, first: Seq<u8>, second: Seq<u8>|
            #![trigger self_test_verdict(host@, challenge, first, second)]
            challenge.len() == 32 && keys_sign(first, second, signed_line(host@, challenge))
                && (lines_view(r.0@), r.1) == self_test_verdict(host@, challenge, first, second),
        r.1 is Ok ==> lines_view(r.0@) == passed_lines() && exists|challenge: Seq<u8>, first: Seq<u8>, second: Seq<u8>|
            self_test_holds(host@, challenge, first, second),
{
    let ghost host_text = host@;
    let request = match VerifyRequest::new(
        1,
        "tester".to_owned(),
        host,
        "self-test".to_owned(),
        "ephemeral key".to_owned(),
    ) {
        Ok(request) => request,
        Err(e) => return (Vec::new(), Err(SelfTestError::Request(e))),
    };
    let line = request.to_line();
    let message = line.as_str().as_bytes();
    let (secret, spki, good) = match ephemeral_signature(message) {
        Some(drawn) => drawn,
        None => return (Vec::new(), Err(SelfTestError::KeyUnavailable)),
    };
    let key = DeviceKey::from_spki(spki);
    let ghost challenge = request.challenge@;
    let tampered = VerifyRequest {
        id: request.id,
        challenge: request.challenge,
        user: "root".to_owned(),
        host: request.host,
        action: request.action,
        detail: request.detail,
    }.to_line();
    let (other, foreign) = match ephemeral_signature(message) {
        Some((other, _, signature)) => (other, signature),
        None => return (Vec::new(), Err(SelfTestError::KeyUnavailable)),
    };
    let r = judge(&key, line.as_str(), tampered.as_str(), good.as_slice(), foreign.as_slice());
    proof {
        assert(line@ == signed_line(host_text, challenge));
        assert(tampered@ == tampered_line(host_text, challenge));
        assert(keys_sign(secret@, other@, signed_line(host_text, challenge)));
        assert((lines_view(r.0@), r.1) == self_test_verdict(host_text, challenge, secret@, other@));
        if r.1 is Ok {
            assert(self_test_holds(host_text, challenge, secret@, other@));
        }
    }
    r
}

} // verus!

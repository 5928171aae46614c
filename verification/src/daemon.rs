//! The daemon's decisions, between the sockets.
//!
//! One TCP connection to the phone, one Unix socket for PAM and the FIDO helper, one D-Bus
//! object for System Settings: the program around this module does the reading, writing
//! and waiting. What is decided here is what a message means, what is sent in reply, which
//! device answers, and whether an answer is accepted.

use vstd::prelude::*;
use vstd::utf8::encode_utf8;
use crate::json::{
    JsonOut, JsonValue, bool_field, get_bool, get_str, members_view, object_text, str_field,
    string_eq, text_or, write_object,
};
use crate::link::{DeviceKey, LinkError, key_id, link_error_text, load_verifying_key, spki_id, verify_assertion};
use crate::pairing::{PairingSession, Pairings};
use crate::primitives::{
    base64_url_decoded, decode_base64_url, json_string, p256_der_signature, p256_signature_verifies,
    p256_spki_der, sha256,
};
use crate::protocol::{ProtocolError, VerifyRequest, protocol_error_text, request_line};
use crate::router::Router;
use crate::store::{Device, DeviceView, text_member};
use crate::text::{decimal, hex_lower, push_decimal};

verus! {

/// Why a request from PAM, the FIDO helper or the phone was not carried out.
pub enum DaemonError {
    NoPairedDevice,
    /// The enrolled device's key does not load.
    Key(LinkError),
    Request(ProtocolError),
    NotConnected,
    VerificationAbandoned,
    RequestAbandoned,
    /// No answer within this many seconds.
    TimedOut(u64),
    /// The user said no on the phone, for this reason.
    Denied(String),
    /// The answer's signature was refused.
    Signature(LinkError),
    NoCredentialId,
    NoPublicKey,
    UnusableCredentialKey,
    NoSignature,
    UnknownOperation(String),
    TokenNotBase64url,
    NoMatchingWindow,
    UnusableDeviceKey,
    NotAPublicKey,
}

/// The message for `e`.
pub open spec fn daemon_error_text(e: DaemonError) -> Seq<char> {
    match e {
        DaemonError::NoPairedDevice => "no paired device; pair one from System Settings"@,
        DaemonError::Key(cause) => link_error_text(cause),
        DaemonError::Request(cause) => protocol_error_text(cause),
        DaemonError::NotConnected => "no phone connected"@,
        DaemonError::VerificationAbandoned => "verification was abandoned"@,
        DaemonError::RequestAbandoned => "the request was abandoned"@,
        DaemonError::TimedOut(secs) => "phone did not respond within "@ + decimal(secs as nat) + "s"@,
        DaemonError::Denied(reason) => "denied on the phone: "@ + reason@,
        DaemonError::Signature(cause) => link_error_text(cause),
        DaemonError::NoCredentialId => "phone returned no credential id"@,
        DaemonError::NoPublicKey => "phone returned no public key"@,
        DaemonError::UnusableCredentialKey => "phone returned an unusable credential key: "@ + link_error_text(
            LinkError::KeyNotP256,
        ),
        DaemonError::NoSignature => "phone returned no signature"@,
        DaemonError::UnknownOperation(op) => "unknown operation "@ + op@,
        DaemonError::TokenNotBase64url => "pairing token is not base64url"@,
        DaemonError::NoMatchingWindow => "no matching pairing window is open"@,
        DaemonError::UnusableDeviceKey => "device sent an unusable public key: "@ + link_error_text(LinkError::KeyNotP256),
        DaemonError::NotAPublicKey => "that file is not a P-256 public key: "@ + link_error_text(LinkError::KeyNotP256),
    }
}

impl DaemonError {
    /// The message the daemon reports for this error.
    pub fn message(&self) -> (r: String)
        ensures
            r@ == daemon_error_text(*self),
    {
        match self {
            DaemonError::NoPairedDevice => "no paired device; pair one from System Settings".to_owned(),
            DaemonError::Key(e) => e.message(),
            DaemonError::Request(e) => e.message(),
            DaemonError::NotConnected => "no phone connected".to_owned(),
            DaemonError::VerificationAbandoned => "verification was abandoned".to_owned(),
            DaemonError::RequestAbandoned => "the request was abandoned".to_owned(),
            DaemonError::TimedOut(secs) => {
                let mut text = "phone did not respond within ".to_owned();
                push_decimal(&mut text, *secs);
                text.append("s");
                text
            },
            DaemonError::Denied(reason) => {
                let mut text = "denied on the phone: ".to_owned();
                text.append(reason.as_str());
                text
            },
            DaemonError::Signature(e) => e.message(),
            DaemonError::NoCredentialId => "phone returned no credential id".to_owned(),
            DaemonError::NoPublicKey => "phone returned no public key".to_owned(),
            DaemonError::UnusableCredentialKey => {
                let mut text = "phone returned an unusable credential key: ".to_owned();
                let cause = LinkError::KeyNotP256.message();
                text.append(cause.as_str());
                text
            },
            DaemonError::NoSignature => "phone returned no signature".to_owned(),
            DaemonError::UnknownOperation(op) => {
                let mut text = "unknown operation ".to_owned();
                text.append(op.as_str());
                text
            },
            DaemonError::TokenNotBase64url => "pairing token is not base64url".to_owned(),
            DaemonError::NoMatchingWindow => "no matching pairing window is open".to_owned(),
            DaemonError::UnusableDeviceKey => {
                let mut text = "device sent an unusable public key: ".to_owned();
                let cause = LinkError::KeyNotP256.message();
                text.append(cause.as_str());
                text
            },
            DaemonError::NotAPublicKey => {
                let mut text = "that file is not a P-256 public key: ".to_owned();
                let cause = LinkError::KeyNotP256.message();
                text.append(cause.as_str());
                text
            },
        }
    }
}

/// The text of the string member `name`, or `fallback`.
pub open spec fn member_or(value: JsonValue, name: Seq<char>, fallback: Seq<char>) -> Seq<char> {
    match str_field(value, name) {
        Some(text) => text,
        None => fallback,
    }
}

pub open spec fn bool_text(b: bool) -> Seq<char> {
    if b {
        "true"@
    } else {
        "false"@
    }
}

// ---------------------------------------------------------------------------------------
// The phone's messages and pairing.

/// Whether a line from the phone asks to complete a pairing; anything else is a reply to a
/// request. `None` stands for a line that is not JSON.
pub fn is_pair_request(message: &Option<JsonValue>) -> (r: bool)
    ensures
        r == (*message matches Some(value) && str_field(value, "t"@) == Some("pair.request"@)),
{
    match message {
        Some(value) => match get_str(value, "t") {
            Some(kind) => string_eq(&kind, "pair.request"),
            None => false,
        },
        None => false,
    }
}

/// The device a pairing request records: named by the label the window was opened with, or
/// by the phone when that label is empty; identified by its key; stamped `now`.
pub open spec fn paired_device(request: JsonValue, label: Seq<char>, spki: Seq<u8>, owner: Seq<char>, now: u64) -> DeviceView {
    DeviceView {
        id: spki_id(spki),
        name: if label.len() == 0 {
            text_member(request, "name"@)
        } else {
            label
        },
        model: text_member(request, "model"@),
        owner,
        security_level: text_member(request, "securityLevel"@),
        verified_boot: text_member(request, "verifiedBoot"@),
        paired_at: now,
        public_key_pem: text_member(request, "publicKeyPem"@),
    }
}

/// The device a pairing records keeps the key the phone sent: its `public_key_pem` is the
/// request's `publicKeyPem` text, which decodes to the same key `spki`; its id is the first
/// 16 bytes of that key's SHA-256 in lower-case hex; it is owned by `owner`, stamped `now`,
/// and named by the window's label when there is one.
pub proof fn lemma_paired_device_keeps_the_key(
    request: JsonValue,
    pem: Seq<char>,
    label: Seq<char>,
    spki: Seq<u8>,
    owner: Seq<char>,
    now: u64,
)
    requires
        str_field(request, "publicKeyPem"@) == Some(pem),
        p256_spki_der(pem) == Some(spki),
    ensures
        paired_device(request, label, spki, owner, now).public_key_pem == pem,
        p256_spki_der(paired_device(request, label, spki, owner, now).public_key_pem) == Some(spki),
        paired_device(request, label, spki, owner, now).id == hex_lower(sha256(spki).take(16)),
        paired_device(request, label, spki, owner, now).owner == owner,
        paired_device(request, label, spki, owner, now).paired_at == now,
        label.len() > 0 ==> paired_device(request, label, spki, owner, now).name == label,
        label.len() == 0 ==> paired_device(request, label, spki, owner, now).name == text_member(request, "name"@),
        str_field(request, "model"@) matches Some(model) ==> paired_device(request, label, spki, owner, now).model
            == model,
{
}

/// The pairing token a request carries, decoded from unpadded URL-safe Base64.
pub fn pairing_token(request: &JsonValue) -> (r: Result<Vec<u8>, DaemonError>)
    ensures
        match base64_url_decoded(text_member(*request, "token"@)) {
            Some(token) => r matches Ok(t) && t@ == token,
            None => r matches Err(DaemonError::TokenNotBase64url),
        },
{
    proof {
        reveal_strlit("");
    }
    let text = text_or(request, "token", "");
    assert(text@ =~= text_member(*request, "token"@));
    match decode_base64_url(text.as_str()) {
        Some(token) => {
            assert(token.deep_view() =~= token@);
            Ok(token)
        },
        None => Err(DaemonError::TokenNotBase64url),
    }
}

/// Records the device of a pairing request, given the window it consumed (`None` when no
/// window matched). The key the phone sent must load, or nothing is recorded.
pub fn finish_pairing(session: Option<PairingSession>, request: &JsonValue, owner: &str, now: u64) -> (r: Result<Device, DaemonError>)
    ensures
        session is None ==> r matches Err(DaemonError::NoMatchingWindow),
        session matches Some(s) ==> match p256_spki_der(text_member(*request, "publicKeyPem"@)) {
            None => r matches Err(DaemonError::UnusableDeviceKey),
            Some(spki) => r matches Ok(d) && d@ == paired_device(*request, s.label@, spki, owner@, now),
        },
{
    let session = match session {
        None => return Err(DaemonError::NoMatchingWindow),
        Some(session) => session,
    };
    proof {
        reveal_strlit("");
    }
    let public_key_pem = text_or(request, "publicKeyPem", "");
    assert(public_key_pem@ =~= text_member(*request, "publicKeyPem"@));
    match load_verifying_key(public_key_pem.as_str()) {
        Ok(_) => {},
        Err(_) => return Err(DaemonError::UnusableDeviceKey),
    }
    let id = match key_id(public_key_pem.as_str()) {
        Ok(id) => id,
        Err(_) => return Err(DaemonError::UnusableDeviceKey),
    };
    let name = if session.label.as_str().is_empty() {
        text_or(request, "name", "")
    } else {
        session.label
    };
    let device = Device {
        id,
        name,
        model: text_or(request, "model", ""),
        owner: owner.to_owned(),
        security_level: text_or(request, "securityLevel", ""),
        verified_boot: text_or(request, "verifiedBoot", ""),
        paired_at: now,
        public_key_pem,
    };
    assert(device@ =~= paired_device(*request, session.label@, p256_spki_der(public_key_pem@)->0, owner@, now));
    Ok(device)
}

/// Consumes the open pairing window with the request's token and records the device,
/// owned by `owner` and paired at `now` (seconds since the epoch). The token is single-use:
/// a replayed request finds no window and is refused. Whether a window whose token matches
/// has run out is the clock's to say.
pub fn complete_pairing(pairings: &mut Pairings, request: &JsonValue, owner: &str, now: u64) -> (r: Result<Device, DaemonError>)
    ensures
        r matches Err(DaemonError::TokenNotBase64url) <==> base64_url_decoded(text_member(*request, "token"@)) is None,
        base64_url_decoded(text_member(*request, "token"@)) is None ==> final(pairings)@ == old(pairings)@,
        base64_url_decoded(text_member(*request, "token"@)) matches Some(token) ==> {
            &&& ((old(pairings)@ is None || old(pairings)@->0.token != token) ==> r matches Err(
                DaemonError::NoMatchingWindow,
            ))
            &&& (old(pairings)@ matches Some(s) ==> s.token == token ==> {
                &&& final(pairings)@ is None
                &&& (r matches Err(DaemonError::NoMatchingWindow) || match p256_spki_der(
                    text_member(*request, "publicKeyPem"@),
                ) {
                    Some(spki) => r matches Ok(d) && d@ == paired_device(*request, s.label, spki, owner@, now),
                    None => r matches Err(DaemonError::UnusableDeviceKey),
                })
            })
            &&& (r matches Ok(d) ==> {
                &&& old(pairings)@ matches Some(s)
                &&& s.token == token
                &&& final(pairings)@ is None
                &&& p256_spki_der(text_member(*request, "publicKeyPem"@)) matches Some(spki)
                &&& d@ == paired_device(*request, s.label, spki, owner@, now)
            })
            &&& (r matches Err(DaemonError::UnusableDeviceKey) ==> final(pairings)@ is None
                && p256_spki_der(text_member(*request, "publicKeyPem"@)) is None)
        },
        r is Err ==> final(pairings)@ is None || final(pairings)@ == old(pairings)@,
{
    let token = pairing_token(request)?;
    let session = pairings.take_matching(token.as_slice());
    finish_pairing(session, request, owner, now)
}

/// `{"id": id, "ok": true, "t": "pair.result"}`.
pub open spec fn pair_accepted_text(id: Seq<char>) -> Seq<char> {
    object_text(seq![("id"@, json_string(id)), ("ok"@, bool_text(true)), ("t"@, json_string("pair.result"@))])
}

/// `{"ok": false, "reason": reason, "t": "pair.result"}`.
pub open spec fn pair_refused_text(reason: Seq<char>) -> Seq<char> {
    object_text(seq![("ok"@, bool_text(false)), ("reason"@, json_string(reason)), ("t"@, json_string("pair.result"@))])
}

/// The line telling the phone it is paired, under `id`.
pub fn pair_accepted(id: &str) -> (r: String)
    ensures
        r@ == pair_accepted_text(id@),
{
    let fields: Vec<(&str, JsonOut)> = vec![
        ("id", JsonOut::Text(id.to_owned())),
        ("ok", JsonOut::Bool(true)),
        ("t", JsonOut::Text("pair.result".to_owned())),
    ];
    let line = write_object(&fields);
    assert(members_view(fields@) =~= seq![("id"@, json_string(id@)), ("ok"@, bool_text(true)), ("t"@, json_string("pair.result"@))]);
    line
}

/// The line telling the phone why it was not paired.
pub fn pair_refused(reason: &str) -> (r: String)
    ensures
        r@ == pair_refused_text(reason@),
{
    let fields: Vec<(&str, JsonOut)> = vec![
        ("ok", JsonOut::Bool(false)),
        ("reason", JsonOut::Text(reason.to_owned())),
        ("t", JsonOut::Text("pair.result".to_owned())),
    ];
    let line = write_object(&fields);
    assert(members_view(fields@) =~= seq![("ok"@, bool_text(false)), ("reason"@, json_string(reason@)), ("t"@, json_string("pair.result"@))]);
    line
}

// ---------------------------------------------------------------------------------------
// Verifications for PAM.

/// The device an authorisation is checked against: the first paired one.
pub fn active_device(devices: &Vec<Device>) -> (r: Result<&Device, DaemonError>)
    ensures
        devices@.len() == 0 ==> r matches Err(DaemonError::NoPairedDevice),
        devices@.len() > 0 ==> (r matches Ok(d) && *d == devices@[0]),
{
    if devices.len() == 0 {
        Err(DaemonError::NoPairedDevice)
    } else {
        Ok(&devices[0])
    }
}

/// A verification request on its way to the phone: the request, its exact wire line, the
/// key its answer must be signed with, and the device that holds that key.
pub struct Verification {
    pub request: VerifyRequest,
    pub line: String,
    pub key: DeviceKey,
    pub device_name: String,
}

/// Prepares a verification of `action` for `user` on this machine (`host`): picks the
/// device, loads its key, takes the next request id and draws a challenge. The caller
/// registers the waiter under `request.id` and sends `line`.
pub fn start_verification<V, J>(
    router: &mut Router<V, J>,
    devices: &Vec<Device>,
    user: String,
    host: String,
    action: String,
    detail: String,
) -> (r: Result<Verification, DaemonError>)
    ensures
        devices@.len() == 0 ==> (r matches Err(DaemonError::NoPairedDevice)) && final(router)@ == old(router)@,
        devices@.len() > 0 && p256_spki_der(devices@[0].public_key_pem@) is None ==> (r matches Err(
            DaemonError::Key(LinkError::KeyNotP256),
        )) && final(router)@ == old(router)@,
        devices@.len() > 0 && p256_spki_der(devices@[0].public_key_pem@) is Some ==> {
            &&& final(router)@.next_id == (if old(router)@.next_id == u64::MAX { 0 } else { old(router)@.next_id + 1 })
            &&& final(router)@.pending == old(router)@.pending
            &&& final(router)@.pending_json == old(router)@.pending_json
            &&& (r is Err ==> r matches Err(DaemonError::Request(ProtocolError::EntropyUnavailable)))
            &&& (r matches Ok(v) ==> {
                &&& v.request.id == old(router)@.next_id
                &&& v.request.user == user && v.request.host == host
                &&& v.request.action == action && v.request.detail == detail
                &&& v.line@ == request_line(v.request.id, v.request.challenge@, user@, host@, action@, detail@)
                &&& v.key@ == p256_spki_der(devices@[0].public_key_pem@)->0
                &&& v.device_name@ == devices@[0].name@
            })
        },
{
    let device = active_device(devices)?;
    let key = match load_verifying_key(device.public_key_pem.as_str()) {
        Ok(key) => key,
        Err(e) => return Err(DaemonError::Key(e)),
    };
    let id = router.allocate_id();
    let request = match VerifyRequest::new(id, user, host, action, detail) {
        Ok(request) => request,
        Err(e) => return Err(DaemonError::Request(e)),
    };
    let line = request.to_line();
    Ok(Verification { request, line, key, device_name: device.name.clone() })
}

/// Judges the phone's answer to a verification: a denial stands, and a signature must
/// verify against the device key over exactly the line that was sent.
pub fn conclude_verification(verification: &Verification, outcome: Result<Vec<u8>, String>) -> (r: Result<(), DaemonError>)
    ensures
        outcome matches Err(reason) ==> r matches Err(DaemonError::Denied(m)) && m@ == reason@,
        outcome matches Ok(signature) ==> {
            &&& (!p256_der_signature(signature@) ==> r matches Err(
                DaemonError::Signature(LinkError::SignatureNotDer),
            ))
            &&& (p256_der_signature(signature@) && p256_signature_verifies(
                verification.key@,
                encode_utf8(verification.line@),
                signature@,
            ) ==> r is Ok)
            &&& (p256_der_signature(signature@) && !p256_signature_verifies(
                verification.key@,
                encode_utf8(verification.line@),
                signature@,
            ) ==> r matches Err(DaemonError::Signature(LinkError::SignatureRejected)))
        },
{
    match outcome {
        Ok(signature) => match verify_assertion(&verification.key, verification.line.as_str(), signature.as_slice()) {
            Ok(()) => Ok(()),
            Err(e) => Err(DaemonError::Signature(e)),
        },
        Err(reason) => Err(DaemonError::Denied(reason)),
    }
}

/// `{"ok": ok, "reason": reason}`: the verdict PAM reads.
pub open spec fn verdict_text(ok: bool, reason: Seq<char>) -> Seq<char> {
    object_text(seq![("ok"@, bool_text(ok)), ("reason"@, json_string(reason))])
}

/// The line PAM receives: approved with reason "success", or denied with the reason the
/// verification failed.
pub fn pam_reply(outcome: &Result<(), String>) -> (r: String)
    ensures
        r@ == match outcome {
            Ok(_) => verdict_text(true, "success"@),
            Err(reason) => verdict_text(false, reason@),
        },
{
    let (ok, reason) = match outcome {
        Ok(_) => (true, "success".to_owned()),
        Err(reason) => (false, reason.clone()),
    };
    let ghost reason_view = reason@;
    let fields: Vec<(&str, JsonOut)> = vec![("ok", JsonOut::Bool(ok)), ("reason", JsonOut::Text(reason))];
    let line = write_object(&fields);
    assert(members_view(fields@) =~= seq![("ok"@, bool_text(ok)), ("reason"@, json_string(reason_view))]);
    line
}

// ---------------------------------------------------------------------------------------
// Requests on the PAM socket.

/// What a client of the PAM socket asks for. The FIDO helper shares the socket: it runs as
/// root and needs the phone, but must not gain the daemon's own privileges to reach it.
pub enum PamRequest {
    Verify { user: String, action: String, detail: String },
    MakeCredential { rp_id: String, user_name: String },
    Assert { rp_id: String, credential_id: String, payload: String },
    /// A `webauthn.` operation this daemon does not know.
    Unknown(String),
}

/// Whether `op` names a WebAuthn operation (it starts with `webauthn.`).
pub open spec fn is_webauthn_op(op: Seq<char>) -> bool {
    op.len() >= 9 && op.take(9) == "webauthn."@
}

fn starts_with_webauthn(op: &str) -> (r: bool)
    ensures
        r == is_webauthn_op(op@),
{
    proof {
        reveal_strlit("webauthn.");
    }
    let expected: [char; 9] = ['w', 'e', 'b', 'a', 'u', 't', 'h', 'n', '.'];
    assert(expected@ =~= "webauthn."@);
    let mut matched: usize = 0;
    let mut ok = true;
    for c in it: op.chars()
        invariant
            it.seq() == op@,
            matched <= 9,
            ok ==> matched == (if it.index() < 9 { it.index() } else { 9 }) as usize,
            ok ==> op@.take(matched as int) =~= expected@.take(matched as int),
            !ok ==> exists|i: int| 0 <= i < 9 && i < op@.len() && op@[i] != expected@[i],
    {
        if ok && matched < 9 {
            assert(op@[matched as int] == c);
            if c == expected[matched] {
                assert(op@.take(matched + 1) =~= op@.take(matched as int).push(c));
                matched = matched + 1;
            } else {
                ok = false;
            }
        }
    }
    proof {
        assert(expected@.take(9) =~= expected@);
        if !ok {
            let i = choose|i: int| 0 <= i < 9 && i < op@.len() && op@[i] != expected@[i];
            if op@.len() >= 9 {
                assert(op@.take(9)[i] != expected@[i]);
            }
        } else if matched == 9 {
            assert(op@.take(9) =~= "webauthn."@);
        } else {
            assert(op@.len() < 9);
        }
    }
    ok && matched == 9
}

/// The operation a request names: `verify` unless it says otherwise.
pub open spec fn pam_op(request: JsonValue) -> Seq<char> {
    member_or(request, "op"@, "verify"@)
}

/// Reads a request from the PAM socket. `op` defaults to a verification; the fields a
/// request lacks take their defaults.
pub fn classify_pam_request(request: &JsonValue) -> (r: PamRequest)
    ensures
        !is_webauthn_op(pam_op(*request)) ==> (r matches PamRequest::Verify { user, action, detail }
            && user@ == member_or(*request, "user"@, "unknown"@) && action@ == member_or(*request, "action"@, "unknown"@)
            && detail@ == member_or(*request, "detail"@, ""@)),
        is_webauthn_op(pam_op(*request)) && pam_op(*request) == "webauthn.makecred"@ ==> (r matches PamRequest::MakeCredential {
            rp_id,
            user_name,
        } && rp_id@ == member_or(*request, "rpId"@, ""@) && user_name@ == member_or(*request, "userName"@, "user"@)),
        is_webauthn_op(pam_op(*request)) && pam_op(*request) != "webauthn.makecred"@ && pam_op(*request)
            == "webauthn.assert"@ ==> (r matches PamRequest::Assert { rp_id, credential_id, payload } && rp_id@
            == member_or(*request, "rpId"@, ""@) && credential_id@ == member_or(*request, "credId"@, ""@) && payload@
            == member_or(*request, "payload"@, ""@)),
        is_webauthn_op(pam_op(*request)) && pam_op(*request) != "webauthn.makecred"@ && pam_op(*request)
            != "webauthn.assert"@ ==> (r matches PamRequest::Unknown(other) && other@ == pam_op(*request)),
{
    let op = text_or(request, "op", "verify");
    if starts_with_webauthn(op.as_str()) {
        if string_eq(&op, "webauthn.makecred") {
            PamRequest::MakeCredential { rp_id: text_or(request, "rpId", ""), user_name: text_or(request, "userName", "user") }
        } else if string_eq(&op, "webauthn.assert") {
            PamRequest::Assert {
                rp_id: text_or(request, "rpId", ""),
                credential_id: text_or(request, "credId", ""),
                payload: text_or(request, "payload", ""),
            }
        } else {
            PamRequest::Unknown(op)
        }
    } else {
        PamRequest::Verify {
            user: text_or(request, "user", "unknown"),
            action: text_or(request, "action", "unknown"),
            detail: text_or(request, "detail", ""),
        }
    }
}

// ---------------------------------------------------------------------------------------
// WebAuthn requests, relayed to the phone.

/// The makeCredential request sent to the phone, with its id, keys in sorted order.
pub open spec fn make_credential_request_text(id: u64, rp_id: Seq<char>, user_name: Seq<char>) -> Seq<char> {
    object_text(
        seq![
            ("id"@, decimal(id as nat)),
            ("rpId"@, json_string(rp_id)),
            ("type"@, json_string("webauthn.makecred"@)),
            ("userName"@, json_string(user_name)),
            ("v"@, decimal(1)),
        ],
    )
}

/// The assertion request sent to the phone, with its id, keys in sorted order.
pub open spec fn assert_request_text(id: u64, rp_id: Seq<char>, credential_id: Seq<char>, payload: Seq<char>) -> Seq<char> {
    object_text(
        seq![
            ("credId"@, json_string(credential_id)),
            ("id"@, decimal(id as nat)),
            ("payload"@, json_string(payload)),
            ("rpId"@, json_string(rp_id)),
            ("type"@, json_string("webauthn.assert"@)),
            ("v"@, decimal(1)),
        ],
    )
}

/// Prepares the request asking the phone to mint a per-site credential key (the private
/// half never leaves it): there must be a paired device. Returns the request id, under
/// which the caller registers the waiter, and the line to send.
pub fn begin_make_credential<V, J>(router: &mut Router<V, J>, devices: &Vec<Device>, rp_id: &str, user_name: &str) -> (r: Result<(u64, String), DaemonError>)
    ensures
        devices@.len() == 0 ==> (r matches Err(DaemonError::NoPairedDevice)) && final(router)@ == old(router)@,
        devices@.len() > 0 ==> {
            &&& r matches Ok((id, line))
            &&& id == old(router)@.next_id
            &&& line@ == make_credential_request_text(id, rp_id@, user_name@)
            &&& final(router)@.next_id == (if id == u64::MAX { 0 } else { id + 1 })
            &&& final(router)@.pending == old(router)@.pending
            &&& final(router)@.pending_json == old(router)@.pending_json
        },
{
    active_device(devices)?;
    let id = router.allocate_id();
    let fields: Vec<(&str, JsonOut)> = vec![
        ("id", JsonOut::UInt(id)),
        ("rpId", JsonOut::Text(rp_id.to_owned())),
        ("type", JsonOut::Text("webauthn.makecred".to_owned())),
        ("userName", JsonOut::Text(user_name.to_owned())),
        ("v", JsonOut::UInt(1)),
    ];
    let line = write_object(&fields);
    assert(members_view(fields@) =~= seq![
        ("id"@, decimal(id as nat)),
        ("rpId"@, json_string(rp_id@)),
        ("type"@, json_string("webauthn.makecred"@)),
        ("userName"@, json_string(user_name@)),
        ("v"@, decimal(1)),
    ]);
    Ok((id, line))
}

/// Prepares the request asking the phone to sign `payload` (Base64 of `authData ‖
/// clientDataHash`) with the credential `credential_id`; the fingerprint touch is what
/// authorises it. Returns the request id and the line to send.
pub fn begin_assertion<V, J>(router: &mut Router<V, J>, rp_id: &str, credential_id: &str, payload: &str) -> (r: (u64, String))
    ensures
        r.0 == old(router)@.next_id,
        r.1@ == assert_request_text(r.0, rp_id@, credential_id@, payload@),
        final(router)@.next_id == (if r.0 == u64::MAX { 0 } else { r.0 + 1 }),
        final(router)@.pending == old(router)@.pending,
        final(router)@.pending_json == old(router)@.pending_json,
{
    let id = router.allocate_id();
    let fields: Vec<(&str, JsonOut)> = vec![
        ("credId", JsonOut::Text(credential_id.to_owned())),
        ("id", JsonOut::UInt(id)),
        ("payload", JsonOut::Text(payload.to_owned())),
        ("rpId", JsonOut::Text(rp_id.to_owned())),
        ("type", JsonOut::Text("webauthn.assert".to_owned())),
        ("v", JsonOut::UInt(1)),
    ];
    let line = write_object(&fields);
    assert(members_view(fields@) =~= seq![
        ("credId"@, json_string(credential_id@)),
        ("id"@, decimal(id as nat)),
        ("payload"@, json_string(payload@)),
        ("rpId"@, json_string(rp_id@)),
        ("type"@, json_string("webauthn.assert"@)),
        ("v"@, decimal(1)),
    ]);
    (id, line)
}

/// `{"credId": id, "ok": true, "publicKeyPem": pem}`: a credential created on the phone.
pub open spec fn credential_created_text(credential_id: Seq<char>, public_key_pem: Seq<char>) -> Seq<char> {
    object_text(
        seq![
            ("credId"@, json_string(credential_id)),
            ("ok"@, bool_text(true)),
            ("publicKeyPem"@, json_string(public_key_pem)),
        ],
    )
}

/// `{"ok": true, "sig": signature}`: an assertion signed on the phone.
pub open spec fn assertion_signed_text(signature: Seq<char>) -> Seq<char> {
    object_text(seq![("ok"@, bool_text(true)), ("sig"@, json_string(signature))])
}

/// `{"error": reason, "ok": false}`: a WebAuthn request that failed.
pub open spec fn webauthn_failure_text(reason: Seq<char>) -> Seq<char> {
    object_text(seq![("error"@, json_string(reason)), ("ok"@, bool_text(false))])
}

/// Reads the phone's answer to a makeCredential request into the line for the FIDO
/// helper. A denial stands; otherwise the answer must carry a credential id and a public
/// key that loads.
pub fn credential_reply(reply: &JsonValue) -> (r: Result<String, DaemonError>)
    ensures
        str_field(*reply, "denied"@) matches Some(reason) ==> r matches Err(DaemonError::Denied(m)) && m@ == reason,
        str_field(*reply, "denied"@) is None ==> match (str_field(*reply, "credId"@), str_field(*reply, "publicKeyPem"@)) {
            (None, _) => r matches Err(DaemonError::NoCredentialId),
            (Some(_), None) => r matches Err(DaemonError::NoPublicKey),
            (Some(credential_id), Some(pem)) => if p256_spki_der(pem) is None {
                r matches Err(DaemonError::UnusableCredentialKey)
            } else {
                r matches Ok(line) && line@ == credential_created_text(credential_id, pem)
            },
        },
{
    if let Some(reason) = get_str(reply, "denied") {
        return Err(DaemonError::Denied(reason));
    }
    let credential_id = match get_str(reply, "credId") {
        Some(id) => id,
        None => return Err(DaemonError::NoCredentialId),
    };
    let public_key_pem = match get_str(reply, "publicKeyPem") {
        Some(pem) => pem,
        None => return Err(DaemonError::NoPublicKey),
    };
    match load_verifying_key(public_key_pem.as_str()) {
        Ok(_) => {},
        Err(_) => return Err(DaemonError::UnusableCredentialKey),
    }
    let ghost id_view = credential_id@;
    let ghost pem_view = public_key_pem@;
    let fields: Vec<(&str, JsonOut)> = vec![
        ("credId", JsonOut::Text(credential_id)),
        ("ok", JsonOut::Bool(true)),
        ("publicKeyPem", JsonOut::Text(public_key_pem)),
    ];
    let line = write_object(&fields);
    assert(members_view(fields@) =~= seq![
        ("credId"@, json_string(id_view)),
        ("ok"@, bool_text(true)),
        ("publicKeyPem"@, json_string(pem_view)),
    ]);
    Ok(line)
}

/// Reads the phone's answer to an assertion request into the line for the FIDO helper. A
/// denial stands; otherwise the answer must carry a signature.
pub fn assertion_reply(reply: &JsonValue) -> (r: Result<String, DaemonError>)
    ensures
        str_field(*reply, "denied"@) matches Some(reason) ==> r matches Err(DaemonError::Denied(m)) && m@ == reason,
        str_field(*reply, "denied"@) is None ==> match str_field(*reply, "sig"@) {
            None => r matches Err(DaemonError::NoSignature),
            Some(signature) => r matches Ok(line) && line@ == assertion_signed_text(signature),
        },
{
    if let Some(reason) = get_str(reply, "denied") {
        return Err(DaemonError::Denied(reason));
    }
    let signature = match get_str(reply, "sig") {
        Some(signature) => signature,
        None => return Err(DaemonError::NoSignature),
    };
    let ghost sig_view = signature@;
    let fields: Vec<(&str, JsonOut)> = vec![("ok", JsonOut::Bool(true)), ("sig", JsonOut::Text(signature))];
    let line = write_object(&fields);
    assert(members_view(fields@) =~= seq![("ok"@, bool_text(true)), ("sig"@, json_string(sig_view))]);
    Ok(line)
}

/// The line telling the FIDO helper why its request failed.
pub fn webauthn_failure(reason: &str) -> (r: String)
    ensures
        r@ == webauthn_failure_text(reason@),
{
    let fields: Vec<(&str, JsonOut)> = vec![("error", JsonOut::Text(reason.to_owned())), ("ok", JsonOut::Bool(false))];
    let line = write_object(&fields);
    assert(members_view(fields@) =~= seq![("error"@, json_string(reason@)), ("ok"@, bool_text(false))]);
    line
}

// ---------------------------------------------------------------------------------------
// The probe, which stands in for the PAM module.

/// `{"action": action, "detail": detail, "user": user}`.
pub open spec fn probe_request_text(user: Seq<char>, action: Seq<char>, detail: Seq<char>) -> Seq<char> {
    object_text(seq![("action"@, json_string(action)), ("detail"@, json_string(detail)), ("user"@, json_string(user))])
}

/// The line the probe sends to trigger one verification.
pub fn probe_request(user: &str, action: &str, detail: &str) -> (r: String)
    ensures
        r@ == probe_request_text(user@, action@, detail@),
{
    let fields: Vec<(&str, JsonOut)> = vec![
        ("action", JsonOut::Text(action.to_owned())),
        ("detail", JsonOut::Text(detail.to_owned())),
        ("user", JsonOut::Text(user.to_owned())),
    ];
    let line = write_object(&fields);
    assert(members_view(fields@) =~= seq![
        ("action"@, json_string(action@)),
        ("detail"@, json_string(detail@)),
        ("user"@, json_string(user@)),
    ]);
    line
}

/// The reason a verdict gives, `no reason` when it gives none.
pub open spec fn verdict_reason(verdict: JsonValue) -> Seq<char> {
    member_or(verdict, "reason"@, "no reason"@)
}

/// Approval when the verdict's `ok` is true and denial otherwise, each followed by the
/// reason in brackets, `no reason` when none is given.
pub fn probe_outcome(verdict: &JsonValue) -> (r: Result<String, String>)
    ensures
        bool_field(*verdict, "ok"@) == Some(true) ==> (r matches Ok(text) && text@ == "APPROVED ("@ + verdict_reason(
            *verdict,
        ) + ")"@),
        bool_field(*verdict, "ok"@) != Some(true) ==> (r matches Err(text) && text@ == "DENIED ("@ + verdict_reason(
            *verdict,
        ) + ")"@),
{
    let approved = match get_bool(verdict, "ok") {
        Some(ok) => ok,
        None => false,
    };
    let reason = text_or(verdict, "reason", "no reason");
    let mut text = if approved {
        "APPROVED (".to_owned()
    } else {
        "DENIED (".to_owned()
    };
    text.append(reason.as_str());
    text.append(")");
    if approved {
        Ok(text)
    } else {
        Err(text)
    }
}

// ---------------------------------------------------------------------------------------
// Importing a device paired by hand.

/// The record of a device paired by hand from its public key, so the manual bootstrap has
/// a migration path instead of being re-done.
pub fn imported_device(public_key_pem: String, name: String, model: String, owner: String, now: u64) -> (r: Result<Device, DaemonError>)
    ensures
        p256_spki_der(public_key_pem@) is None ==> r matches Err(DaemonError::NotAPublicKey),
        p256_spki_der(public_key_pem@) matches Some(spki) ==> r matches Ok(d) && d@ == (DeviceView {
            id: spki_id(spki),
            name: name@,
            model: model@,
            owner: owner@,
            security_level: "TrustedEnvironment"@,
            verified_boot: "green"@,
            paired_at: now,
            public_key_pem: public_key_pem@,
        }),
{
    match load_verifying_key(public_key_pem.as_str()) {
        Ok(_) => {},
        Err(_) => return Err(DaemonError::NotAPublicKey),
    }
    let id = match key_id(public_key_pem.as_str()) {
        Ok(id) => id,
        Err(_) => return Err(DaemonError::NotAPublicKey),
    };
    Ok(
        Device {
            id,
            name,
            model,
            owner,
            security_level: "TrustedEnvironment".to_owned(),
            verified_boot: "green".to_owned(),
            paired_at: now,
            public_key_pem,
        },
    )
}

} // verus!

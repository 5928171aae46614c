//! The FIDO helper's line to the daemon.
//!
//! `/dev/uhid` is 0600 root:root so the helper runs as root, but the phone belongs to the
//! daemon's session. Rather than give the helper the daemon's privileges — or the daemon
//! root — it asks over the same Unix socket PAM uses: one JSON line out, one JSON line back.

use vstd::prelude::*;
use crate::json::{JsonOut, JsonValue, bool_field, get_bool, get_str, members_view, object_text, str_field, text_or, write_object};
use crate::primitives::json_string;

verus! {

/// A credential the phone created: its id (unpadded URL-safe Base64) and public key (SPKI PEM).
pub struct NewCredential {
    pub credential_id: String,
    pub public_key_pem: String,
}

/// Why the daemon's answer gave the helper nothing to use.
pub enum FidoLinkError {
    /// The daemon said no, for this reason.
    Refused(String),
    /// The answer lacks this field.
    MissingField(String),
}

impl FidoLinkError {
    /// The message the helper reports for this error.
    pub fn message(&self) -> (r: String)
        ensures
            r@ == match *self {
                FidoLinkError::Refused(reason) => reason@,
                FidoLinkError::MissingField(name) => "daemon reply has no "@ + name@,
            },
    {
        match self {
            FidoLinkError::Refused(reason) => reason.clone(),
            FidoLinkError::MissingField(name) => {
                let mut text = "daemon reply has no ".to_owned();
                text.append(name.as_str());
                text
            },
        }
    }
}

/// `{"op": "webauthn.makecred", "rpId": rp_id, "userName": user_name}`.
pub open spec fn make_credential_text(rp_id: Seq<char>, user_name: Seq<char>) -> Seq<char> {
    object_text(
        seq![
            ("op"@, json_string("webauthn.makecred"@)),
            ("rpId"@, json_string(rp_id)),
            ("userName"@, json_string(user_name)),
        ],
    )
}

/// `{"credId": credential_id, "op": "webauthn.assert", "payload": payload, "rpId": rp_id}`.
pub open spec fn assert_text(rp_id: Seq<char>, credential_id: Seq<char>, payload: Seq<char>) -> Seq<char> {
    object_text(
        seq![
            ("credId"@, json_string(credential_id)),
            ("op"@, json_string("webauthn.assert"@)),
            ("payload"@, json_string(payload)),
            ("rpId"@, json_string(rp_id)),
        ],
    )
}

/// The line asking the daemon for a fresh per-site credential.
pub fn make_credential_request(rp_id: &str, user_name: &str) -> (r: String)
    ensures
        r@ == make_credential_text(rp_id@, user_name@),
{
    let fields: Vec<(&str, JsonOut)> = vec![
        ("op", JsonOut::Text("webauthn.makecred".to_owned())),
        ("rpId", JsonOut::Text(rp_id.to_owned())),
        ("userName", JsonOut::Text(user_name.to_owned())),
    ];
    let line = write_object(&fields);
    assert(members_view(fields@) =~= seq![
        ("op"@, json_string("webauthn.makecred"@)),
        ("rpId"@, json_string(rp_id@)),
        ("userName"@, json_string(user_name@)),
    ]);
    line
}

/// The line asking the daemon to have `payload` (Base64 of `authData ‖ clientDataHash`)
/// signed with the credential `credential_id`.
pub fn assert_request(rp_id: &str, credential_id: &str, payload: &str) -> (r: String)
    ensures
        r@ == assert_text(rp_id@, credential_id@, payload@),
{
    let fields: Vec<(&str, JsonOut)> = vec![
        ("credId", JsonOut::Text(credential_id.to_owned())),
        ("op", JsonOut::Text("webauthn.assert".to_owned())),
        ("payload", JsonOut::Text(payload.to_owned())),
        ("rpId", JsonOut::Text(rp_id.to_owned())),
    ];
    let line = write_object(&fields);
    assert(members_view(fields@) =~= seq![
        ("credId"@, json_string(credential_id@)),
        ("op"@, json_string("webauthn.assert"@)),
        ("payload"@, json_string(payload@)),
        ("rpId"@, json_string(rp_id@)),
    ]);
    line
}

/// Whether the daemon's answer says `ok`; otherwise the reason it gives (`refused` when it
/// gives none).
pub fn check_reply(reply: &JsonValue) -> (r: Result<(), FidoLinkError>)
    ensures
        bool_field(*reply, "ok"@) == Some(true) ==> r is Ok,
        bool_field(*reply, "ok"@) != Some(true) ==> (r matches Err(FidoLinkError::Refused(reason)) && reason@
            == match str_field(*reply, "error"@) {
            Some(text) => text,
            None => "refused"@,
        }),
{
    let ok = match get_bool(reply, "ok") {
        Some(ok) => ok,
        None => false,
    };
    if ok {
        Ok(())
    } else {
        Err(FidoLinkError::Refused(text_or(reply, "error", "refused")))
    }
}

/// The string field `name` of the daemon's answer.
pub fn field(reply: &JsonValue, name: &str) -> (r: Result<String, FidoLinkError>)
    ensures
        str_field(*reply, name@) matches Some(text) ==> (r matches Ok(value) && value@ == text),
        str_field(*reply, name@) is None ==> (r matches Err(FidoLinkError::MissingField(missing)) && missing@ == name@),
{
    match get_str(reply, name) {
        Some(text) => Ok(text),
        None => Err(FidoLinkError::MissingField(name.to_owned())),
    }
}

/// The credential in the daemon's answer to a makeCredential request.
pub fn new_credential(reply: &JsonValue) -> (r: Result<NewCredential, FidoLinkError>)
    ensures
        bool_field(*reply, "ok"@) != Some(true) ==> r matches Err(FidoLinkError::Refused(_)),
        bool_field(*reply, "ok"@) == Some(true) ==> match (str_field(*reply, "credId"@), str_field(*reply, "publicKeyPem"@)) {
            (Some(id), Some(pem)) => r matches Ok(c) && c.credential_id@ == id && c.public_key_pem@ == pem,
            (None, _) => r matches Err(FidoLinkError::MissingField(name)) && name@ == "credId"@,
            (Some(_), None) => r matches Err(FidoLinkError::MissingField(name)) && name@ == "publicKeyPem"@,
        },
{
    check_reply(reply)?;
    Ok(NewCredential { credential_id: field(reply, "credId")?, public_key_pem: field(reply, "publicKeyPem")? })
}

/// The signature (standard Base64) in the daemon's answer to an assertion request.
pub fn signature(reply: &JsonValue) -> (r: Result<String, FidoLinkError>)
    ensures
        bool_field(*reply, "ok"@) != Some(true) ==> r matches Err(FidoLinkError::Refused(_)),
        bool_field(*reply, "ok"@) == Some(true) ==> match str_field(*reply, "sig"@) {
            Some(sig) => r matches Ok(s) && s@ == sig,
            None => r matches Err(FidoLinkError::MissingField(name)) && name@ == "sig"@,
        },
{
    check_reply(reply)?;
    field(reply, "sig")
}

} // verus!

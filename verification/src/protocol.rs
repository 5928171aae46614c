//! The signed request. Everything the phone displays is inside the bytes it signs, so an
//! assertion cannot be lifted onto a different user, host or action.

use vstd::prelude::*;
use crate::json::{
    get_str, get_u64, lemma_json_string_one_line, lemma_json_string_prefix, member_text, members_text, object_text,
    str_field, u64_field, write_object, JsonOut, JsonValue, members_view,
};
use crate::primitives::{base64_standard, base64_standard_decoded, decode_base64, encode_base64, json_string, os_random};
use crate::text::{decimal, lemma_decimal_digits, lemma_decimal_prefix};

verus! {

pub const CHALLENGE_LEN: usize = 32;

pub struct VerifyRequest {
    pub id: u64,
    pub challenge: [u8; CHALLENGE_LEN],
    pub user: String,
    pub host: String,
    pub action: String,
    pub detail: String,
}

pub struct VerifyResponse {
    pub id: u64,
    pub signature: Vec<u8>,
    pub denied: Option<String>,
}

/// Why a request could not be built or a reply could not be read.
#[derive(Debug, Clone, Copy, PartialEq, Eq, Structural)]
pub enum ProtocolError {
    EntropyUnavailable,
    InvalidJson,
    NoId,
    NoSignature,
    SignatureNotBase64,
}

/// The message for `e`.
pub open spec fn protocol_error_text(e: ProtocolError) -> Seq<char> {
    match e {
        ProtocolError::EntropyUnavailable => "drawing a challenge from the OS CSPRNG"@,
        ProtocolError::InvalidJson => "phone sent invalid JSON"@,
        ProtocolError::NoId => "response has no id"@,
        ProtocolError::NoSignature => "response has neither sig nor denied"@,
        ProtocolError::SignatureNotBase64 => "sig is not valid base64"@,
    }
}

impl ProtocolError {
    /// The message the daemon reports for this error.
    pub fn message(&self) -> (r: String)
        ensures
            r@ == protocol_error_text(*self),
    {
        let text = match self {
            ProtocolError::EntropyUnavailable => "drawing a challenge from the OS CSPRNG",
            ProtocolError::InvalidJson => "phone sent invalid JSON",
            ProtocolError::NoId => "response has no id",
            ProtocolError::NoSignature => "response has neither sig nor denied",
            ProtocolError::SignatureNotBase64 => "sig is not valid base64",
        };
        text.to_owned()
    }
}

/// The wire line of a verification request: a JSON object with the version, the message
/// type, the id, the Base64 challenge and the user, host, action and detail the phone
/// shows, keys in sorted order.
pub open spec fn request_line(id: u64, challenge: Seq<u8>, user: Seq<char>, host: Seq<char>, action: Seq<char>, detail: Seq<char>) -> Seq<char> {
    object_text(
        seq![
            ("action"@, json_string(action)),
            ("challenge"@, json_string(base64_standard(challenge))),
            ("detail"@, json_string(detail)),
            ("host"@, json_string(host)),
            ("id"@, decimal(id as nat)),
            ("type"@, json_string("verify.request"@)),
            ("user"@, json_string(user)),
            ("v"@, decimal(1)),
        ],
    )
}

/// The request line written out from left to right: each field's text between fixed
/// pieces of punctuation and keys.
proof fn lemma_request_line_parts(id: u64, challenge: Seq<u8>, user: Seq<char>, host: Seq<char>, action: Seq<char>, detail: Seq<char>)
    ensures
        request_line(id, challenge, user, host, action, detail) == line_head() + (json_string(action) + (
        after_action() + (json_string(base64_standard(challenge)) + (after_challenge() + (json_string(detail) + (
        after_detail() + (json_string(host) + (after_host() + (decimal(id as nat) + (after_id() + (json_string(user)
        + line_end()))))))))))),
{
    let m = seq![
        ("action"@, json_string(action)),
        ("challenge"@, json_string(base64_standard(challenge))),
        ("detail"@, json_string(detail)),
        ("host"@, json_string(host)),
        ("id"@, decimal(id as nat)),
        ("type"@, json_string("verify.request"@)),
        ("user"@, json_string(user)),
        ("v"@, decimal(1)),
    ];
    lemma_object_text_eight(m);
    let tail7 = ","@ + member_text(m[7]) + "}"@;
    let tail6 = ","@ + member_text(m[6]) + tail7;
    let tail5 = ","@ + member_text(m[5]) + tail6;
    let tail4 = ","@ + member_text(m[4]) + tail5;
    let tail3 = ","@ + member_text(m[3]) + tail4;
    let tail2 = ","@ + member_text(m[2]) + tail3;
    let tail1 = ","@ + member_text(m[1]) + tail2;
    assert(tail7 =~= line_end());
    assert(tail6 =~= ","@ + json_string("user"@) + ":"@ + (json_string(user) + line_end()));
    assert(tail5 =~= after_id() + (json_string(user) + line_end()));
    assert(tail4 =~= after_host() + (decimal(id as nat) + tail5));
    assert(tail3 =~= after_detail() + (json_string(host) + tail4));
    assert(tail2 =~= after_challenge() + (json_string(detail) + tail3));
    assert(tail1 =~= after_action() + (json_string(base64_standard(challenge)) + tail2));
    assert("{"@ + member_text(m[0]) + tail1 =~= line_head() + (json_string(action) + tail1));
}

/// An object of eight members, written from left to right.
proof fn lemma_object_text_eight(m: Seq<(Seq<char>, Seq<char>)>)
    requires
        m.len() == 8,
    ensures
        object_text(m) == "{"@ + member_text(m[0]) + (","@ + member_text(m[1]) + (","@ + member_text(m[2]) + (","@
            + member_text(m[3]) + (","@ + member_text(m[4]) + (","@ + member_text(m[5]) + (","@ + member_text(m[6]) + (
        ","@ + member_text(m[7]) + "}"@))))))),
{
    let tail7 = ","@ + member_text(m[7]) + "}"@;
    let tail6 = ","@ + member_text(m[6]) + tail7;
    let tail5 = ","@ + member_text(m[5]) + tail6;
    let tail4 = ","@ + member_text(m[4]) + tail5;
    let tail3 = ","@ + member_text(m[3]) + tail4;
    let tail2 = ","@ + member_text(m[2]) + tail3;
    let tail1 = ","@ + member_text(m[1]) + tail2;
    assert(m.take(8) =~= m);
    lemma_members_text_step(m, 7);
    lemma_wrap_step("{"@, members_text(m.take(7)), member_text(m[7]), "}"@);
    lemma_members_text_step(m, 6);
    lemma_wrap_step("{"@, members_text(m.take(6)), member_text(m[6]), tail7);
    lemma_members_text_step(m, 5);
    lemma_wrap_step("{"@, members_text(m.take(5)), member_text(m[5]), tail6);
    lemma_members_text_step(m, 4);
    lemma_wrap_step("{"@, members_text(m.take(4)), member_text(m[4]), tail5);
    lemma_members_text_step(m, 3);
    lemma_wrap_step("{"@, members_text(m.take(3)), member_text(m[3]), tail4);
    lemma_members_text_step(m, 2);
    lemma_wrap_step("{"@, members_text(m.take(2)), member_text(m[2]), tail3);
    lemma_members_text_step(m, 1);
    lemma_wrap_step("{"@, members_text(m.take(1)), member_text(m[1]), tail2);
    assert(members_text(m.take(1)) == member_text(m[0]));
}

proof fn lemma_wrap_step(head: Seq<char>, front: Seq<char>, member: Seq<char>, rest: Seq<char>)
    ensures
        head + (front + ","@ + member) + rest == head + front + (","@ + member + rest),
{
    assert(head + (front + ","@ + member) + rest =~= head + front + (","@ + member + rest));
}

/// Each member after the first adds a comma and its text.
proof fn lemma_members_text_step(m: Seq<(Seq<char>, Seq<char>)>, k: int)
    requires
        1 <= k < m.len(),
    ensures
        members_text(m.take(k + 1)) == members_text(m.take(k)) + ","@ + member_text(m[k]),
{
    assert(m.take(k + 1).drop_last() =~= m.take(k));
}

spec fn line_head() -> Seq<char> {
    "{"@ + json_string("action"@) + ":"@
}

spec fn after_action() -> Seq<char> {
    ","@ + json_string("challenge"@) + ":"@
}

spec fn after_challenge() -> Seq<char> {
    ","@ + json_string("detail"@) + ":"@
}

spec fn after_detail() -> Seq<char> {
    ","@ + json_string("host"@) + ":"@
}

spec fn after_host() -> Seq<char> {
    ","@ + json_string("id"@) + ":"@
}

spec fn after_id() -> Seq<char> {
    ","@ + json_string("type"@) + ":"@ + json_string("verify.request"@) + ","@ + json_string("user"@) + ":"@
}

spec fn line_end() -> Seq<char> {
    ","@ + json_string("v"@) + ":"@ + decimal(1) + "}"@
}

proof fn lemma_cancel_prefix(p: Seq<char>, s: Seq<char>, t: Seq<char>)
    requires
        p + s == p + t,
    ensures
        s == t,
{
    assert(s =~= (p + s).subrange(p.len() as int, (p + s).len() as int));
    assert(t =~= (p + t).subrange(p.len() as int, (p + t).len() as int));
}

/// A request line names its request: two lines are equal only when they carry the same id,
/// the same user, host, action and detail, and the same Base64 text of the challenge (so the
/// same challenge, wherever the encoding decodes back to it). The phone shows those fields
/// and signs these bytes, so an approval cannot be lifted onto a different request.
pub proof fn lemma_request_line_injective(
    id1: u64, challenge1: Seq<u8>, user1: Seq<char>, host1: Seq<char>, action1: Seq<char>, detail1: Seq<char>,
    id2: u64, challenge2: Seq<u8>, user2: Seq<char>, host2: Seq<char>, action2: Seq<char>, detail2: Seq<char>,
)
    requires
        request_line(id1, challenge1, user1, host1, action1, detail1) == request_line(id2, challenge2, user2, host2, action2, detail2),
    ensures
        id1 == id2,
        user1 == user2,
        host1 == host2,
        action1 == action2,
        detail1 == detail2,
        base64_standard(challenge1) == base64_standard(challenge2),
        base64_standard_decoded(base64_standard(challenge1)) == Some(challenge1)
            && base64_standard_decoded(base64_standard(challenge2)) == Some(challenge2) ==> challenge1 == challenge2,
{
    lemma_request_line_parts(id1, challenge1, user1, host1, action1, detail1);
    lemma_request_line_parts(id2, challenge2, user2, host2, action2, detail2);
    let t1 = json_string(user1) + line_end();
    let t2 = json_string(user2) + line_end();
    let i1 = decimal(id1 as nat) + (after_id() + t1);
    let i2 = decimal(id2 as nat) + (after_id() + t2);
    let h1 = json_string(host1) + (after_host() + i1);
    let h2 = json_string(host2) + (after_host() + i2);
    let d1 = json_string(detail1) + (after_detail() + h1);
    let d2 = json_string(detail2) + (after_detail() + h2);
    let c1 = json_string(base64_standard(challenge1)) + (after_challenge() + d1);
    let c2 = json_string(base64_standard(challenge2)) + (after_challenge() + d2);
    let a1 = json_string(action1) + (after_action() + c1);
    let a2 = json_string(action2) + (after_action() + c2);
    lemma_cancel_prefix(line_head(), a1, a2);
    lemma_json_string_prefix(action1, action2, after_action() + c1, after_action() + c2);
    lemma_cancel_prefix(after_action(), c1, c2);
    lemma_json_string_prefix(base64_standard(challenge1), base64_standard(challenge2), after_challenge() + d1, after_challenge() + d2);
    lemma_cancel_prefix(after_challenge(), d1, d2);
    lemma_json_string_prefix(detail1, detail2, after_detail() + h1, after_detail() + h2);
    lemma_cancel_prefix(after_detail(), h1, h2);
    lemma_json_string_prefix(host1, host2, after_host() + i1, after_host() + i2);
    lemma_cancel_prefix(after_host(), i1, i2);
    reveal_strlit(",");
    assert((after_id() + t1)[0] == ',');
    assert((after_id() + t2)[0] == ',');
    lemma_decimal_prefix(id1 as nat, id2 as nat, after_id() + t1, after_id() + t2);
    lemma_cancel_prefix(after_id(), t1, t2);
    lemma_json_string_prefix(user1, user2, line_end(), line_end());
}

proof fn lemma_one_line_concat(a: Seq<char>, b: Seq<char>)
    requires
        !a.contains('\n'),
        !b.contains('\n'),
    ensures
        !(a + b).contains('\n'),
{
    assert forall|i: int| 0 <= i < (a + b).len() implies (a + b)[i] != '\n' by {
        if i < a.len() {
            assert((a + b)[i] == a[i]);
        } else {
            assert((a + b)[i] == b[i - a.len()]);
        }
    }
}

proof fn lemma_decimal_one_line(n: nat)
    ensures
        !decimal(n).contains('\n'),
{
    lemma_decimal_digits(n);
    assert forall|i: int| 0 <= i < decimal(n).len() implies decimal(n)[i] != '\n' by {
        assert(48 <= decimal(n)[i] as u32);
    }
}

proof fn lemma_punctuation_one_line(text: Seq<char>)
    requires
        text == "{"@ || text == ":"@ || text == ","@ || text == "}"@,
    ensures
        !text.contains('\n'),
{
    reveal_strlit("{");
    reveal_strlit(":");
    reveal_strlit(",");
    reveal_strlit("}");
    assert(text.len() == 1);
    assert(text[0] != '\n');
}

proof fn lemma_key_one_line(key: Seq<char>)
    ensures
        !(","@ + json_string(key) + ":"@).contains('\n'),
{
    lemma_punctuation_one_line(","@);
    lemma_punctuation_one_line(":"@);
    lemma_json_string_one_line(key);
    lemma_one_line_concat(","@, json_string(key));
    lemma_one_line_concat(","@ + json_string(key), ":"@);
}

/// A request line is a single line: none of its fields, however they read, can put a line
/// feed into it, so it travels as exactly one line of the newline-delimited protocol.
pub proof fn lemma_request_line_one_line(id: u64, challenge: Seq<u8>, user: Seq<char>, host: Seq<char>, action: Seq<char>, detail: Seq<char>)
    ensures
        !request_line(id, challenge, user, host, action, detail).contains('\n'),
{
    lemma_request_line_parts(id, challenge, user, host, action, detail);
    lemma_punctuation_one_line("{"@);
    lemma_punctuation_one_line(":"@);
    lemma_punctuation_one_line(","@);
    lemma_punctuation_one_line("}"@);
    lemma_json_string_one_line("action"@);
    lemma_one_line_concat("{"@, json_string("action"@));
    lemma_one_line_concat("{"@ + json_string("action"@), ":"@);
    lemma_key_one_line("challenge"@);
    lemma_key_one_line("detail"@);
    lemma_key_one_line("host"@);
    lemma_key_one_line("id"@);
    lemma_key_one_line("type"@);
    lemma_key_one_line("user"@);
    lemma_key_one_line("v"@);
    lemma_json_string_one_line("verify.request"@);
    lemma_one_line_concat(","@ + json_string("type"@) + ":"@, json_string("verify.request"@));
    lemma_one_line_concat(","@ + json_string("type"@) + ":"@ + json_string("verify.request"@), ","@ + json_string("user"@) + ":"@);
    assert(after_id() =~= ","@ + json_string("type"@) + ":"@ + json_string("verify.request"@) + (","@ + json_string("user"@) + ":"@));
    lemma_decimal_one_line(1);
    lemma_one_line_concat(","@ + json_string("v"@) + ":"@, decimal(1));
    lemma_one_line_concat(","@ + json_string("v"@) + ":"@ + decimal(1), "}"@);
    lemma_json_string_one_line(action);
    lemma_json_string_one_line(base64_standard(challenge));
    lemma_json_string_one_line(detail);
    lemma_json_string_one_line(host);
    lemma_json_string_one_line(user);
    lemma_decimal_one_line(id as nat);
    let t = json_string(user) + line_end();
    lemma_one_line_concat(json_string(user), line_end());
    let i = decimal(id as nat) + (after_id() + t);
    lemma_one_line_concat(after_id(), t);
    lemma_one_line_concat(decimal(id as nat), after_id() + t);
    let h = json_string(host) + (after_host() + i);
    lemma_one_line_concat(after_host(), i);
    lemma_one_line_concat(json_string(host), after_host() + i);
    let d = json_string(detail) + (after_detail() + h);
    lemma_one_line_concat(after_detail(), h);
    lemma_one_line_concat(json_string(detail), after_detail() + h);
    let c = json_string(base64_standard(challenge)) + (after_challenge() + d);
    lemma_one_line_concat(after_challenge(), d);
    lemma_one_line_concat(json_string(base64_standard(challenge)), after_challenge() + d);
    let a = json_string(action) + (after_action() + c);
    lemma_one_line_concat(after_action(), c);
    lemma_one_line_concat(json_string(action), after_action() + c);
    lemma_one_line_concat(line_head(), a);
}

impl VerifyRequest {
    /// A request with a fresh 32-byte challenge from the OS CSPRNG. `host` is the name of
    /// this machine, read by the caller.
    pub fn new(id: u64, user: String, host: String, action: String, detail: String) -> (r: Result<Self, ProtocolError>)
        ensures
            r matches Ok(request) ==> request.id == id && request.user == user && request.host == host
                && request.action == action && request.detail == detail,
            r is Err ==> r == Err::<Self, ProtocolError>(ProtocolError::EntropyUnavailable),
    {
        match os_random::<CHALLENGE_LEN>() {
            Some(challenge) => Ok(Self { id, challenge, user, host, action, detail }),
            None => Err(ProtocolError::EntropyUnavailable),
        }
    }

    /// The exact bytes sent on the wire, and therefore the exact bytes signed. Neither side
    /// re-serialises before hashing. The line holds no line feed, and its Base64 challenge
    /// decodes back to the challenge.
    pub fn to_line(&self) -> (r: String)
        ensures
            r@ == request_line(self.id, self.challenge@, self.user@, self.host@, self.action@, self.detail@),
            !r@.contains('\n'),
            base64_standard_decoded(base64_standard(self.challenge@)) == Some(self.challenge@),
    {
        let challenge = encode_base64(&self.challenge);
        let fields: Vec<(&str, JsonOut)> = vec![
            ("action", JsonOut::Text(self.action.clone())),
            ("challenge", JsonOut::Text(challenge)),
            ("detail", JsonOut::Text(self.detail.clone())),
            ("host", JsonOut::Text(self.host.clone())),
            ("id", JsonOut::UInt(self.id)),
            ("type", JsonOut::Text("verify.request".to_owned())),
            ("user", JsonOut::Text(self.user.clone())),
            ("v", JsonOut::UInt(1)),
        ];
        let line = write_object(&fields);
        assert(members_view(fields@) =~= seq![
            ("action"@, json_string(self.action@)),
            ("challenge"@, json_string(base64_standard(self.challenge@))),
            ("detail"@, json_string(self.detail@)),
            ("host"@, json_string(self.host@)),
            ("id"@, decimal(self.id as nat)),
            ("type"@, json_string("verify.request"@)),
            ("user"@, json_string(self.user@)),
            ("v"@, decimal(1)),
        ]);
        proof {
            lemma_request_line_one_line(self.id, self.challenge@, self.user@, self.host@, self.action@, self.detail@);
        }
        line
    }
}

/// What a reply to a verification request says: its id, then either the reason the user
/// denied it, or the Base64-decoded DER signature.
pub open spec fn response_spec(document: JsonValue) -> Result<(u64, Seq<u8>, Option<Seq<char>>), ProtocolError> {
    match u64_field(document, "id"@) {
        None => Err(ProtocolError::NoId),
        Some(id) => match str_field(document, "denied"@) {
            Some(reason) => Ok((id, Seq::empty(), Some(reason))),
            None => match str_field(document, "sig"@) {
                None => Err(ProtocolError::NoSignature),
                Some(encoded) => match base64_standard_decoded(encoded) {
                    None => Err(ProtocolError::SignatureNotBase64),
                    Some(signature) => Ok((id, signature, None)),
                },
            },
        },
    }
}

pub open spec fn response_view(r: Result<VerifyResponse, ProtocolError>) -> Result<(u64, Seq<u8>, Option<Seq<char>>), ProtocolError> {
    match r {
        Ok(response) => Ok((response.id, response.signature@, response.denied.deep_view())),
        Err(e) => Err(e),
    }
}

/// Reads the phone's reply to a verification request.
pub fn parse_response(document: &JsonValue) -> (r: Result<VerifyResponse, ProtocolError>)
    ensures
        response_view(r) == response_spec(*document),
{
    let id = match get_u64(document, "id") {
        Some(id) => id,
        None => return Err(ProtocolError::NoId),
    };
    if let Some(reason) = get_str(document, "denied") {
        return Ok(VerifyResponse { id, signature: Vec::new(), denied: Some(reason) });
    }
    let encoded = match get_str(document, "sig") {
        Some(encoded) => encoded,
        None => return Err(ProtocolError::NoSignature),
    };
    let signature = match decode_base64(encoded.as_str()) {
        Some(signature) => signature,
        None => return Err(ProtocolError::SignatureNotBase64),
    };
    proof {
        assert(signature.deep_view() =~= signature@);
    }
    Ok(VerifyResponse { id, signature, denied: None })
}

} // verus!

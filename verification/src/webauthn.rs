//! CTAP2 credential creation and assertions.
//!
//! Only the parts a browser actually exercises: `authenticatorMakeCredential` and
//! `authenticatorGetAssertion`, with `none` attestation. Requests arrive as decoded CBOR
//! values; responses are framed here, byte for byte, in canonical CBOR.

use vstd::prelude::*;
use vstd::utf8::encode_utf8;
use crate::bytes::{be16, be16_bytes, be32, be32_bytes, copy_bytes, extend_bytes};
use crate::fidolink::NewCredential;
use crate::primitives::{
    base64_standard, base64_standard_decoded, base64_url, base64_url_decoded, decode_base64,
    decode_base64_url, encode_base64, encode_base64_url, p256_affine_xy, sha256, sha256_digest,
    affine_xy_from_pem,
};

verus! {

/// Our own AAGUID — never a certified vendor's.
pub const AAGUID: [u8; 16] = [
    0x6f, 0x1d, 0x2b, 0x1a, 0x9c, 0x4e, 0x4f, 0x57, 0xa1, 0xd3, 0x7b, 0x8e, 0x2c, 0x05, 0xf9, 0xa4,
];

pub const FLAG_USER_PRESENT: u8 = 0x01;
pub const FLAG_USER_VERIFIED: u8 = 0x04;
pub const FLAG_ATTESTED: u8 = 0x40;

/// A decoded CBOR data item, as far as CTAP2 requests need one: integers, byte and text
/// strings, arrays and maps (in their encoded order). Everything else is `Other`.
pub enum CborValue {
    Integer(i128),
    Bytes(Vec<u8>),
    Text(String),
    Array(Vec<CborValue>),
    Mapping(Vec<(CborValue, CborValue)>),
    Other,
}

/// Why a CTAP2 request could not be read or a response built.
#[derive(Debug, Clone, Copy, PartialEq, Eq, Structural)]
pub enum WebauthnError {
    NotAMap,
    NoRp,
    RpHasNoId,
    NoRpId,
    RpIdNotText,
    NoClientDataHash,
    NotByteString,
    CredentialIdTooLong,
    BadCoordinates,
    CredentialIdNotBase64Url,
    KeyNotP256,
    NoCredentialNamed,
    SignatureNotBase64,
}

/// The message for `e`.
pub open spec fn webauthn_error_text(e: WebauthnError) -> Seq<char> {
    match e {
        WebauthnError::NotAMap => "request body is not a CBOR map"@,
        WebauthnError::NoRp => "makeCredential has no rp"@,
        WebauthnError::RpHasNoId => "rp has no id"@,
        WebauthnError::NoRpId => "getAssertion has no rpId"@,
        WebauthnError::RpIdNotText => "rpId is not a string"@,
        WebauthnError::NoClientDataHash => "getAssertion has no clientDataHash"@,
        WebauthnError::NotByteString => "expected a CBOR byte string"@,
        WebauthnError::CredentialIdTooLong => "credential id is too long"@,
        WebauthnError::BadCoordinates => "P-256 coordinates must be 32 bytes each"@,
        WebauthnError::CredentialIdNotBase64Url => "phone returned a credential id that is not base64url"@,
        WebauthnError::KeyNotP256 => "phone returned a key that is not a P-256 SPKI PEM"@,
        WebauthnError::NoCredentialNamed => "no credential named, and this authenticator stores none"@,
        WebauthnError::SignatureNotBase64 => "phone returned a signature that is not base64"@,
    }
}

impl WebauthnError {
    /// The message the daemon reports for this error.
    pub fn message(&self) -> (r: String)
        ensures
            r@ == webauthn_error_text(*self),
    {
        let text = match self {
            WebauthnError::NotAMap => "request body is not a CBOR map",
            WebauthnError::NoRp => "makeCredential has no rp",
            WebauthnError::RpHasNoId => "rp has no id",
            WebauthnError::NoRpId => "getAssertion has no rpId",
            WebauthnError::RpIdNotText => "rpId is not a string",
            WebauthnError::NoClientDataHash => "getAssertion has no clientDataHash",
            WebauthnError::NotByteString => "expected a CBOR byte string",
            WebauthnError::CredentialIdTooLong => "credential id is too long",
            WebauthnError::BadCoordinates => "P-256 coordinates must be 32 bytes each",
            WebauthnError::CredentialIdNotBase64Url => "phone returned a credential id that is not base64url",
            WebauthnError::KeyNotP256 => "phone returned a key that is not a P-256 SPKI PEM",
            WebauthnError::NoCredentialNamed => "no credential named, and this authenticator stores none",
            WebauthnError::SignatureNotBase64 => "phone returned a signature that is not base64",
        };
        text.to_owned()
    }
}

pub struct MakeCredential {
    pub rp_id: String,
    pub user_name: String,
}

pub struct GetAssertion {
    pub client_data_hash: Vec<u8>,
    pub rp_id: String,
    /// Credential ids the site will accept, in its order of preference.
    pub allowed: Vec<Vec<u8>>,
}

/// The value of the first entry of `map` whose key is the integer `key`.
pub open spec fn entry_spec(map: Seq<(CborValue, CborValue)>, key: i128) -> Option<CborValue>
    decreases map.len(),
{
    if map.len() == 0 {
        None
    } else if map[0].0 matches CborValue::Integer(n) && n == key {
        Some(map[0].1)
    } else {
        entry_spec(map.skip(1), key)
    }
}

/// The value of the first entry of the map `value` whose key is the text `name`.
pub open spec fn field_in(entries: Seq<(CborValue, CborValue)>, name: Seq<char>) -> Option<CborValue>
    decreases entries.len(),
{
    if entries.len() == 0 {
        None
    } else if entries[0].0 matches CborValue::Text(t) && t@ == name {
        Some(entries[0].1)
    } else {
        field_in(entries.skip(1), name)
    }
}

pub open spec fn field_spec(value: CborValue, name: Seq<char>) -> Option<CborValue> {
    match value {
        CborValue::Mapping(entries) => field_in(entries@, name),
        _ => None,
    }
}

pub open spec fn text_field_spec(value: CborValue, name: Seq<char>) -> Option<Seq<char>> {
    match field_spec(value, name) {
        Some(CborValue::Text(t)) => Some(t@),
        _ => None,
    }
}

fn entry(map: &Vec<(CborValue, CborValue)>, key: i128) -> (r: Option<&CborValue>)
    ensures
        r matches Some(v) ==> entry_spec(map@, key) == Some(*v),
        r is None ==> entry_spec(map@, key) is None,
{
    let mut i: usize = 0;
    assert(map@.skip(0) =~= map@);
    while i < map.len()
        invariant
            i <= map@.len(),
            entry_spec(map@, key) == entry_spec(map@.skip(i as int), key),
        decreases map@.len() - i,
    {
        let pair = &map[i];
        assert(map@.skip(i as int)[0] == map@[i as int]);
        assert(map@.skip(i as int).skip(1) =~= map@.skip(i + 1));
        match &pair.0 {
            CborValue::Integer(n) => {
                if *n == key {
                    return Some(&pair.1);
                }
            },
            _ => {},
        }
        i = i + 1;
    }
    None
}

fn str_eq(a: &String, b: &str) -> (r: bool)
    ensures
        r == (a@ == b@),
{
    *a == b.to_owned()
}

fn field<'a>(value: &'a CborValue, name: &str) -> (r: Option<&'a CborValue>)
    ensures
        r matches Some(v) ==> field_spec(*value, name@) == Some(*v),
        r is None ==> field_spec(*value, name@) is None,
{
    match value {
        CborValue::Mapping(entries) => {
            let mut i: usize = 0;
            assert(entries@.skip(0) =~= entries@);
            while i < entries.len()
                invariant
                    i <= entries@.len(),
                    field_spec(*value, name@) == field_in(entries@, name@),
                    field_in(entries@, name@) == field_in(entries@.skip(i as int), name@),
                decreases entries@.len() - i,
            {
                let pair = &entries[i];
                assert(entries@.skip(i as int)[0] == entries@[i as int]);
                assert(entries@.skip(i as int).skip(1) =~= entries@.skip(i + 1));
                match &pair.0 {
                    CborValue::Text(t) => {
                        if str_eq(t, name) {
                            return Some(&pair.1);
                        }
                    },
                    _ => {},
                }
                i = i + 1;
            }
            None
        },
        _ => None,
    }
}

fn text_field(value: &CborValue, name: &str) -> (r: Option<String>)
    ensures
        r.deep_view() == text_field_spec(*value, name@),
{
    match field(value, name) {
        Some(CborValue::Text(text)) => Some(text.clone()),
        _ => None,
    }
}

fn bytes(value: &CborValue) -> (r: Result<Vec<u8>, WebauthnError>)
    ensures
        value matches CborValue::Bytes(raw) ==> (r matches Ok(v) && v@ == raw@),
        !(value is Bytes) ==> r == Err::<Vec<u8>, WebauthnError>(WebauthnError::NotByteString),
{
    match value {
        CborValue::Bytes(raw) => Ok(copy_bytes(raw.as_slice())),
        _ => Err(WebauthnError::NotByteString),
    }
}

fn top_level_map(payload: &CborValue) -> (r: Result<&Vec<(CborValue, CborValue)>, WebauthnError>)
    ensures
        payload matches CborValue::Mapping(entries) ==> (r matches Ok(m) && *m == entries),
        !(payload is Mapping) ==> r == Err::<&Vec<(CborValue, CborValue)>, WebauthnError>(WebauthnError::NotAMap),
{
    match payload {
        CborValue::Mapping(entries) => Ok(entries),
        _ => Err(WebauthnError::NotAMap),
    }
}

/// What `authenticatorMakeCredential` asks for: the relying party's id (parameter 2, field
/// "id") and the user's name (parameter 3, field "name", "user" when absent).
/// `clientDataHash` is deliberately unused: `none` attestation signs nothing.
pub open spec fn make_credential_spec(payload: CborValue) -> Result<(Seq<char>, Seq<char>), WebauthnError> {
    match payload {
        CborValue::Mapping(entries) => match entry_spec(entries@, 2) {
            None => Err(WebauthnError::NoRp),
            Some(rp) => match text_field_spec(rp, "id"@) {
                None => Err(WebauthnError::RpHasNoId),
                Some(rp_id) => {
                    let user_name = match entry_spec(entries@, 3) {
                        Some(user) => match text_field_spec(user, "name"@) {
                            Some(name) => name,
                            None => "user"@,
                        },
                        None => "user"@,
                    };
                    Ok((rp_id, user_name))
                },
            },
        },
        _ => Err(WebauthnError::NotAMap),
    }
}

pub open spec fn make_credential_view(r: Result<MakeCredential, WebauthnError>) -> Result<(Seq<char>, Seq<char>), WebauthnError> {
    match r {
        Ok(m) => Ok((m.rp_id@, m.user_name@)),
        Err(e) => Err(e),
    }
}

/// Reads an `authenticatorMakeCredential` request. CTAP2 numbers its request parameters
/// rather than naming them; these are the indices from the spec.
pub fn parse_make_credential(payload: &CborValue) -> (r: Result<MakeCredential, WebauthnError>)
    ensures
        make_credential_view(r) == make_credential_spec(*payload),
{
    let map = top_level_map(payload)?;
    let rp = match entry(map, 2) {
        Some(rp) => rp,
        None => return Err(WebauthnError::NoRp),
    };
    let rp_id = match text_field(rp, "id") {
        Some(id) => id,
        None => return Err(WebauthnError::RpHasNoId),
    };
    let user_name = match entry(map, 3) {
        Some(user) => match text_field(user, "name") {
            Some(name) => name,
            None => "user".to_owned(),
        },
        None => "user".to_owned(),
    };
    Ok(MakeCredential { rp_id, user_name })
}

/// The ids named by the credential descriptors of an allow list: each item's "id" field,
/// kept when it is a byte string.
pub open spec fn allowed_ids(items: Seq<CborValue>) -> Seq<Seq<u8>>
    decreases items.len(),
{
    if items.len() == 0 {
        Seq::empty()
    } else {
        let rest = allowed_ids(items.drop_last());
        match field_spec(items.last(), "id"@) {
            Some(CborValue::Bytes(raw)) => rest.push(raw@),
            _ => rest,
        }
    }
}

/// What `authenticatorGetAssertion` asks for: the relying party's id (parameter 1, a text
/// string), the client data hash (parameter 2, a byte string) and the allow list
/// (parameter 3; empty when absent or not an array).
pub open spec fn get_assertion_spec(payload: CborValue) -> Result<(Seq<u8>, Seq<char>, Seq<Seq<u8>>), WebauthnError> {
    match payload {
        CborValue::Mapping(entries) => match entry_spec(entries@, 1) {
            None => Err(WebauthnError::NoRpId),
            Some(CborValue::Text(rp_id)) => match entry_spec(entries@, 2) {
                None => Err(WebauthnError::NoClientDataHash),
                Some(CborValue::Bytes(hash)) => {
                    let allowed = match entry_spec(entries@, 3) {
                        Some(CborValue::Array(items)) => allowed_ids(items@),
                        _ => Seq::empty(),
                    };
                    Ok((hash@, rp_id@, allowed))
                },
                Some(_) => Err(WebauthnError::NotByteString),
            },
            Some(_) => Err(WebauthnError::RpIdNotText),
        },
        _ => Err(WebauthnError::NotAMap),
    }
}

pub open spec fn get_assertion_view(r: Result<GetAssertion, WebauthnError>) -> Result<(Seq<u8>, Seq<char>, Seq<Seq<u8>>), WebauthnError> {
    match r {
        Ok(g) => Ok((g.client_data_hash@, g.rp_id@, g.allowed.deep_view())),
        Err(e) => Err(e),
    }
}

/// Reads an `authenticatorGetAssertion` request.
pub fn parse_get_assertion(payload: &CborValue) -> (r: Result<GetAssertion, WebauthnError>)
    ensures
        get_assertion_view(r) == get_assertion_spec(*payload),
{
    let map = top_level_map(payload)?;
    let rp_id = match entry(map, 1) {
        Some(CborValue::Text(text)) => text.clone(),
        Some(_) => return Err(WebauthnError::RpIdNotText),
        None => return Err(WebauthnError::NoRpId),
    };
    let client_data_hash = match entry(map, 2) {
        Some(value) => bytes(value)?,
        None => return Err(WebauthnError::NoClientDataHash),
    };
    let mut allowed: Vec<Vec<u8>> = Vec::new();
    match entry(map, 3) {
        Some(CborValue::Array(items)) => {
            let mut i: usize = 0;
            while i < items.len()
                invariant
                    i <= items@.len(),
                    allowed.deep_view() == allowed_ids(items@.take(i as int)),
                decreases items@.len() - i,
            {
                assert(items@.take(i + 1).drop_last() =~= items@.take(i as int));
                assert(items@.take(i + 1).last() == items@[i as int]);
                match field(&items[i], "id") {
                    Some(CborValue::Bytes(raw)) => {
                        let ghost before = allowed.deep_view();
                        let id = copy_bytes(raw.as_slice());
                        assert(id.deep_view() =~= raw@);
                        allowed.push(id);
                        assert(allowed.deep_view() =~= before.push(raw@));
                    },
                    _ => {},
                }
                i = i + 1;
            }
            assert(items@.take(items@.len() as int) =~= items@);
        },
        _ => {
            assert(allowed.deep_view() =~= Seq::<Seq<u8>>::empty());
        },
    }
    Ok(GetAssertion { client_data_hash, rp_id, allowed })
}

/// `rpIdHash ‖ flags ‖ signCount (big-endian)`, then the attested credential data if any.
pub open spec fn authenticator_data_spec(rp_id: Seq<char>, flags: u8, sign_count: u32, attested: Option<Seq<u8>>) -> Seq<u8> {
    sha256(encode_utf8(rp_id)) + seq![flags] + be32(sign_count) + match attested {
        Some(extra) => extra,
        None => Seq::empty(),
    }
}

/// `rpIdHash ‖ flags ‖ signCount`, optionally followed by attested credential data.
pub fn authenticator_data(rp_id: &str, flags: u8, sign_count: u32, attested: Option<&[u8]>) -> (r: Vec<u8>)
    ensures
        r@.len() == 37 + match attested {
            Some(extra) => extra@.len(),
            None => 0,
        },
        r@ == authenticator_data_spec(rp_id@, flags, sign_count, match attested {
            Some(extra) => Some(extra@),
            None => None,
        }),
{
    let mut data = sha256_digest(rp_id.as_bytes());
    data.push(flags);
    let count = be32_bytes(sign_count);
    extend_bytes(&mut data, &count);
    match attested {
        Some(extra) => extend_bytes(&mut data, extra),
        None => {},
    }
    assert(data@ =~= authenticator_data_spec(rp_id@, flags, sign_count, match attested {
        Some(extra) => Some(extra@),
        None => None,
    }));
    data
}

/// `AAGUID ‖ credential id length (big-endian) ‖ credential id ‖ COSE key`. A credential
/// id longer than a `u16` can describe is refused.
pub fn attested_credential_data(credential_id: &[u8], cose_key: &[u8]) -> (r: Result<Vec<u8>, WebauthnError>)
    ensures
        credential_id@.len() > 65535 ==> r == Err::<Vec<u8>, WebauthnError>(WebauthnError::CredentialIdTooLong),
        credential_id@.len() <= 65535 ==> (r matches Ok(data) && data@ == AAGUID@ + be16(
            credential_id@.len() as u16,
        ) + credential_id@ + cose_key@),
{
    if credential_id.len() > 65535 {
        return Err(WebauthnError::CredentialIdTooLong);
    }
    let length = credential_id.len() as u16;
    let mut data: Vec<u8> = Vec::new();
    let aaguid = AAGUID;
    extend_bytes(&mut data, &aaguid);
    let length_bytes = be16_bytes(length);
    extend_bytes(&mut data, &length_bytes);
    extend_bytes(&mut data, credential_id);
    extend_bytes(&mut data, cose_key);
    Ok(data)
}

/// The canonical (shortest) CBOR head of major type `major` with argument `n`.
pub open spec fn cbor_head(major: u8, n: u64) -> Seq<u8> {
    let m = (major * 32) as u8;
    if n < 24 {
        seq![(m + n) as u8]
    } else if n < 256 {
        seq![(m + 24) as u8, n as u8]
    } else if n < 65536 {
        seq![(m + 25) as u8] + be16(n as u16)
    } else if n < 0x1_0000_0000 {
        seq![(m + 26) as u8] + be32(n as u32)
    } else {
        seq![(m + 27) as u8] + be32((n / 0x1_0000_0000) as u32) + be32((n % 0x1_0000_0000) as u32)
    }
}

/// A CBOR byte string.
pub open spec fn cbor_bytes(data: Seq<u8>) -> Seq<u8> {
    cbor_head(2, data.len() as u64) + data
}

fn push_cbor_head(out: &mut Vec<u8>, major: u8, n: u64)
    requires
        major < 8,
    ensures
        final(out)@ == old(out)@ + cbor_head(major, n),
{
    let m = major * 32;
    if n < 24 {
        out.push(m + n as u8);
    } else if n < 256 {
        out.push(m + 24);
        out.push(n as u8);
    } else if n < 65536 {
        out.push(m + 25);
        let b = be16_bytes(n as u16);
        extend_bytes(out, &b);
    } else if n < 0x1_0000_0000 {
        out.push(m + 26);
        let b = be32_bytes(n as u32);
        extend_bytes(out, &b);
    } else {
        out.push(m + 27);
        let high = be32_bytes((n / 0x1_0000_0000) as u32);
        extend_bytes(out, &high);
        let low = be32_bytes((n % 0x1_0000_0000) as u32);
        extend_bytes(out, &low);
    }
    assert(final(out)@ =~= old(out)@ + cbor_head(major, n));
}

fn push_cbor_bytes(out: &mut Vec<u8>, data: &[u8])
    ensures
        final(out)@ == old(out)@ + cbor_bytes(data@),
{
    push_cbor_head(out, 2, data.len() as u64);
    extend_bytes(out, data);
    assert(final(out)@ =~= old(out)@ + cbor_bytes(data@));
}

/// The `COSE_Key` of an ES256 public key: the CBOR map
/// `{1: 2 (kty EC2), 3: -7 (alg ES256), -1: 1 (crv P-256), -2: x, -3: y}`.
pub open spec fn cose_key_bytes(x: Seq<u8>, y: Seq<u8>) -> Seq<u8> {
    seq![0xa5u8, 0x01, 0x02, 0x03, 0x26, 0x20, 0x01, 0x21] + cbor_bytes(x) + seq![0x22u8] + cbor_bytes(y)
}

/// `COSE_Key` for an ES256 public key: kty EC2, alg ES256, curve P-256, affine x and y.
/// Coordinates that are not 32 bytes each are refused.
pub fn cose_key(x: &[u8], y: &[u8]) -> (r: Result<Vec<u8>, WebauthnError>)
    ensures
        (x@.len() != 32 || y@.len() != 32) ==> r == Err::<Vec<u8>, WebauthnError>(WebauthnError::BadCoordinates),
        (x@.len() == 32 && y@.len() == 32) ==> (r matches Ok(key) && key@ == cose_key_bytes(x@, y@)),
{
    if x.len() != 32 || y.len() != 32 {
        return Err(WebauthnError::BadCoordinates);
    }
    let head: [u8; 8] = [0xa5, 0x01, 0x02, 0x03, 0x26, 0x20, 0x01, 0x21];
    let mut key: Vec<u8> = Vec::new();
    extend_bytes(&mut key, &head);
    push_cbor_bytes(&mut key, x);
    key.push(0x22);
    push_cbor_bytes(&mut key, y);
    assert(key@ =~= cose_key_bytes(x@, y@));
    Ok(key)
}

/// The `authenticatorMakeCredential` response with `none` attestation: the CBOR map
/// `{1: "none", 2: authData, 3: {}}`.
pub open spec fn make_credential_response_bytes(auth_data: Seq<u8>) -> Seq<u8> {
    seq![0xa3u8, 0x01, 0x64, 0x6e, 0x6f, 0x6e, 0x65, 0x02] + cbor_bytes(auth_data) + seq![0x03u8, 0xa0]
}

/// The `authenticatorMakeCredential` response with `none` attestation.
pub fn make_credential_response(auth_data: &[u8]) -> (r: Result<Vec<u8>, WebauthnError>)
    ensures
        r matches Ok(response) && response@ == make_credential_response_bytes(auth_data@),
{
    let head: [u8; 8] = [0xa3, 0x01, 0x64, 0x6e, 0x6f, 0x6e, 0x65, 0x02];
    let mut response: Vec<u8> = Vec::new();
    extend_bytes(&mut response, &head);
    push_cbor_bytes(&mut response, auth_data);
    response.push(0x03);
    response.push(0xa0);
    assert(response@ =~= make_credential_response_bytes(auth_data@));
    Ok(response)
}

/// The `authenticatorGetAssertion` response: the CBOR map
/// `{1: {"type": "public-key", "id": credentialId}, 2: authData, 3: signature}`.
pub open spec fn get_assertion_response_bytes(credential_id: Seq<u8>, auth_data: Seq<u8>, signature: Seq<u8>) -> Seq<u8> {
    seq![0xa3u8, 0x01, 0xa2, 0x64, 0x74, 0x79, 0x70, 0x65, 0x6a, 0x70, 0x75, 0x62, 0x6c, 0x69, 0x63,
        0x2d, 0x6b, 0x65, 0x79, 0x62, 0x69, 0x64] + cbor_bytes(credential_id) + seq![0x02u8]
        + cbor_bytes(auth_data) + seq![0x03u8] + cbor_bytes(signature)
}

/// The `authenticatorGetAssertion` response.
pub fn get_assertion_response(credential_id: &[u8], auth_data: &[u8], signature: &[u8]) -> (r: Result<Vec<u8>, WebauthnError>)
    ensures
        r matches Ok(response) && response@ == get_assertion_response_bytes(credential_id@, auth_data@, signature@),
{
    let head: [u8; 22] = [
        0xa3, 0x01, 0xa2, 0x64, 0x74, 0x79, 0x70, 0x65, 0x6a, 0x70, 0x75, 0x62, 0x6c, 0x69, 0x63,
        0x2d, 0x6b, 0x65, 0x79, 0x62, 0x69, 0x64,
    ];
    let mut response: Vec<u8> = Vec::new();
    extend_bytes(&mut response, &head);
    push_cbor_bytes(&mut response, credential_id);
    response.push(0x02);
    push_cbor_bytes(&mut response, auth_data);
    response.push(0x03);
    push_cbor_bytes(&mut response, signature);
    assert(response@ =~= get_assertion_response_bytes(credential_id@, auth_data@, signature@));
    Ok(response)
}

/// The bytes of a result, or its error.
pub open spec fn bytes_result(r: Result<Vec<u8>, WebauthnError>) -> Result<Seq<u8>, WebauthnError> {
    match r {
        Ok(bytes) => Ok(bytes@),
        Err(e) => Err(e),
    }
}

/// The makeCredential response for a credential the phone created for `rp_id`: its id
/// (unpadded URL-safe Base64) and its public key (SPKI PEM) become attested credential
/// data in authenticator data flagged user-present, user-verified and attested, with a
/// zero signature count.
pub open spec fn credential_response_spec(rp_id: Seq<char>, credential_id: Seq<char>, public_key_pem: Seq<char>) -> Result<Seq<u8>, WebauthnError> {
    match base64_url_decoded(credential_id) {
        None => Err(WebauthnError::CredentialIdNotBase64Url),
        Some(id) => match p256_affine_xy(public_key_pem) {
            None => Err(WebauthnError::KeyNotP256),
            Some((x, y)) => if id.len() > 65535 {
                Err(WebauthnError::CredentialIdTooLong)
            } else {
                Ok(
                    make_credential_response_bytes(
                        authenticator_data_spec(
                            rp_id,
                            FLAG_USER_PRESENT | FLAG_USER_VERIFIED | FLAG_ATTESTED,
                            0,
                            Some(AAGUID@ + be16(id.len() as u16) + id + cose_key_bytes(x, y)),
                        ),
                    ),
                )
            },
        },
    }
}

/// Builds the makeCredential response for a credential the phone created for `rp_id`.
pub fn credential_response(rp_id: &str, created: &NewCredential) -> (r: Result<Vec<u8>, WebauthnError>)
    ensures
        bytes_result(r) == credential_response_spec(rp_id@, created.credential_id@, created.public_key_pem@),
{
    let credential_id = match decode_base64_url(created.credential_id.as_str()) {
        Some(id) => id,
        None => return Err(WebauthnError::CredentialIdNotBase64Url),
    };
    assert(credential_id.deep_view() =~= credential_id@);
    let (x, y) = match affine_xy_from_pem(created.public_key_pem.as_str()) {
        Some(xy) => xy,
        None => return Err(WebauthnError::KeyNotP256),
    };
    assert(x.deep_view() =~= x@);
    assert(y.deep_view() =~= y@);
    let cose = cose_key(x.as_slice(), y.as_slice())?;
    let attested = attested_credential_data(credential_id.as_slice(), cose.as_slice())?;
    let auth_data = authenticator_data(
        rp_id,
        FLAG_USER_PRESENT | FLAG_USER_VERIFIED | FLAG_ATTESTED,
        0,
        Some(attested.as_slice()),
    );
    make_credential_response(auth_data.as_slice())
}

/// What is asked of the phone for a getAssertion request, and kept for the response.
pub struct AssertionRequest {
    /// The credential asked for: the first the site names.
    pub credential_id: Vec<u8>,
    /// The same id, unpadded URL-safe Base64.
    pub credential_b64: String,
    /// Standard Base64 of `authData ‖ clientDataHash`, the bytes the phone signs.
    pub payload_b64: String,
    pub auth_data: Vec<u8>,
}

/// Prepares the assertion for a getAssertion request. No credential is stored here, so the
/// site must name one (that is why getInfo reports `rk: false`). The sign count stays 0,
/// the value for an authenticator that keeps no counter. WebAuthn signs the authenticator
/// data followed by the client data hash, in that order.
pub fn assertion_request(request: &GetAssertion) -> (r: Result<AssertionRequest, WebauthnError>)
    ensures
        request.allowed@.len() == 0 ==> r matches Err(WebauthnError::NoCredentialNamed),
        request.allowed@.len() > 0 ==> (r matches Ok(a) && {
            &&& a.credential_id@ == request.allowed@[0]@
            &&& a.auth_data@ == authenticator_data_spec(request.rp_id@, FLAG_USER_PRESENT | FLAG_USER_VERIFIED, 0, None)
            &&& a.credential_b64@ == base64_url(a.credential_id@)
            &&& a.payload_b64@ == base64_standard(a.auth_data@ + request.client_data_hash@)
        }),
{
    if request.allowed.len() == 0 {
        return Err(WebauthnError::NoCredentialNamed);
    }
    let credential_id = copy_bytes(request.allowed[0].as_slice());
    let auth_data = authenticator_data(request.rp_id.as_str(), FLAG_USER_PRESENT | FLAG_USER_VERIFIED, 0, None);
    let mut message = copy_bytes(auth_data.as_slice());
    extend_bytes(&mut message, request.client_data_hash.as_slice());
    let credential_b64 = encode_base64_url(credential_id.as_slice());
    let payload_b64 = encode_base64(message.as_slice());
    Ok(AssertionRequest { credential_id, credential_b64, payload_b64, auth_data })
}

/// The getAssertion response once the phone has signed: the signature arrives in standard
/// Base64.
pub fn assertion_response(assertion: &AssertionRequest, signature_b64: &str) -> (r: Result<Vec<u8>, WebauthnError>)
    ensures
        bytes_result(r) == match base64_standard_decoded(signature_b64@) {
            None => Err(WebauthnError::SignatureNotBase64),
            Some(signature) => Ok(
                get_assertion_response_bytes(assertion.credential_id@, assertion.auth_data@, signature),
            ),
        },
{
    let signature = match decode_base64(signature_b64) {
        Some(signature) => signature,
        None => return Err(WebauthnError::SignatureNotBase64),
    };
    assert(signature.deep_view() =~= signature@);
    get_assertion_response(assertion.credential_id.as_slice(), assertion.auth_data.as_slice(), signature.as_slice())
}

/// Whether `key` is the CBOR integer `n`.
pub open spec fn is_int_key(key: CborValue, n: i128) -> bool {
    key matches CborValue::Integer(k) && k == n
}

/// Whether `key` is the CBOR text string `name`.
pub open spec fn is_text_key(key: CborValue, name: Seq<char>) -> bool {
    key matches CborValue::Text(t) && t@ == name
}

/// The entries of a CBOR map, none for anything else.
pub open spec fn map_entries(value: CborValue) -> Seq<(CborValue, CborValue)> {
    match value {
        CborValue::Mapping(entries) => entries@,
        _ => Seq::empty(),
    }
}

/// The text of a CBOR text string, none for anything else.
pub open spec fn text_of(value: CborValue) -> Option<Seq<char>> {
    match value {
        CborValue::Text(t) => Some(t@),
        _ => None,
    }
}

/// Looking up the integer key `n` gives the value of the first entry with that key.
proof fn lemma_first_entry(map: Seq<(CborValue, CborValue)>, n: i128, i: int)
    requires
        0 <= i < map.len(),
        is_int_key(map[i].0, n),
        forall|k: int| 0 <= k < i ==> !is_int_key(#[trigger] map[k].0, n),
    ensures
        entry_spec(map, n) == Some(map[i].1),
    decreases i,
{
    if i > 0 {
        assert(!is_int_key(map[0].0, n));
        assert forall|k: int| 0 <= k < i - 1 implies !is_int_key(#[trigger] map.skip(1)[k].0, n) by {
            assert(map.skip(1)[k] == map[k + 1]);
        }
        lemma_first_entry(map.skip(1), n, i - 1);
    }
}

/// Looking up the text key `name` gives the value of the first entry with that key.
proof fn lemma_first_field(entries: Seq<(CborValue, CborValue)>, name: Seq<char>, i: int)
    requires
        0 <= i < entries.len(),
        is_text_key(entries[i].0, name),
        forall|k: int| 0 <= k < i ==> !is_text_key(#[trigger] entries[k].0, name),
    ensures
        field_in(entries, name) == Some(entries[i].1),
    decreases i,
{
    if i > 0 {
        assert(!is_text_key(entries[0].0, name));
        assert forall|k: int| 0 <= k < i - 1 implies !is_text_key(#[trigger] entries.skip(1)[k].0, name) by {
            assert(entries.skip(1)[k] == entries[k + 1]);
        }
        lemma_first_field(entries.skip(1), name, i - 1);
    }
}

/// A makeCredential request names its relying party by the "id" member of parameter 2,
/// whatever other members that map has: when parameter 2 (the first entry with key 2) is a
/// map whose first "id" member is the text `t`, the request is read with rp id `t`.
pub proof fn lemma_make_credential_rp_is_its_id(payload: CborValue, i: int, j: int, t: Seq<char>)
    requires
        payload is Mapping,
        0 <= i < map_entries(payload).len(),
        is_int_key(map_entries(payload)[i].0, 2),
        forall|k: int| 0 <= k < i ==> !is_int_key(#[trigger] map_entries(payload)[k].0, 2),
        map_entries(payload)[i].1 is Mapping,
        0 <= j < map_entries(map_entries(payload)[i].1).len(),
        is_text_key(map_entries(map_entries(payload)[i].1)[j].0, "id"@),
        forall|k: int| 0 <= k < j ==> !is_text_key(#[trigger] map_entries(map_entries(payload)[i].1)[k].0, "id"@),
        text_of(map_entries(map_entries(payload)[i].1)[j].1) == Some(t),
    ensures
        make_credential_spec(payload) matches Ok((rp_id, _)) && rp_id == t,
{
    let entries = map_entries(payload);
    lemma_first_entry(entries, 2, i);
    let rp = entries[i].1;
    lemma_first_field(map_entries(rp), "id"@, j);
}

/// The user a makeCredential request names is the "name" member of parameter 3: when
/// parameter 3 (the first entry with key 3) is a map whose first "name" member is the text
/// `n`, a request that is read at all is read with user name `n`.
pub proof fn lemma_make_credential_user_is_its_name(payload: CborValue, i: int, j: int, n: Seq<char>)
    requires
        make_credential_spec(payload) is Ok,
        0 <= i < map_entries(payload).len(),
        is_int_key(map_entries(payload)[i].0, 3),
        forall|k: int| 0 <= k < i ==> !is_int_key(#[trigger] map_entries(payload)[k].0, 3),
        map_entries(payload)[i].1 is Mapping,
        0 <= j < map_entries(map_entries(payload)[i].1).len(),
        is_text_key(map_entries(map_entries(payload)[i].1)[j].0, "name"@),
        forall|k: int| 0 <= k < j ==> !is_text_key(#[trigger] map_entries(map_entries(payload)[i].1)[k].0, "name"@),
        text_of(map_entries(map_entries(payload)[i].1)[j].1) == Some(n),
    ensures
        make_credential_spec(payload) matches Ok((_, user_name)) && user_name == n,
{
    lemma_first_entry(map_entries(payload), 3, i);
    lemma_first_field(map_entries(map_entries(payload)[i].1), "name"@, j);
}

/// A getAssertion request is read with the relying party id of parameter 1 and the client
/// data hash of parameter 2: when the first entry with key 1 is the text `rp` and the first
/// entry with key 2 the byte string `hash`, the request is read with exactly those.
pub proof fn lemma_get_assertion_reads_rp_and_hash(payload: CborValue, i: int, j: int, rp: Seq<char>, hash: Seq<u8>)
    requires
        payload is Mapping,
        0 <= i < map_entries(payload).len(),
        is_int_key(map_entries(payload)[i].0, 1),
        forall|k: int| 0 <= k < i ==> !is_int_key(#[trigger] map_entries(payload)[k].0, 1),
        text_of(map_entries(payload)[i].1) == Some(rp),
        0 <= j < map_entries(payload).len(),
        is_int_key(map_entries(payload)[j].0, 2),
        forall|k: int| 0 <= k < j ==> !is_int_key(#[trigger] map_entries(payload)[k].0, 2),
        map_entries(payload)[j].1 matches CborValue::Bytes(b) && b@ == hash,
    ensures
        get_assertion_spec(payload) matches Ok((h, r, _)) && h == hash && r == rp,
{
    lemma_first_entry(map_entries(payload), 1, i);
    lemma_first_entry(map_entries(payload), 2, j);
}

/// The ids an allow list names, in the list's own order: every kept id is the byte-string
/// "id" of a descriptor, at positions that strictly increase, and every descriptor whose
/// "id" is a byte string is kept. Returns those positions.
pub proof fn lemma_allowed_ids_in_list_order(items: Seq<CborValue>) -> (positions: Seq<int>)
    ensures
        positions.len() == allowed_ids(items).len(),
        forall|k: int| 0 <= k < positions.len() ==> 0 <= #[trigger] positions[k] < items.len(),
        forall|k: int, l: int| 0 <= k < l < positions.len() ==> #[trigger] positions[k] < #[trigger] positions[l],
        forall|k: int| 0 <= k < positions.len() ==> (field_spec(items[#[trigger] positions[k]], "id"@) matches Some(
            CborValue::Bytes(raw),
        ) && raw@ == allowed_ids(items)[k]),
        forall|j: int| 0 <= j < items.len() && (#[trigger] field_spec(items[j], "id"@) matches Some(CborValue::Bytes(_)))
            ==> exists|k: int| 0 <= k < positions.len() && positions[k] == j,
    decreases items.len(),
{
    if items.len() == 0 {
        Seq::empty()
    } else {
        let front = items.drop_last();
        let before = lemma_allowed_ids_in_list_order(front);
        let last = items.len() - 1;
        assert forall|j: int| 0 <= j < front.len() implies #[trigger] items[j] == front[j] by {}
        match field_spec(items.last(), "id"@) {
            Some(CborValue::Bytes(raw)) => {
                let positions = before.push(last);
                assert forall|j: int| 0 <= j < items.len() && (#[trigger] field_spec(items[j], "id"@) matches Some(
                    CborValue::Bytes(_),
                )) implies exists|k: int| 0 <= k < positions.len() && positions[k] == j by {
                    if j == last {
                        assert(positions[positions.len() - 1] == j);
                    } else {
                        assert(items[j] == front[j]);
                        assert(field_spec(front[j], "id"@) matches Some(CborValue::Bytes(_)));
                        let k = choose|k: int| 0 <= k < before.len() && before[k] == j;
                        assert(positions[k] == j);
                    }
                }
                assert forall|k: int| 0 <= k < positions.len() implies (field_spec(items[#[trigger] positions[k]], "id"@) matches Some(
                    CborValue::Bytes(r),
                ) && r@ == allowed_ids(items)[k]) by {
                    if k < before.len() {
                        assert(positions[k] == before[k]);
                        assert(items[before[k]] == front[before[k]]);
                    }
                }
                positions
            },
            _ => {
                assert forall|j: int| 0 <= j < items.len() && (#[trigger] field_spec(items[j], "id"@) matches Some(
                    CborValue::Bytes(_),
                )) implies exists|k: int| 0 <= k < before.len() && before[k] == j by {
                    assert(j != last);
                    assert(items[j] == front[j]);
                    assert(field_spec(front[j], "id"@) matches Some(CborValue::Bytes(_)));
                }
                assert forall|k: int| 0 <= k < before.len() implies (field_spec(items[#[trigger] before[k]], "id"@) matches Some(
                    CborValue::Bytes(r),
                ) && r@ == allowed_ids(items)[k]) by {
                    assert(items[before[k]] == front[before[k]]);
                }
                before
            },
        }
    }
}

/// A getAssertion request keeps its allow list in the site's order of preference: when
/// parameter 3 (the first entry with key 3) is an array, the ids read are exactly the
/// byte-string "id"s of its descriptors, at strictly increasing positions of the array.
pub proof fn lemma_get_assertion_keeps_list_order(payload: CborValue, i: int) -> (positions: Seq<int>)
    requires
        get_assertion_spec(payload) is Ok,
        0 <= i < map_entries(payload).len(),
        is_int_key(map_entries(payload)[i].0, 3),
        forall|k: int| 0 <= k < i ==> !is_int_key(#[trigger] map_entries(payload)[k].0, 3),
        map_entries(payload)[i].1 is Array,
    ensures
        ({
            let items = match map_entries(payload)[i].1 {
                CborValue::Array(v) => v@,
                _ => Seq::empty(),
            };
            let allowed = get_assertion_spec(payload)->Ok_0.2;
            &&& positions.len() == allowed.len()
            &&& forall|k: int| 0 <= k < positions.len() ==> 0 <= #[trigger] positions[k] < items.len()
            &&& forall|k: int, l: int| 0 <= k < l < positions.len() ==> #[trigger] positions[k] < #[trigger] positions[l]
            &&& forall|k: int| 0 <= k < positions.len() ==> (field_spec(items[#[trigger] positions[k]], "id"@) matches Some(
                CborValue::Bytes(raw),
            ) && raw@ == allowed[k])
        }),
{
    lemma_first_entry(map_entries(payload), 3, i);
    let items = match map_entries(payload)[i].1 {
        CborValue::Array(v) => v@,
        _ => Seq::empty(),
    };
    lemma_allowed_ids_in_list_order(items)
}

} // verus!

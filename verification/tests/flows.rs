use base64::Engine as _;
use kpasskey::daemon::{
    DaemonError, Verification, begin_assertion, begin_make_credential, complete_pairing, conclude_verification,
    imported_device, is_pair_request, start_verification,
};
use kpasskey::json::{JsonNumber, JsonValue};
use kpasskey::link::{LinkError, key_fingerprint, key_id, load_verifying_key, verify_assertion};
use kpasskey::manager::{device_entries, version_text};
use kpasskey::pairing::{PAIRING_WINDOW_SECS, Pairings, expired_at, short_code};
use kpasskey::proximity::{Advertisement, MIN_TX_POWER_DBM, NONCE_LEN, ProximityNonce};
use kpasskey::router::{Delivery, Router};
use kpasskey::selftest::self_test;
use kpasskey::store::Device;
use kpasskey::text::hex;
use p256::ecdsa::signature::Signer as _;
use p256::pkcs8::EncodePublicKey as _;
use serde_json::Value;
use sha2::Digest as _;

fn to_json(value: &Value) -> JsonValue {
    match value {
        Value::Null => JsonValue::Null,
        Value::Bool(b) => JsonValue::Bool(*b),
        Value::Number(n) => JsonValue::Number(if let Some(u) = n.as_u64() {
            JsonNumber::PosInt(u)
        } else if let Some(i) = n.as_i64() {
            JsonNumber::NegInt(i)
        } else {
            JsonNumber::Fraction
        }),
        Value::String(s) => JsonValue::Text(s.clone()),
        Value::Array(items) => JsonValue::List(items.iter().map(to_json).collect()),
        Value::Object(members) => {
            JsonValue::Object(members.iter().map(|(k, v)| (k.clone(), to_json(v))).collect())
        }
    }
}

fn parse(line: &str) -> JsonValue {
    to_json(&serde_json::from_str::<Value>(line).unwrap())
}

fn signing_key(byte: u8) -> p256::ecdsa::SigningKey {
    p256::ecdsa::SigningKey::from_slice(&[byte; 32]).unwrap()
}

fn pem_of(key: &p256::ecdsa::SigningKey) -> String {
    key.verifying_key().to_public_key_pem(p256::pkcs8::LineEnding::LF).unwrap()
}

fn der_of(key: &p256::ecdsa::SigningKey) -> Vec<u8> {
    key.verifying_key().to_public_key_der().unwrap().as_bytes().to_vec()
}

fn sign(key: &p256::ecdsa::SigningKey, message: &[u8]) -> Vec<u8> {
    let signature: p256::ecdsa::Signature = key.sign(message);
    signature.to_der().as_bytes().to_vec()
}

fn device_with(pem: &str, paired_at: u64) -> Device {
    Device {
        id: "id".to_owned(),
        name: "Pixel".to_owned(),
        model: "Pixel 8".to_owned(),
        owner: "alice".to_owned(),
        security_level: "StrongBox".to_owned(),
        verified_boot: "green".to_owned(),
        paired_at,
        public_key_pem: pem.to_owned(),
    }
}

#[test]
fn short_codes_fold_the_first_four_bytes() {
    assert_eq!(short_code(&[1, 2, 3, 4, 99, 99]), "031810");
    assert_eq!(short_code(&[]), "000000");
    let token = [0xffu8, 0xfe, 0xfd, 0xfc];
    let mut value: u32 = 0;
    for byte in token {
        value = value.wrapping_mul(31).wrapping_add(u32::from(byte));
    }
    assert_eq!(short_code(&token), format!("{:06}", value % 1_000_000));
}

#[test]
fn a_pairing_window_carries_its_token_once() {
    let mut pairings = Pairings::new();
    assert_eq!(pairings.seconds_left(), 0);
    let (token, uri, code) = {
        let session = pairings.begin("Desk".to_owned(), "myhost").ok().unwrap();
        (session.token, session.uri.clone(), session.short_code.clone())
    };
    let encoded = base64::engine::general_purpose::URL_SAFE_NO_PAD.encode(token);
    assert_eq!(uri, format!("kpk://pair?v=1&h=myhost&t={encoded}&a=127.0.0.1:34719"));
    assert_eq!(code, short_code(&token));
    assert_eq!(code.len(), 6);
    let left = pairings.seconds_left();
    assert!(left > 0 && u64::from(left) <= PAIRING_WINDOW_SECS);

    let mut wrong = token;
    wrong[0] ^= 1;
    assert!(pairings.take_matching(&wrong).is_none());
    assert!(pairings.seconds_left() > 0);
    let taken = pairings.take_matching(&token).unwrap();
    assert_eq!(taken.label, "Desk");
    assert!(pairings.take_matching(&token).is_none());
    assert_eq!(pairings.seconds_left(), 0);
}

#[test]
fn a_window_closes_when_its_time_is_up() {
    let mut pairings = Pairings::new();
    let token = pairings.begin(String::new(), "h").ok().unwrap().token;
    assert_eq!(pairings.seconds_left_at(3, 0), 117);
    assert_eq!(pairings.seconds_left_at(3, 5), 116);
    assert!(pairings.take_matching_at(&token, PAIRING_WINDOW_SECS).is_none());
    assert_eq!(pairings.seconds_left_at(0, 0), 0);

    let token = pairings.begin(String::new(), "h").ok().unwrap().token;
    assert_eq!(pairings.seconds_left_at(PAIRING_WINDOW_SECS, 0), 0);
    assert!(pairings.take_matching_at(&token, 1).is_none());

    pairings.begin(String::new(), "h").ok().unwrap();
    pairings.cancel();
    assert_eq!(pairings.seconds_left(), 0);
    pairings.expire_if_due();
    assert_eq!(pairings.seconds_left(), 0);
}

fn pair_request(token: &str, pem: &str) -> JsonValue {
    let mut map = serde_json::Map::new();
    map.insert("t".to_owned(), Value::String("pair.request".to_owned()));
    map.insert("token".to_owned(), Value::String(token.to_owned()));
    map.insert("publicKeyPem".to_owned(), Value::String(pem.to_owned()));
    map.insert("name".to_owned(), Value::String("Phone".to_owned()));
    map.insert("model".to_owned(), Value::String("Pixel 8".to_owned()));
    map.insert("securityLevel".to_owned(), Value::String("StrongBox".to_owned()));
    to_json(&Value::Object(map))
}

#[test]
fn pairing_records_the_phone_under_its_key() {
    let key = signing_key(7);
    let pem = pem_of(&key);
    let mut pairings = Pairings::new();
    let token = pairings.begin("Desk".to_owned(), "h").ok().unwrap().token;
    let encoded = base64::engine::general_purpose::URL_SAFE_NO_PAD.encode(token);
    let request = pair_request(&encoded, &pem);
    assert!(is_pair_request(&Some(request.clone_for_test())));

    let device = complete_pairing(&mut pairings, &request, "alice", 1234).ok().unwrap();
    assert_eq!(device.id, key_id(&pem).ok().unwrap());
    assert_eq!(device.name, "Desk");
    assert_eq!(device.model, "Pixel 8");
    assert_eq!(device.owner, "alice");
    assert_eq!(device.security_level, "StrongBox");
    assert_eq!(device.verified_boot, "");
    assert_eq!(device.paired_at, 1234);

    match complete_pairing(&mut pairings, &request, "alice", 1235) {
        Err(e) => assert_eq!(e.message(), "no matching pairing window is open"),
        Ok(_) => panic!("a replayed token must be refused"),
    }
    assert!(matches!(
        complete_pairing(&mut pairings, &pair_request("*", &pem), "alice", 1),
        Err(DaemonError::TokenNotBase64url)
    ));

    let token = pairings.begin(String::new(), "h").ok().unwrap().token;
    let encoded = base64::engine::general_purpose::URL_SAFE_NO_PAD.encode(token);
    match complete_pairing(&mut pairings, &pair_request(&encoded, "not a key"), "alice", 1) {
        Err(e) => assert_eq!(
            e.message(),
            "device sent an unusable public key: device public key is not a P-256 SPKI PEM"
        ),
        Ok(_) => panic!("an unusable key must be refused"),
    }
    assert!(pairings.take_matching(&token).is_none());

    let token = pairings.begin(String::new(), "h").ok().unwrap().token;
    let encoded = base64::engine::general_purpose::URL_SAFE_NO_PAD.encode(token);
    let unnamed = complete_pairing(&mut pairings, &pair_request(&encoded, &pem), "bob", 9).ok().unwrap();
    assert_eq!(unnamed.name, "Phone");
    assert!(!is_pair_request(&Some(parse(r#"{"t":"verify.reply"}"#))));
    assert!(!is_pair_request(&None));
}

trait CloneForTest {
    fn clone_for_test(&self) -> Self;
}

impl CloneForTest for JsonValue {
    fn clone_for_test(&self) -> Self {
        match self {
            JsonValue::Null => JsonValue::Null,
            JsonValue::Bool(b) => JsonValue::Bool(*b),
            JsonValue::Number(JsonNumber::PosInt(n)) => JsonValue::Number(JsonNumber::PosInt(*n)),
            JsonValue::Number(JsonNumber::NegInt(n)) => JsonValue::Number(JsonNumber::NegInt(*n)),
            JsonValue::Number(JsonNumber::Fraction) => JsonValue::Number(JsonNumber::Fraction),
            JsonValue::Text(t) => JsonValue::Text(t.clone()),
            JsonValue::List(items) => JsonValue::List(items.iter().map(|i| i.clone_for_test()).collect()),
            JsonValue::Object(members) => {
                JsonValue::Object(members.iter().map(|(k, v)| (k.clone(), v.clone_for_test())).collect())
            }
        }
    }
}

#[test]
fn key_identity_is_a_hash_of_the_key_not_its_text() {
    let key = signing_key(3);
    let pem = pem_of(&key);
    let digest = sha2::Sha256::digest(der_of(&key));
    let expected_id: String = digest[..16].iter().map(|b| format!("{b:02x}")).collect();
    assert_eq!(key_id(&pem).ok().unwrap(), expected_id);
    let expected_fingerprint = format!(
        "{:02X}{:02X} {:02X}{:02X} {:02X}{:02X}",
        digest[0], digest[1], digest[2], digest[3], digest[4], digest[5]
    );
    assert_eq!(key_fingerprint(&pem).ok().unwrap(), expected_fingerprint);
    assert_eq!(hex(&[0x00, 0xab, 0x10]), "00ab10");

    let rewrapped = key.verifying_key().to_public_key_pem(p256::pkcs8::LineEnding::CRLF).unwrap();
    assert_ne!(rewrapped, pem);
    assert_eq!(key_id(&rewrapped).ok().unwrap(), expected_id);
    assert_eq!(key_id("junk").err(), Some(LinkError::KeyNotP256));
    assert_eq!(key_fingerprint("junk").err(), Some(LinkError::KeyNotP256));
}

#[test]
fn a_signature_verifies_only_over_the_line_that_was_sent() {
    let key = signing_key(5);
    let device_key = load_verifying_key(&pem_of(&key)).ok().unwrap();
    let line = r#"{"action":"polkit","id":1}"#;
    let good = sign(&key, line.as_bytes());
    assert!(verify_assertion(&device_key, line, &good).is_ok());
    assert_eq!(
        verify_assertion(&device_key, r#"{"action":"sudo","id":1}"#, &good).err(),
        Some(LinkError::SignatureRejected)
    );
    assert_eq!(verify_assertion(&device_key, line, &sign(&signing_key(6), line.as_bytes())).err(), Some(LinkError::SignatureRejected));
    assert_eq!(verify_assertion(&device_key, line, &[1, 2, 3]).err(), Some(LinkError::SignatureNotDer));
    assert!(load_verifying_key("-----BEGIN PUBLIC KEY-----\nAA==\n-----END PUBLIC KEY-----\n").is_err());
}

fn verification(router: &mut Router<&'static str, &'static str>, key: &p256::ecdsa::SigningKey) -> Verification {
    let devices = vec![device_with(&pem_of(key), 1)];
    start_verification(router, &devices, "alice".to_owned(), "desk".to_owned(), "polkit".to_owned(), String::new())
        .ok()
        .unwrap()
}

#[test]
fn a_verification_is_judged_by_its_signature() {
    let key = signing_key(9);
    let mut router: Router<&'static str, &'static str> = Router::new();
    let v = verification(&mut router, &key);
    assert_eq!(v.request.id, 1);
    assert_eq!(v.line, v.request.to_line());
    assert_eq!(v.device_name, "Pixel");
    assert!(conclude_verification(&v, Ok(sign(&key, v.line.as_bytes()))).is_ok());
    assert!(matches!(
        conclude_verification(&v, Ok(sign(&signing_key(10), v.line.as_bytes()))),
        Err(DaemonError::Signature(LinkError::SignatureRejected))
    ));
    assert_eq!(conclude_verification(&v, Err("nope".to_owned())).err().unwrap().message(), "denied on the phone: nope");
    assert!(matches!(conclude_verification(&v, Ok(vec![0])), Err(DaemonError::Signature(LinkError::SignatureNotDer))));

    let second = verification(&mut router, &key);
    assert_eq!(second.request.id, 2);

    let empty: Vec<Device> = Vec::new();
    let refused = start_verification(&mut router, &empty, "a".to_owned(), "h".to_owned(), "x".to_owned(), String::new());
    assert_eq!(refused.err().unwrap().message(), "no paired device; pair one from System Settings");
    let broken = vec![device_with("not a key", 1)];
    assert!(matches!(
        start_verification(&mut router, &broken, "a".to_owned(), "h".to_owned(), "x".to_owned(), String::new()),
        Err(DaemonError::Key(LinkError::KeyNotP256))
    ));
    assert_eq!(router.allocate_id(), 3);
}

#[test]
fn replies_go_to_their_waiter_once() {
    let mut router: Router<&'static str, &'static str> = Router::new();
    let id = router.allocate_id();
    router.await_verification(id, "pam");
    match router.route(Some(parse(r#"{"id":1,"sig":"AQID"}"#))) {
        Delivery::Verdict(waiter, outcome) => {
            assert_eq!(waiter, "pam");
            assert_eq!(outcome, Ok(vec![1, 2, 3]));
        }
        _ => panic!("expected the verdict"),
    }
    assert!(matches!(router.route(Some(parse(r#"{"id":1,"sig":"AQID"}"#))), Delivery::Unclaimed(1)));

    let id = router.allocate_id();
    router.await_verification(id, "late");
    router.abandon_verification(id);
    assert!(matches!(router.route(Some(parse(r#"{"id":2,"denied":"no"}"#))), Delivery::Unclaimed(2)));

    let id = router.allocate_id();
    router.await_verification(id, "denied");
    match router.route(Some(parse(r#"{"id":3,"denied":"no"}"#))) {
        Delivery::Verdict(waiter, outcome) => {
            assert_eq!(waiter, "denied");
            assert_eq!(outcome, Err("no".to_owned()));
        }
        _ => panic!("expected the denial"),
    }

    let (id, line) = begin_assertion(&mut router, "example.org", "Y3JlZA", "cGF5");
    assert_eq!(id, 4);
    assert_eq!(
        line,
        r#"{"credId":"Y3JlZA","id":4,"payload":"cGF5","rpId":"example.org","type":"webauthn.assert","v":1}"#
    );
    router.await_reply(id, "helper");
    match router.route(Some(parse(r#"{"id":4,"sig":"not base64 at all"}"#))) {
        Delivery::Reply(waiter, _) => assert_eq!(waiter, "helper"),
        _ => panic!("a JSON request takes its reply whatever it holds"),
    }
    router.await_reply(5, "gone");
    router.abandon_request(5);
    assert!(matches!(router.route(Some(parse(r#"{"id":5,"credId":"x"}"#))), Delivery::Unreadable(_)));
    assert!(matches!(router.route(None), Delivery::Unreadable(_)));
    assert!(matches!(router.route(Some(parse(r#"{"sig":"AQID"}"#))), Delivery::Unreadable(_)));

    let devices = vec![device_with("pem", 1)];
    let (id, line) = begin_make_credential(&mut router, &devices, "example.org", "ann").ok().unwrap();
    assert_eq!(id, 5);
    assert_eq!(line, r#"{"id":5,"rpId":"example.org","type":"webauthn.makecred","userName":"ann","v":1}"#);
    let none: Vec<Device> = Vec::new();
    assert!(matches!(begin_make_credential(&mut router, &none, "a", "b"), Err(DaemonError::NoPairedDevice)));
}

#[test]
fn the_self_test_passes() {
    let (lines, verdict) = self_test("bench".to_owned());
    assert!(verdict.is_ok());
    assert_eq!(
        lines,
        vec![
            "ok: correct signature verifies".to_owned(),
            "ok: signature does NOT verify once the user field is altered".to_owned(),
            "ok: a different device's signature is rejected".to_owned(),
            "self-test passed".to_owned(),
        ]
    );
}

#[test]
fn importing_a_key_by_hand() {
    let key = signing_key(11);
    let pem = pem_of(&key);
    let device = imported_device(pem.clone(), "Phone".to_owned(), "Pixel".to_owned(), "root".to_owned(), 77).ok().unwrap();
    assert_eq!(device.id, key_id(&pem).ok().unwrap());
    assert_eq!(device.security_level, "TrustedEnvironment");
    assert_eq!(device.verified_boot, "green");
    assert_eq!(device.paired_at, 77);
    match imported_device("x".to_owned(), String::new(), String::new(), String::new(), 0) {
        Err(e) => assert_eq!(e.message(), "that file is not a P-256 public key: device public key is not a P-256 SPKI PEM"),
        Ok(_) => panic!("not a key"),
    }
}

#[test]
fn settings_rows_show_a_fingerprint() {
    let key = signing_key(12);
    let pem = pem_of(&key);
    let entries = device_entries(vec![device_with(&pem, 1), device_with("broken", 2)]);
    assert_eq!(entries.len(), 2);
    assert_eq!(entries[0].fingerprint, key_fingerprint(&pem).ok().unwrap());
    assert_eq!(entries[1].fingerprint, "unreadable key");
    assert_eq!(entries[1].paired_at, 2);
    assert_eq!(version_text("0.1.0", 2), "0.1.0 (2 paired)");
}

#[test]
fn the_proximity_advertisement() {
    let nonce = ProximityNonce::generate().ok().unwrap();
    let other = ProximityNonce::generate().ok().unwrap();
    assert_eq!(nonce.as_bytes().len(), NONCE_LEN);
    assert!(nonce != other);
    let bytes = nonce.as_bytes().to_vec();
    let mut advertisement = Advertisement::new(nonce);
    assert_eq!(advertisement.advertisement_type(), "peripheral");
    assert_eq!(advertisement.service_uuids(), vec!["6f1d2b1a-9c4e-4f57-a1d3-7b8e2c05f9a4".to_owned()]);
    assert_eq!(advertisement.service_data(), ("6f1d2b1a-9c4e-4f57-a1d3-7b8e2c05f9a4".to_owned(), bytes));
    assert_eq!(advertisement.tx_power(), MIN_TX_POWER_DBM);
    assert!(advertisement.needs_unregister());
    advertisement.release();
    assert!(advertisement.released());
    assert!(!advertisement.needs_unregister());
}

#[test]
fn nonces_are_equal_exactly_when_their_bytes_are() {
    let nonce = ProximityNonce::generate().ok().unwrap();
    let copy = nonce.clone();
    let other = ProximityNonce::generate().ok().unwrap();
    assert!(copy == nonce);
    assert_eq!(copy.as_bytes(), nonce.as_bytes());
    assert_eq!(nonce == other, nonce.as_bytes() == other.as_bytes());
}

#[test]
fn windows_expire_after_their_time() {
    assert!(!expired_at(PAIRING_WINDOW_SECS - 1));
    assert!(expired_at(PAIRING_WINDOW_SECS));
    let mut pairings = Pairings::new();
    let token = pairings.begin(String::new(), "h").ok().unwrap().token;
    pairings.expire_if_due_at(PAIRING_WINDOW_SECS - 1);
    assert_eq!(pairings.seconds_left_at(PAIRING_WINDOW_SECS - 1, 0), 1);
    pairings.expire_if_due_at(PAIRING_WINDOW_SECS);
    assert!(pairings.take_matching_at(&token, 0).is_none());
}

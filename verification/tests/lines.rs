use base64::Engine as _;
use kpasskey::cli::{ArgsError, Command, IntError, parse_args, parse_unsigned_max, usage};
use kpasskey::daemon::{
    DaemonError, PamRequest, assertion_reply, classify_pam_request, credential_reply, pair_accepted,
    pair_refused, pam_reply, probe_outcome, probe_request, webauthn_failure,
};
use kpasskey::fidolink::{FidoLinkError, assert_request, check_reply, make_credential_request, new_credential, signature};
use kpasskey::json::{JsonNumber, JsonValue};
use kpasskey::protocol::{ProtocolError, VerifyRequest, parse_response};
use kpasskey::proximity::parse_options;
use kpasskey::store::{Device, Store, StoreError, collect_devices};
use serde_json::Value;

fn to_json(value: &Value) -> JsonValue {
    match value {
        Value::Null => JsonValue::Null,
        Value::Bool(b) => JsonValue::Bool(*b),
        Value::Number(n) => JsonValue::Number(if let Some(u) = n.as_u64() {
            JsonNumber::PosInt(u)
        } else if let Some(i) = n.as_i64() {
            JsonNumber::NegInt(i)
        } else {
            JsonNumber::Fraction
        }),
        Value::String(s) => JsonValue::Text(s.clone()),
        Value::Array(items) => JsonValue::List(items.iter().map(to_json).collect()),
        Value::Object(members) => {
            JsonValue::Object(members.iter().map(|(k, v)| (k.clone(), to_json(v))).collect())
        }
    }
}

fn parse(line: &str) -> JsonValue {
    to_json(&serde_json::from_str::<Value>(line).unwrap())
}

fn object(members: &[(&str, Value)]) -> Value {
    let mut map = serde_json::Map::new();
    for (key, value) in members {
        map.insert((*key).to_owned(), value.clone());
    }
    Value::Object(map)
}

fn text(s: &str) -> Value {
    Value::String(s.to_owned())
}

fn strings(items: &[&str]) -> Vec<String> {
    items.iter().map(|s| (*s).to_owned()).collect()
}

#[test]
fn request_line_is_what_serde_json_writes() {
    let request = VerifyRequest {
        id: 7,
        challenge: [9u8; 32],
        user: "alice".to_owned(),
        host: "desk".to_owned(),
        action: "polkit".to_owned(),
        detail: "say \"hi\"\n\u{e9}".to_owned(),
    };
    let expected = object(&[
        ("v", Value::from(1u64)),
        ("type", text("verify.request")),
        ("id", Value::from(7u64)),
        ("challenge", text(&base64::engine::general_purpose::STANDARD.encode([9u8; 32]))),
        ("user", text("alice")),
        ("host", text("desk")),
        ("action", text("polkit")),
        ("detail", text("say \"hi\"\n\u{e9}")),
    ]);
    assert_eq!(request.to_line(), expected.to_string());
}

#[test]
fn request_lines_stay_on_one_line_and_escape_as_serde_json_does() {
    let request = VerifyRequest {
        id: 12,
        challenge: [0u8; 32],
        user: "a\nb".to_owned(),
        host: "tab\there".to_owned(),
        action: "bell\u{7}\u{1f}\u{7f}".to_owned(),
        detail: "back\\slash \"q\" \r\u{8}\u{c}".to_owned(),
    };
    let line = request.to_line();
    assert!(!line.contains('\n'));
    assert!(line.contains(r#""user":"a\nb""#));
    assert!(line.contains(r#""host":"tab\there""#));
    assert!(line.contains("\"action\":\"bell\\u0007\\u001f\u{7f}\""));
    assert!(line.contains(r#""detail":"back\\slash \"q\" \r\b\f""#));
    assert_eq!(serde_json::from_str::<Value>(&line).unwrap()["user"], text("a\nb"));
}

#[test]
fn different_requests_have_different_lines() {
    let base = VerifyRequest {
        id: 1,
        challenge: [3u8; 32],
        user: "tester".to_owned(),
        host: "desk".to_owned(),
        action: "sudo".to_owned(),
        detail: "".to_owned(),
    };
    let line = base.to_line();
    let tampered = VerifyRequest { user: "root".to_owned(), ..base.clone_fields() }.to_line();
    let shifted = VerifyRequest { user: "tester\",\"host\":\"desk".to_owned(), host: "".to_owned(), ..base.clone_fields() }.to_line();
    let other_id = VerifyRequest { id: 11, ..base.clone_fields() }.to_line();
    assert_ne!(line, tampered);
    assert_ne!(line, shifted);
    assert_ne!(line, other_id);
    assert_eq!(line, base.clone_fields().to_line());
}

trait CloneFields {
    fn clone_fields(&self) -> Self;
}

impl CloneFields for VerifyRequest {
    fn clone_fields(&self) -> Self {
        VerifyRequest {
            id: self.id,
            challenge: self.challenge,
            user: self.user.clone(),
            host: self.host.clone(),
            action: self.action.clone(),
            detail: self.detail.clone(),
        }
    }
}

#[test]
fn new_request_keeps_its_fields_and_draws_a_challenge() {
    let first = VerifyRequest::new(3, "u".to_owned(), "h".to_owned(), "a".to_owned(), "d".to_owned()).unwrap();
    let second = VerifyRequest::new(3, "u".to_owned(), "h".to_owned(), "a".to_owned(), "d".to_owned()).unwrap();
    assert_eq!(first.id, 3);
    assert_eq!(first.user, "u");
    assert_eq!(first.host, "h");
    assert_ne!(first.challenge, second.challenge);
}

#[test]
fn responses_are_read_as_denial_signature_or_error() {
    let denied = parse_response(&parse(r#"{"id":4,"denied":"user said no"}"#)).unwrap();
    assert_eq!(denied.id, 4);
    assert_eq!(denied.denied.as_deref(), Some("user said no"));
    assert!(denied.signature.is_empty());

    let signed = parse_response(&parse(r#"{"id":5,"sig":"AQID"}"#)).unwrap();
    assert_eq!(signed.signature, vec![1, 2, 3]);
    assert!(signed.denied.is_none());

    assert!(matches!(parse_response(&parse(r#"{"sig":"AQID"}"#)), Err(ProtocolError::NoId)));
    assert!(matches!(parse_response(&parse(r#"{"id":-1,"sig":"AQID"}"#)), Err(ProtocolError::NoId)));
    assert!(matches!(parse_response(&parse(r#"{"id":5}"#)), Err(ProtocolError::NoSignature)));
    assert!(matches!(parse_response(&parse(r#"{"id":5,"sig":"!!"}"#)), Err(ProtocolError::SignatureNotBase64)));
    assert_eq!(ProtocolError::NoSignature.message(), "response has neither sig nor denied");
}

fn device(id: &str, paired_at: u64) -> Device {
    Device {
        id: id.to_owned(),
        name: format!("name {id}"),
        model: "Pixel 8".to_owned(),
        owner: "alice".to_owned(),
        security_level: "StrongBox".to_owned(),
        verified_boot: "green".to_owned(),
        paired_at,
        public_key_pem: "-----BEGIN PUBLIC KEY-----\nAA==\n-----END PUBLIC KEY-----\n".to_owned(),
    }
}

#[test]
fn record_text_is_serde_json_pretty() {
    let d = device("abc", 1_700_000_000);
    let expected = object(&[
        ("id", text("abc")),
        ("name", text("name abc")),
        ("model", text("Pixel 8")),
        ("owner", text("alice")),
        ("securityLevel", text("StrongBox")),
        ("verifiedBoot", text("green")),
        ("pairedAt", Value::from(1_700_000_000u64)),
        ("publicKeyPem", text("-----BEGIN PUBLIC KEY-----\nAA==\n-----END PUBLIC KEY-----\n")),
    ]);
    assert_eq!(d.record_text(), serde_json::to_string_pretty(&expected).unwrap());
}

#[test]
fn a_saved_record_reads_back_as_the_same_device() {
    let d = device("f00d", 42);
    let back = Device::from_json(&parse(&d.record_text())).unwrap();
    assert_eq!(back.id, d.id);
    assert_eq!(back.name, d.name);
    assert_eq!(back.model, d.model);
    assert_eq!(back.owner, d.owner);
    assert_eq!(back.security_level, d.security_level);
    assert_eq!(back.verified_boot, d.verified_boot);
    assert_eq!(back.paired_at, d.paired_at);
    assert_eq!(back.public_key_pem, d.public_key_pem);
}

#[test]
fn records_without_an_id_are_refused_and_missing_fields_default() {
    assert!(matches!(Device::from_json(&parse(r#"{"name":"x"}"#)), Err(StoreError::MissingId)));
    assert!(matches!(Device::from_json(&parse(r#"{"id":""}"#)), Err(StoreError::MissingId)));
    assert!(matches!(Device::from_json(&parse(r#"[1,2]"#)), Err(StoreError::MissingId)));
    assert_eq!(StoreError::MissingId.message(), "device record has no id");
    let d = Device::from_json(&parse(r#"{"id":"a1","pairedAt":"soon","name":7}"#)).unwrap();
    assert_eq!(d.id, "a1");
    assert_eq!(d.paired_at, 0);
    assert_eq!(d.name, "");
}

#[test]
fn listing_skips_bad_records_and_orders_by_pairing_time() {
    let records = vec![
        parse(r#"{"id":"c","pairedAt":30}"#),
        parse(r#"{"name":"no id"}"#),
        parse(r#"{"id":"a","pairedAt":10}"#),
        parse(r#"{"id":"b1","pairedAt":20}"#),
        parse(r#"{"id":"b2","pairedAt":20}"#),
        parse(r#"{"id":"z"}"#),
    ];
    let listed = collect_devices(&records);
    let ids: Vec<&str> = listed.iter().map(|d| d.id.as_str()).collect();
    assert_eq!(ids, vec!["z", "a", "b1", "b2", "c"]);
    assert!(collect_devices(&Vec::new()).is_empty());
}

#[test]
fn record_paths_are_only_for_plain_hex_ids() {
    let store = Store::at("/var/lib/kpasskey".to_owned());
    assert_eq!(store.path_for("ab12").as_deref(), Some("/var/lib/kpasskey/ab12.json"));
    assert_eq!(store.path_for("../../etc/passwd"), None);
    assert_eq!(store.path_for("ab-12"), None);
    assert_eq!(store.path_for("zz"), None);
    assert_eq!(store.path_for(""), None);
    assert_eq!(Store::at("dir/".to_owned()).path_for("0F").as_deref(), Some("dir/0F.json"));
    assert_eq!(Store::at(String::new()).path_for("c0ffee").as_deref(), Some("c0ffee.json"));
    assert_eq!(store.directory(), "/var/lib/kpasskey");
}

#[test]
fn pairing_results_and_pam_replies_are_serde_json_lines() {
    assert_eq!(
        pair_accepted("0123"),
        object(&[("t", text("pair.result")), ("ok", Value::Bool(true)), ("id", text("0123"))]).to_string()
    );
    assert_eq!(
        pair_refused("no matching pairing window is open"),
        object(&[
            ("t", text("pair.result")),
            ("ok", Value::Bool(false)),
            ("reason", text("no matching pairing window is open")),
        ])
        .to_string()
    );
    assert_eq!(pam_reply(&Ok(())), r#"{"ok":true,"reason":"success"}"#);
    assert_eq!(
        pam_reply(&Err("denied on the phone: nope".to_owned())),
        r#"{"ok":false,"reason":"denied on the phone: nope"}"#
    );
    assert_eq!(webauthn_failure("x"), r#"{"error":"x","ok":false}"#);
    assert_eq!(
        probe_request("alice", "polkit", "manual probe"),
        object(&[("user", text("alice")), ("action", text("polkit")), ("detail", text("manual probe"))]).to_string()
    );
}

#[test]
fn pam_requests_default_to_verification() {
    match classify_pam_request(&parse(r#"{"user":"bob"}"#)) {
        PamRequest::Verify { user, action, detail } => {
            assert_eq!((user.as_str(), action.as_str(), detail.as_str()), ("bob", "unknown", ""));
        }
        _ => panic!("expected a verification"),
    }
    match classify_pam_request(&parse(r#"{"op":"webauthn.makecred","rpId":"example.org"}"#)) {
        PamRequest::MakeCredential { rp_id, user_name } => {
            assert_eq!((rp_id.as_str(), user_name.as_str()), ("example.org", "user"));
        }
        _ => panic!("expected makeCredential"),
    }
    match classify_pam_request(&parse(r#"{"op":"webauthn.assert","credId":"Zm9v","payload":"AQ=="}"#)) {
        PamRequest::Assert { rp_id, credential_id, payload } => {
            assert_eq!((rp_id.as_str(), credential_id.as_str(), payload.as_str()), ("", "Zm9v", "AQ=="));
        }
        _ => panic!("expected an assertion"),
    }
    match classify_pam_request(&parse(r#"{"op":"webauthn.delete"}"#)) {
        PamRequest::Unknown(op) => {
            assert_eq!(DaemonError::UnknownOperation(op).message(), "unknown operation webauthn.delete");
        }
        _ => panic!("expected an unknown operation"),
    }
    assert!(matches!(classify_pam_request(&parse(r#"{"op":"webauth"}"#)), PamRequest::Verify { .. }));
}

#[test]
fn phone_answers_to_webauthn_requests() {
    assert_eq!(
        credential_reply(&parse(r#"{"id":3,"credId":"Y3JlZA","publicKeyPem":"bad"}"#)).map_err(|e| e.message()),
        Err("phone returned an unusable credential key: device public key is not a P-256 SPKI PEM".to_owned())
    );
    assert!(matches!(credential_reply(&parse(r#"{"id":3}"#)), Err(DaemonError::NoCredentialId)));
    assert!(matches!(credential_reply(&parse(r#"{"credId":"x"}"#)), Err(DaemonError::NoPublicKey)));
    match credential_reply(&parse(r#"{"denied":"not now","credId":"x"}"#)) {
        Err(e) => assert_eq!(e.message(), "denied on the phone: not now"),
        Ok(_) => panic!("a denial stands"),
    }
    assert_eq!(assertion_reply(&parse(r#"{"sig":"c2ln"}"#)).ok().unwrap(), r#"{"ok":true,"sig":"c2ln"}"#);
    assert!(matches!(assertion_reply(&parse(r#"{"id":1}"#)), Err(DaemonError::NoSignature)));
    assert_eq!(DaemonError::TimedOut(45).message(), "phone did not respond within 45s");
}

#[test]
fn the_probe_reads_the_verdict() {
    assert_eq!(probe_outcome(&parse(r#"{"ok":true,"reason":"success"}"#)), Ok("APPROVED (success)".to_owned()));
    assert_eq!(probe_outcome(&parse(r#"{"ok":false,"reason":"no"}"#)), Err("DENIED (no)".to_owned()));
    assert_eq!(probe_outcome(&parse(r#"{"ok":"yes"}"#)), Err("DENIED (no reason)".to_owned()));
}

#[test]
fn fido_helper_lines_and_replies() {
    assert_eq!(
        make_credential_request("example.org", "ann"),
        object(&[("op", text("webauthn.makecred")), ("rpId", text("example.org")), ("userName", text("ann"))])
            .to_string()
    );
    assert_eq!(
        assert_request("example.org", "Y3JlZA", "cGF5"),
        object(&[
            ("op", text("webauthn.assert")),
            ("rpId", text("example.org")),
            ("credId", text("Y3JlZA")),
            ("payload", text("cGF5")),
        ])
        .to_string()
    );
    assert!(check_reply(&parse(r#"{"ok":true}"#)).is_ok());
    assert_eq!(check_reply(&parse(r#"{"ok":false}"#)).map_err(|e| e.message()), Err("refused".to_owned()));
    assert_eq!(check_reply(&parse(r#"{"error":"busy"}"#)).map_err(|e| e.message()), Err("busy".to_owned()));
    let created = new_credential(&parse(r#"{"ok":true,"credId":"abc","publicKeyPem":"pem"}"#)).ok().unwrap();
    assert_eq!((created.credential_id.as_str(), created.public_key_pem.as_str()), ("abc", "pem"));
    match new_credential(&parse(r#"{"ok":true,"credId":"abc"}"#)) {
        Err(FidoLinkError::MissingField(name)) => assert_eq!(name, "publicKeyPem"),
        _ => panic!("expected a missing field"),
    }
    assert_eq!(
        signature(&parse(r#"{"ok":true}"#)).map_err(|e| e.message()),
        Err("daemon reply has no sig".to_owned())
    );
}

#[test]
fn unsigned_numbers_parse_as_str_parse_does() {
    for text in ["0", "80", "+65535", "65536", "", "+", "-1", "1a", "99999x", "007"] {
        let ours = parse_unsigned_max(text, 65535);
        let theirs = text.parse::<u16>();
        match (ours, theirs) {
            (Ok(a), Ok(b)) => assert_eq!(a, u64::from(b)),
            (Err(e), Err(f)) => assert_eq!(e.message(), f.to_string()),
            other => panic!("disagree on {text:?}: {other:?}"),
        }
    }
    assert_eq!(parse_unsigned_max("18446744073709551615", u64::MAX), Ok(u64::MAX));
    assert_eq!(parse_unsigned_max("18446744073709551616", u64::MAX), Err(IntError::PosOverflow));
}

#[test]
fn command_lines() {
    assert!(matches!(parse_args(&strings(&[])), Err(ArgsError::Usage)));
    assert!(matches!(parse_args(&strings(&["frobnicate"])), Err(ArgsError::Usage)));
    match parse_args(&strings(&["serve"])).ok().unwrap() {
        Command::Serve { devices, socket, port, timeout_secs } => {
            assert_eq!(devices, None);
            assert_eq!(socket, "/run/kpasskey/pam.sock");
            assert_eq!((port, timeout_secs), (34719, 45));
        }
        _ => panic!("expected serve"),
    }
    match parse_args(&strings(&["serve", "--port", "80", "--timeout", "+5", "--devices", "/tmp/d"])).ok().unwrap() {
        Command::Serve { devices, port, timeout_secs, .. } => {
            assert_eq!(devices.as_deref(), Some("/tmp/d"));
            assert_eq!((port, timeout_secs), (80, 5));
        }
        _ => panic!("expected serve"),
    }
    match parse_args(&strings(&["import", "--pubkey", "k.pem", "--action", "Pixel", "--detail", "8a"])).ok().unwrap() {
        Command::Import { pubkey, name, model, .. } => {
            assert_eq!((pubkey.as_str(), name.as_str(), model.as_str()), ("k.pem", "Pixel", "8a"));
        }
        _ => panic!("expected import"),
    }
    assert!(matches!(parse_args(&strings(&["import"])), Err(ArgsError::ImportNeedsPubkey)));
    assert!(matches!(parse_args(&strings(&["self-test"])), Ok(Command::SelfTest)));
    assert!(matches!(parse_args(&strings(&["uhid"])), Ok(Command::Uhid)));
    assert_eq!(
        parse_args(&strings(&["serve", "--port", "70000"])).err().unwrap().message(),
        "--port must be a number: number too large to fit in target type"
    );
    assert_eq!(parse_args(&strings(&["probe", "--port"])).err().unwrap().message(), "flag needs a value");
    assert_eq!(
        parse_args(&strings(&["probe", "--bogus", "x"])).err().unwrap().message(),
        format!("unknown argument --bogus\n\n{}", usage())
    );
    assert!(usage().starts_with("usage:\n  kpk-spike serve [--devices <dir>]"));
    assert!(usage().ends_with("defaults: --socket /run/kpasskey/pam.sock --port 34719"));
}

#[test]
fn radio_self_test_options() {
    let defaults = parse_options(&strings(&[])).ok().unwrap();
    assert_eq!((defaults.adapter.as_str(), defaults.seconds), ("/org/bluez/hci0", 5));
    let chosen = parse_options(&strings(&["--adapter", "/org/bluez/hci1", "--seconds", "30"])).ok().unwrap();
    assert_eq!((chosen.adapter.as_str(), chosen.seconds), ("/org/bluez/hci1", 30));
    assert_eq!(parse_options(&strings(&["--seconds", "soon"])).err(), Some("soon is not a number".to_owned()));
    assert_eq!(parse_options(&strings(&["--adapter"])).err(), Some("--adapter needs a D-Bus object path".to_owned()));
    assert_eq!(parse_options(&strings(&["--seconds"])).err(), Some("--seconds needs a number".to_owned()));
    assert_eq!(parse_options(&strings(&["-v"])).err(), Some("unknown argument -v".to_owned()));
}

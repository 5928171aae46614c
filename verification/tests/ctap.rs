use base64::Engine as _;
use ciborium::Value;
use kpasskey::ctaphid::{
    Assembly, CTAP2_ERR_NO_CREDENTIALS, CTAP2_ERR_OPERATION_DENIED, CTAPHID_CBOR, CTAPHID_INIT, CTAPHID_PING,
    CTAP_BROADCAST_CID, CtapRequest, HID_REPORT_SIZE, Outcome, UHID_CREATE2, UHID_DATA_MAX, UHID_EVENT_SIZE,
    UHID_INPUT2, UHID_OUTPUT, UHID_STOP, UhidError, UhidEvent, create_event, dispatch, frame, get_assertion,
    get_info_response, handle_report, input_event, make_credential, native_order, phone_wait_step, put, read_event, take,
    PhoneWait, UhidAction, WaitStep, uhid_step,
};
use kpasskey::bytes::ByteOrder;
use kpasskey::fidolink::NewCredential;
use kpasskey::webauthn::{
    AAGUID, CborValue, WebauthnError, assertion_request, assertion_response, attested_credential_data,
    authenticator_data, cose_key, credential_response, get_assertion_response, make_credential_response,
    parse_get_assertion, parse_make_credential,
};
use p256::pkcs8::EncodePublicKey as _;
use sha2::Digest as _;

fn to_cbor(value: &Value) -> CborValue {
    match value {
        Value::Integer(i) => CborValue::Integer(i128::from(*i)),
        Value::Bytes(b) => CborValue::Bytes(b.clone()),
        Value::Text(t) => CborValue::Text(t.clone()),
        Value::Array(items) => CborValue::Array(items.iter().map(to_cbor).collect()),
        Value::Map(entries) => CborValue::Mapping(entries.iter().map(|(k, v)| (to_cbor(k), to_cbor(v))).collect()),
        _ => CborValue::Other,
    }
}

fn decode(bytes: &[u8]) -> Value {
    ciborium::from_reader(bytes).unwrap()
}

fn entry<'a>(map: &'a Value, key: i64) -> &'a Value {
    match map {
        Value::Map(entries) => {
            &entries.iter().find(|(k, _)| *k == Value::Integer(key.into())).unwrap().1
        }
        _ => panic!("not a map"),
    }
}

fn reassemble(packets: &[Vec<u8>], next_channel: &mut u32) -> Option<Outcome> {
    let mut assembly: Option<Assembly> = None;
    let mut last = None;
    for packet in packets {
        last = handle_report(packet, &mut assembly, next_channel).unwrap();
    }
    last
}

#[test]
fn put_and_take_check_their_bounds() {
    let mut buffer = vec![0u8; 8];
    put(&mut buffer, 6, &[1, 2]).unwrap();
    assert_eq!(buffer, vec![0, 0, 0, 0, 0, 0, 1, 2]);
    assert_eq!(put(&mut buffer, 7, &[1, 2]), Err(UhidError::BufferTooSmall));
    assert_eq!(take(&buffer, 6, 2).unwrap(), vec![1, 2]);
    assert_eq!(take(&buffer, 7, 2), Err(UhidError::SliceOutOfRange));
    assert_eq!(take(&buffer, usize::MAX, 2), Err(UhidError::SliceOverflow));
}

#[test]
fn a_short_message_is_one_padded_packet() {
    let packets = frame(0x01020304, CTAPHID_PING, &[0xaa, 0xbb]).unwrap();
    assert_eq!(packets.len(), 1);
    let mut expected = vec![1, 2, 3, 4, 0x81, 0, 2, 0xaa, 0xbb];
    expected.resize(HID_REPORT_SIZE, 0);
    assert_eq!(packets[0], expected);
}

#[test]
fn a_long_message_continues_in_sequence() {
    let payload: Vec<u8> = (0..200u32).map(|i| i as u8).collect();
    let packets = frame(7, CTAPHID_CBOR, &payload).unwrap();
    assert_eq!(packets.len(), 4);
    assert_eq!(&packets[0][..7], &[0, 0, 0, 7, 0x90, 0, 200]);
    assert_eq!(&packets[0][7..], &payload[..57]);
    assert_eq!(&packets[1][..5], &[0, 0, 0, 7, 0]);
    assert_eq!(&packets[1][5..], &payload[57..116]);
    assert_eq!(packets[3][4], 2);
    assert_eq!(&packets[3][5..5 + 25], &payload[175..]);
    assert!(packets[3][30..].iter().all(|b| *b == 0));
    assert_eq!(frame(7, CTAPHID_CBOR, &vec![0u8; 65536]), Err(UhidError::ResponseTooLong));
}

#[test]
fn a_framed_ping_reassembles_into_its_echo() {
    let payload: Vec<u8> = (0..300u32).map(|i| (i * 7) as u8).collect();
    let packets = frame(0x0badcafe, CTAPHID_PING, &payload).unwrap();
    let mut next = 5;
    match reassemble(&packets, &mut next) {
        Some(Outcome::Ready(reply)) => assert_eq!(reply, packets),
        _ => panic!("expected the echo"),
    }
    assert_eq!(next, 5);
}

#[test]
fn init_on_broadcast_assigns_the_next_channel() {
    let nonce = [1u8, 2, 3, 4, 5, 6, 7, 8];
    let request = frame(CTAP_BROADCAST_CID, CTAPHID_INIT, &nonce).unwrap();
    let mut next = 1;
    match reassemble(&request, &mut next) {
        Some(Outcome::Ready(reply)) => {
            assert_eq!(next, 2);
            let mut body = nonce.to_vec();
            body.extend_from_slice(&2u32.to_be_bytes());
            body.extend_from_slice(&[2, 1, 0, 0, 4]);
            assert_eq!(reply, frame(CTAP_BROADCAST_CID, CTAPHID_INIT, &body).unwrap());
        }
        _ => panic!("expected an INIT reply"),
    }
    let mut next = 9;
    match dispatch(0x42, CTAPHID_INIT, &nonce, &mut next) {
        Ok(Outcome::Ready(reply)) => assert_eq!(&reply[0][7 + 8..7 + 12], &0x42u32.to_be_bytes()),
        _ => panic!("expected an INIT reply"),
    }
    assert_eq!(next, 9);
    assert!(matches!(dispatch(0x42, CTAPHID_INIT, &nonce[..4], &mut next), Err(UhidError::SliceOutOfRange)));
}

#[test]
fn cbor_commands_are_answered_or_handed_to_the_phone() {
    let mut next = 1;
    match dispatch(3, CTAPHID_CBOR, &[0x04], &mut next) {
        Ok(Outcome::Ready(reply)) => assert_eq!(reply, frame(3, CTAPHID_CBOR, &get_info_response()).unwrap()),
        _ => panic!("expected getInfo"),
    }
    match dispatch(3, CTAPHID_CBOR, &[0x01, 0xa0], &mut next) {
        Ok(Outcome::Waiting(CtapRequest::MakeCredential(body))) => assert_eq!(body, vec![0xa0]),
        _ => panic!("expected makeCredential"),
    }
    match dispatch(3, CTAPHID_CBOR, &[0x02], &mut next) {
        Ok(Outcome::Waiting(CtapRequest::GetAssertion(body))) => assert!(body.is_empty()),
        _ => panic!("expected getAssertion"),
    }
    match dispatch(3, CTAPHID_CBOR, &[0x09], &mut next) {
        Ok(Outcome::Ready(reply)) => assert_eq!(reply, frame(3, CTAPHID_CBOR, &[0x01]).unwrap()),
        _ => panic!("expected an error status"),
    }
    match dispatch(3, 0x55, &[], &mut next) {
        Ok(Outcome::Ready(reply)) => assert_eq!(reply, frame(3, 0x3f, &[0x01]).unwrap()),
        _ => panic!("expected an error reply"),
    }
}

#[test]
fn stray_continuations_are_ignored() {
    let mut assembly: Option<Assembly> = None;
    let mut next = 1;
    let mut packet = vec![0u8; 64];
    packet[3] = 9;
    assert!(handle_report(&packet, &mut assembly, &mut next).unwrap().is_none());
    assert_eq!(handle_report(&[0, 0, 0], &mut assembly, &mut next).err(), Some(UhidError::SliceOutOfRange));
}

#[test]
fn get_info_decodes_as_ctap2_promises() {
    let info = get_info_response();
    assert_eq!(info[0], 0);
    let map = decode(&info[1..]);
    assert_eq!(*entry(&map, 1), Value::Array(vec![Value::Text("FIDO_2_0".to_owned())]));
    assert_eq!(*entry(&map, 3), Value::Bytes(AAGUID.to_vec()));
    let options = Value::Map(vec![
        (Value::Text("rk".to_owned()), Value::Bool(false)),
        (Value::Text("up".to_owned()), Value::Bool(true)),
        (Value::Text("uv".to_owned()), Value::Bool(true)),
    ]);
    assert_eq!(*entry(&map, 4), options);
}

#[test]
fn status_bytes_of_the_phone_backed_commands() {
    assert_eq!(make_credential::<()>(Ok(vec![7, 8])), vec![0, 7, 8]);
    assert_eq!(make_credential::<()>(Err(())), vec![CTAP2_ERR_OPERATION_DENIED]);
    assert_eq!(get_assertion::<()>(Err(())), vec![CTAP2_ERR_NO_CREDENTIALS]);
}

#[test]
fn uhid_events_have_the_kernel_layout() {
    let order = native_order();
    assert_eq!(order == ByteOrder::Little, u16::from_ne_bytes([1, 0]) == 1);
    let create = create_event(order).unwrap();
    assert_eq!(create.len(), UHID_EVENT_SIZE);
    assert_eq!(&create[..4], &UHID_CREATE2.to_ne_bytes());
    assert_eq!(&create[4..34], b"kpasskey virtual authenticator");
    assert_eq!(&create[260..262], &34u16.to_ne_bytes());
    assert_eq!(&create[264..268], &0x1209u32.to_ne_bytes());

    let input = input_event(order, &[5, 6, 7]).unwrap();
    assert_eq!(input.len(), UHID_EVENT_SIZE);
    assert_eq!(&input[..4], &UHID_INPUT2.to_ne_bytes());
    assert_eq!(&input[4..6], &3u16.to_ne_bytes());
    assert_eq!(&input[6..9], &[5, 6, 7]);
    assert_eq!(input_event(order, &vec![0u8; UHID_DATA_MAX + 1]), Err(UhidError::ReportTooLarge));
    let big = create_event(ByteOrder::Big).unwrap();
    assert_eq!(&big[..4], &UHID_CREATE2.to_be_bytes());
    let little = input_event(ByteOrder::Little, &[1]).unwrap();
    assert_eq!(&little[..6], &[12, 0, 0, 0, 1, 0]);
}

#[test]
fn uhid_output_events_yield_their_report() {
    let order = native_order();
    let mut buffer = vec![0u8; UHID_EVENT_SIZE + 16];
    assert!(matches!(read_event(order, &buffer, 3), Ok(UhidEvent::Short)));

    buffer[..4].copy_from_slice(&UHID_STOP.to_ne_bytes());
    assert!(matches!(read_event(order, &buffer, 8), Ok(UhidEvent::Stop)));
    buffer[..4].copy_from_slice(&UHID_STOP.to_be_bytes());
    assert!(matches!(read_event(ByteOrder::Big, &buffer, 8), Ok(UhidEvent::Stop)));

    buffer[..4].copy_from_slice(&UHID_OUTPUT.to_ne_bytes());
    let report: Vec<u8> = (0..64u8).collect();
    buffer[5..69].copy_from_slice(&report);
    buffer[4 + UHID_DATA_MAX..4 + UHID_DATA_MAX + 2].copy_from_slice(&65u16.to_ne_bytes());
    match read_event(order, &buffer, UHID_EVENT_SIZE) {
        Ok(UhidEvent::Output { report: got, channel }) => {
            assert_eq!(got, report);
            assert_eq!(channel, 0x00010203);
        }
        _ => panic!("expected an output report"),
    }
    buffer[4 + UHID_DATA_MAX..4 + UHID_DATA_MAX + 2].copy_from_slice(&2u16.to_ne_bytes());
    assert!(matches!(read_event(order, &buffer, UHID_EVENT_SIZE), Err(UhidError::SliceOutOfRange)));
}

fn make_credential_request() -> CborValue {
    to_cbor(&Value::Map(vec![
        (Value::Integer(1.into()), Value::Bytes(vec![0u8; 32])),
        (
            Value::Integer(2.into()),
            Value::Map(vec![(Value::Text("id".to_owned()), Value::Text("example.org".to_owned()))]),
        ),
        (
            Value::Integer(3.into()),
            Value::Map(vec![
                (Value::Text("id".to_owned()), Value::Bytes(vec![1, 2])),
                (Value::Text("name".to_owned()), Value::Text("ann".to_owned())),
            ]),
        ),
    ]))
}

#[test]
fn make_credential_requests_name_the_site_and_user() {
    let request = parse_make_credential(&make_credential_request()).ok().unwrap();
    assert_eq!((request.rp_id.as_str(), request.user_name.as_str()), ("example.org", "ann"));
    let no_user = to_cbor(&Value::Map(vec![(
        Value::Integer(2.into()),
        Value::Map(vec![(Value::Text("id".to_owned()), Value::Text("a.b".to_owned()))]),
    )]));
    assert_eq!(parse_make_credential(&no_user).ok().unwrap().user_name, "user");
    assert_eq!(parse_make_credential(&CborValue::Integer(3)).err(), Some(WebauthnError::NotAMap));
    assert_eq!(parse_make_credential(&CborValue::Mapping(Vec::new())).err(), Some(WebauthnError::NoRp));
}

fn signing_key() -> p256::ecdsa::SigningKey {
    p256::ecdsa::SigningKey::from_slice(&[0x42u8; 32]).unwrap()
}

#[test]
fn a_created_credential_becomes_attested_authenticator_data() {
    let key = signing_key();
    let pem = key.verifying_key().to_public_key_pem(p256::pkcs8::LineEnding::LF).unwrap();
    let created = NewCredential {
        credential_id: base64::engine::general_purpose::URL_SAFE_NO_PAD.encode([9u8, 8, 7]),
        public_key_pem: pem,
    };
    let response = credential_response("example.org", &created).unwrap();
    let map = decode(&response);
    assert_eq!(*entry(&map, 1), Value::Text("none".to_owned()));
    let auth_data = match entry(&map, 2) {
        Value::Bytes(bytes) => bytes.clone(),
        _ => panic!("authData is a byte string"),
    };
    assert_eq!(&auth_data[..32], sha2::Sha256::digest(b"example.org").as_slice());
    assert_eq!(auth_data[32], 0x45);
    assert_eq!(&auth_data[33..37], &[0, 0, 0, 0]);
    assert_eq!(&auth_data[37..53], &AAGUID);
    assert_eq!(&auth_data[53..55], &[0, 3]);
    assert_eq!(&auth_data[55..58], &[9, 8, 7]);
    let cose = decode(&auth_data[58..]);
    let point = key.verifying_key().to_encoded_point(false);
    assert_eq!(*entry(&cose, 1), Value::Integer(2.into()));
    assert_eq!(*entry(&cose, 3), Value::Integer((-7).into()));
    assert_eq!(*entry(&cose, -2), Value::Bytes(point.x().unwrap().to_vec()));
    assert_eq!(*entry(&cose, -3), Value::Bytes(point.y().unwrap().to_vec()));
    assert_eq!(*entry(&map, 3), Value::Map(Vec::new()));

    let bad_id = NewCredential { credential_id: "!".to_owned(), public_key_pem: created.public_key_pem.clone() };
    assert_eq!(credential_response("example.org", &bad_id), Err(WebauthnError::CredentialIdNotBase64Url));
    let bad_key = NewCredential { credential_id: "AQ".to_owned(), public_key_pem: "nope".to_owned() };
    assert_eq!(credential_response("example.org", &bad_key), Err(WebauthnError::KeyNotP256));
    assert_eq!(WebauthnError::KeyNotP256.message(), "phone returned a key that is not a P-256 SPKI PEM");
}

#[test]
fn an_assertion_signs_auth_data_then_the_client_data_hash() {
    let request = to_cbor(&Value::Map(vec![
        (Value::Integer(1.into()), Value::Text("example.org".to_owned())),
        (Value::Integer(2.into()), Value::Bytes(vec![0xcd; 32])),
        (
            Value::Integer(3.into()),
            Value::Array(vec![
                Value::Map(vec![(Value::Text("id".to_owned()), Value::Text("not bytes".to_owned()))]),
                Value::Map(vec![
                    (Value::Text("type".to_owned()), Value::Text("public-key".to_owned())),
                    (Value::Text("id".to_owned()), Value::Bytes(vec![4, 5, 6])),
                ]),
            ]),
        ),
    ]));
    let parsed = parse_get_assertion(&request).ok().unwrap();
    assert_eq!(parsed.allowed, vec![vec![4u8, 5, 6]]);
    let plan = assertion_request(&parsed).ok().unwrap();
    assert_eq!(plan.credential_id, vec![4, 5, 6]);
    assert_eq!(plan.credential_b64, "BAUG");
    let mut signed = plan.auth_data.clone();
    signed.extend_from_slice(&[0xcd; 32]);
    assert_eq!(base64::engine::general_purpose::STANDARD.decode(&plan.payload_b64).unwrap(), signed);
    assert_eq!(plan.auth_data[32], 0x05);
    assert_eq!(plan.auth_data.len(), 37);

    let response = assertion_response(&plan, "MEUC").unwrap();
    let map = decode(&response);
    assert_eq!(*entry(&map, 3), Value::Bytes(vec![0x30, 0x45, 0x02]));
    assert_eq!(assertion_response(&plan, "%%"), Err(WebauthnError::SignatureNotBase64));

    let mut nothing_named = parsed;
    nothing_named.allowed.clear();
    assert_eq!(assertion_request(&nothing_named).err(), Some(WebauthnError::NoCredentialNamed));
}

#[test]
fn ctap2_encoders_match_ciborium() {
    let x = [1u8; 32];
    let y = [2u8; 32];
    let key = cose_key(&x, &y).unwrap();
    let expected = Value::Map(vec![
        (Value::Integer(1.into()), Value::Integer(2.into())),
        (Value::Integer(3.into()), Value::Integer((-7).into())),
        (Value::Integer((-1).into()), Value::Integer(1.into())),
        (Value::Integer((-2).into()), Value::Bytes(x.to_vec())),
        (Value::Integer((-3).into()), Value::Bytes(y.to_vec())),
    ]);
    let mut encoded = Vec::new();
    ciborium::into_writer(&expected, &mut encoded).unwrap();
    assert_eq!(key, encoded);
    assert_eq!(cose_key(&x[..31], &y), Err(WebauthnError::BadCoordinates));

    let data = authenticator_data("a", 1, 0x01020304, Some(&[9]));
    assert_eq!(&data[33..], &[1, 2, 3, 4, 9]);
    let attested = attested_credential_data(&[7; 300], &[1]).unwrap();
    assert_eq!(&attested[16..18], &[1, 44]);
    assert_eq!(attested_credential_data(&vec![0; 65536], &[]), Err(WebauthnError::CredentialIdTooLong));

    let long = vec![3u8; 300];
    let made = make_credential_response(&long).unwrap();
    let mut expected = Vec::new();
    ciborium::into_writer(
        &Value::Map(vec![
            (Value::Integer(1.into()), Value::Text("none".to_owned())),
            (Value::Integer(2.into()), Value::Bytes(long.clone())),
            (Value::Integer(3.into()), Value::Map(Vec::new())),
        ]),
        &mut expected,
    )
    .unwrap();
    assert_eq!(made, expected);

    let asserted = get_assertion_response(&[1, 2], &[3], &[4, 5]).unwrap();
    let mut expected = Vec::new();
    ciborium::into_writer(
        &Value::Map(vec![
            (
                Value::Integer(1.into()),
                Value::Map(vec![
                    (Value::Text("type".to_owned()), Value::Text("public-key".to_owned())),
                    (Value::Text("id".to_owned()), Value::Bytes(vec![1, 2])),
                ]),
            ),
            (Value::Integer(2.into()), Value::Bytes(vec![3])),
            (Value::Integer(3.into()), Value::Bytes(vec![4, 5])),
        ]),
        &mut expected,
    )
    .unwrap();
    assert_eq!(asserted, expected);
}

#[test]
fn a_message_in_progress_stays_partial() {
    let payload = vec![5u8; 100];
    let packets = frame(11, CTAPHID_PING, &payload).unwrap();
    assert_eq!(packets.len(), 2);
    let mut assembly: Option<Assembly> = None;
    let mut next = 1;
    assert!(handle_report(&packets[0], &mut assembly, &mut next).unwrap().is_none());
    match &assembly {
        Some(state) => {
            assert_eq!(state.payload.len(), 57);
            assert!(state.payload.len() < state.expected);
            assert_eq!(state.expected, 100);
        }
        None => panic!("the message is in progress"),
    }
    assert!(handle_report(&packets[1], &mut assembly, &mut next).unwrap().is_some());
    assert!(assembly.is_none());
}

#[test]
fn waiting_on_the_phone_keeps_the_browser_and_then_answers() {
    match phone_wait_step(0x11223344, PhoneWait::StillWaiting) {
        Ok(WaitStep::KeepAlive(packets)) => {
            assert_eq!(packets.len(), 1);
            assert_eq!(&packets[0][..8], &[0x11, 0x22, 0x33, 0x44, 0x80 | 0x3b, 0x00, 0x01, 0x02]);
        }
        _ => panic!("a keepalive was expected"),
    }
    match phone_wait_step(9, PhoneWait::Answered(vec![0x00, 0xa1])) {
        Ok(WaitStep::Answer(packets)) => assert_eq!(packets, frame(9, CTAPHID_CBOR, &[0x00, 0xa1]).unwrap()),
        _ => panic!("the answer was expected"),
    }
    assert!(matches!(phone_wait_step(9, PhoneWait::Ended), Ok(WaitStep::Abandoned)));
    assert!(matches!(phone_wait_step(9, PhoneWait::Answered(vec![0u8; 65536])), Err(UhidError::ResponseTooLong)));
}

#[test]
fn each_uhid_event_leads_to_its_action() {
    let mut assembly: Option<Assembly> = None;
    let mut next = 1;
    assert!(matches!(uhid_step(UhidEvent::Stop, &mut assembly, &mut next), Ok(UhidAction::Stop)));
    assert!(matches!(uhid_step(UhidEvent::Start, &mut assembly, &mut next), Ok(UhidAction::Started)));
    assert!(matches!(uhid_step(UhidEvent::Open, &mut assembly, &mut next), Ok(UhidAction::Opened)));
    assert!(matches!(uhid_step(UhidEvent::Close, &mut assembly, &mut next), Ok(UhidAction::Closed)));
    assert!(matches!(uhid_step(UhidEvent::Short, &mut assembly, &mut next), Ok(UhidAction::Continue)));
    assert!(matches!(uhid_step(UhidEvent::Other, &mut assembly, &mut next), Ok(UhidAction::Continue)));
    let packets = frame(0x0a0b0c0d, CTAPHID_PING, &[7, 8, 9]).unwrap();
    let event = UhidEvent::Output { report: packets[0].clone(), channel: 0x0a0b0c0d };
    match uhid_step(event, &mut assembly, &mut next) {
        Ok(UhidAction::Handle(Outcome::Ready(reply), channel)) => {
            assert_eq!(channel, 0x0a0b0c0d);
            assert_eq!(reply, packets);
        }
        _ => panic!("a PING is echoed"),
    }
    assert!(assembly.is_none());
    assert_eq!(next, 1);
    let short = UhidEvent::Output { report: vec![0, 0, 0], channel: 0 };
    assert!(matches!(uhid_step(short, &mut assembly, &mut next), Err(UhidError::SliceOutOfRange)));
}

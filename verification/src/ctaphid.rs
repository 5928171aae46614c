//! A virtual FIDO HID authenticator: CTAPHID framing and reassembly, the uhid kernel
//! events that carry the reports, and the command dispatch that decides each reply.
//!
//! The device itself (`/dev/uhid`) and the requests that wait on the phone are driven by the
//! program around this library; everything that turns bytes into bytes is here.

use vstd::prelude::*;
use vstd::slice::slice_subrange;
use crate::bytes::{
    ByteOrder, be16, be16_bytes, be32, be32_bytes, be32_from, be32_value, bytes16, bytes32, extend_bytes, le16,
    order16, order32, push_zeros, read16, read32, value16, value32, zero_bytes, zeros,
};
use crate::webauthn::AAGUID;

verus! {

// linux/uhid.h event types.
pub const UHID_START: u32 = 2;
pub const UHID_STOP: u32 = 3;
pub const UHID_OPEN: u32 = 4;
pub const UHID_CLOSE: u32 = 5;
pub const UHID_OUTPUT: u32 = 6;
pub const UHID_CREATE2: u32 = 11;
pub const UHID_INPUT2: u32 = 12;

pub const UHID_DATA_MAX: usize = 4096;
/// `struct uhid_event` is packed: u32 type + the largest union member (`create2_req`, 4372).
pub const UHID_EVENT_SIZE: usize = 4376;

pub const HID_REPORT_SIZE: usize = 64;
/// Payload bytes carried by an initialisation packet.
pub const INIT_DATA_SIZE: usize = 57;
/// Payload bytes carried by a continuation packet.
pub const CONT_DATA_SIZE: usize = 59;

// CTAPHID commands (high bit set on the wire).
pub const CTAPHID_PING: u8 = 0x01;
pub const CTAPHID_INIT: u8 = 0x06;
pub const CTAPHID_CBOR: u8 = 0x10;
pub const CTAPHID_ERROR: u8 = 0x3f;
pub const CTAPHID_KEEPALIVE: u8 = 0x3b;
/// KEEPALIVE status: waiting for the user, as opposed to merely busy.
pub const KEEPALIVE_UP_NEEDED: u8 = 0x02;

pub const CTAP2_ERR_OPERATION_DENIED: u8 = 0x27;
pub const CTAP_BROADCAST_CID: u32 = 0xffff_ffff;
pub const CTAP2_MAKE_CREDENTIAL: u8 = 0x01;
pub const CTAP2_GET_ASSERTION: u8 = 0x02;
pub const CTAP2_GET_INFO: u8 = 0x04;
pub const CTAP1_ERR_INVALID_COMMAND: u8 = 0x01;
pub const CTAP2_ERR_NO_CREDENTIALS: u8 = 0x2e;
pub const CTAP2_OK: u8 = 0x00;

/// Standard FIDO HID report descriptor: 64-byte input and output reports on usage page
/// 0xF1D0, which is what browsers scan for.
pub const FIDO_REPORT_DESCRIPTOR: [u8; 34] = [
    0x06, 0xd0, 0xf1, 0x09, 0x01, 0xa1, 0x01, 0x09, 0x20, 0x15, 0x00, 0x26, 0xff, 0x00, 0x75,
    0x08, 0x95, 0x40, 0x81, 0x02, 0x09, 0x21, 0x15, 0x00, 0x26, 0xff, 0x00, 0x75, 0x08, 0x95,
    0x40, 0x91, 0x02, 0xc0,
];

/// The device name announced to the kernel: "kpasskey virtual authenticator".
pub const DEVICE_NAME: [u8; 30] = [
    0x6b, 0x70, 0x61, 0x73, 0x73, 0x6b, 0x65, 0x79, 0x20, 0x76, 0x69, 0x72, 0x74, 0x75, 0x61,
    0x6c, 0x20, 0x61, 0x75, 0x74, 0x68, 0x65, 0x6e, 0x74, 0x69, 0x63, 0x61, 0x74, 0x6f, 0x72,
];

/// Why a uhid event or a CTAPHID message could not be built or read.
#[derive(Debug, Clone, Copy, PartialEq, Eq, Structural)]
pub enum UhidError {
    OffsetOverflow,
    BufferTooSmall,
    DescriptorTooLong,
    ReportTooLarge,
    ReportLengthOverflow,
    SliceOverflow,
    SliceOutOfRange,
    ShortReport,
    ResponseTooLong,
}

/// `u16::to_ne_bytes`: the value in the machine's own byte order, which on every Rust
/// target is little- or big-endian; which of the two is the machine's to say.
#[verifier::external_body]
fn native_u16(x: u16) -> (r: [u8; 2])
    ensures
        r@ == le16(x) || r@ == be16(x),
{
    x.to_ne_bytes()
}

/// The machine's own byte order, in which the kernel's uhid events carry their numbers.
/// Which order that is, is the machine's to say; read it once and hand it to the functions
/// that build and read events, so that every number is in the same order.
pub fn native_order() -> (r: ByteOrder) {
    let one = native_u16(1);
    if one[0] == 1 {
        ByteOrder::Little
    } else {
        ByteOrder::Big
    }
}

/// Copies `bytes` into `buffer` at `offset`, failing when they do not fit.
pub fn put(buffer: &mut Vec<u8>, offset: usize, bytes: &[u8]) -> (r: Result<(), UhidError>)
    ensures
        offset + bytes@.len() > usize::MAX ==> r == Err::<(), UhidError>(UhidError::OffsetOverflow),
        offset + bytes@.len() <= usize::MAX && offset + bytes@.len() > old(buffer)@.len()
            ==> r == Err::<(), UhidError>(UhidError::BufferTooSmall),
        r is Err ==> final(buffer)@ == old(buffer)@,
        offset + bytes@.len() <= old(buffer)@.len() ==> r is Ok && final(buffer)@ == old(buffer)@.take(
            offset as int,
        ) + bytes@ + old(buffer)@.skip(offset + bytes@.len()),
{
    let length = buffer.len();
    if bytes.len() > usize::MAX - offset {
        return Err(UhidError::OffsetOverflow);
    }
    let end = offset + bytes.len();
    if end > length {
        return Err(UhidError::BufferTooSmall);
    }
    let mut i: usize = 0;
    while i < bytes.len()
        invariant
            end == offset + bytes@.len(),
            end <= buffer@.len(),
            buffer@.len() == old(buffer)@.len(),
            i <= bytes@.len(),
            forall|j: int| 0 <= j < offset ==> buffer@[j] == old(buffer)@[j],
            forall|j: int| end <= j < buffer@.len() ==> buffer@[j] == old(buffer)@[j],
            forall|j: int| 0 <= j < i ==> buffer@[offset + j] == bytes@[j],
            forall|j: int| offset + i <= j < end ==> buffer@[j] == old(buffer)@[j],
        decreases bytes@.len() - i,
    {
        buffer.set(offset + i, bytes[i]);
        i = i + 1;
    }
    assert(buffer@ =~= old(buffer)@.take(offset as int) + bytes@ + old(buffer)@.skip(end as int));
    Ok(())
}

/// The `length` bytes of `buffer` from `offset`, failing when they are not all there.
pub fn take(buffer: &[u8], offset: usize, length: usize) -> (r: Result<Vec<u8>, UhidError>)
    ensures
        offset + length > usize::MAX ==> r == Err::<Vec<u8>, UhidError>(UhidError::SliceOverflow),
        offset + length <= usize::MAX && offset + length > buffer@.len() ==> r == Err::<
            Vec<u8>,
            UhidError,
        >(UhidError::SliceOutOfRange),
        offset + length <= buffer@.len() ==> (r matches Ok(v) && v@ == buffer@.subrange(
            offset as int,
            offset + length,
        )),
{
    let available = buffer.len();
    if length > usize::MAX - offset {
        return Err(UhidError::SliceOverflow);
    }
    if offset + length > available {
        return Err(UhidError::SliceOutOfRange);
    }
    let mut out: Vec<u8> = Vec::new();
    extend_bytes(&mut out, slice_subrange(buffer, offset, offset + length));
    Ok(out)
}

/// Offset of the report-descriptor size inside a `UHID_CREATE2` event.
pub open spec fn rd_size_offset() -> int {
    260int
}

/// The `UHID_CREATE2` event that creates the authenticator: 4376 bytes, the event type at
/// 0, the device name at 4, the descriptor length, bus (USB), vendor (pid.codes 0x1209),
/// product, version and country at 260..280, the FIDO report descriptor at 280, and zeros
/// elsewhere. Numbers are in byte order `order`, the machine's own.
pub fn create_event(order: ByteOrder) -> (r: Result<Vec<u8>, UhidError>)
    ensures
        r matches Ok(event) && {
            &&& event@.len() == UHID_EVENT_SIZE
            &&& event@.subrange(0, 4) == order32(order, UHID_CREATE2)
            &&& event@.subrange(4, 34) == DEVICE_NAME@
            &&& event@.subrange(34, rd_size_offset()) == zeros((rd_size_offset() - 34) as nat)
            &&& event@.subrange(rd_size_offset(), rd_size_offset() + 2) == order16(order, 34)
            &&& event@.subrange(rd_size_offset() + 2, rd_size_offset() + 4) == order16(order, 3)
            &&& event@.subrange(rd_size_offset() + 4, rd_size_offset() + 8) == order32(order, 0x1209)
            &&& event@.subrange(rd_size_offset() + 8, rd_size_offset() + 12) == order32(order, 1)
            &&& event@.subrange(rd_size_offset() + 12, rd_size_offset() + 16) == order32(order, 1)
            &&& event@.subrange(rd_size_offset() + 16, rd_size_offset() + 20) == order32(order, 0)
            &&& event@.subrange(rd_size_offset() + 20, rd_size_offset() + 54) == FIDO_REPORT_DESCRIPTOR@
            &&& event@.skip(rd_size_offset() + 54) == zeros((UHID_EVENT_SIZE - (rd_size_offset() + 54)) as nat)
        },
{
    let mut event: Vec<u8> = Vec::new();
    let kind = bytes32(order, UHID_CREATE2);
    extend_bytes(&mut event, &kind);
    let name = DEVICE_NAME;
    extend_bytes(&mut event, &name);
    push_zeros(&mut event, 260 - 34);
    let ghost head = event@;
    let descriptor_length: u16 = 34;
    let length_field = bytes16(order, descriptor_length);
    extend_bytes(&mut event, &length_field);
    let bus_field = bytes16(order, 3u16);
    extend_bytes(&mut event, &bus_field);
    let vendor_field = bytes32(order, 0x1209u32);
    extend_bytes(&mut event, &vendor_field);
    let product_field = bytes32(order, 0x0001u32);
    extend_bytes(&mut event, &product_field);
    let version_field = bytes32(order, 1u32);
    extend_bytes(&mut event, &version_field);
    let country_field = bytes32(order, 0u32);
    extend_bytes(&mut event, &country_field);
    let descriptor = FIDO_REPORT_DESCRIPTOR;
    extend_bytes(&mut event, &descriptor);
    push_zeros(&mut event, UHID_EVENT_SIZE - 314);
    assert(head.subrange(0, 4) =~= kind@);
    assert(event@.subrange(0, 4) =~= kind@);
    assert(head.subrange(4, 34) =~= DEVICE_NAME@);
    assert(event@.subrange(4, 34) =~= head.subrange(4, 34));
    assert(event@.subrange(34, rd_size_offset()) =~= zeros((rd_size_offset() - 34) as nat));
    assert(event@.subrange(rd_size_offset(), rd_size_offset() + 2) =~= length_field@);
    assert(event@.subrange(rd_size_offset() + 2, rd_size_offset() + 4) =~= bus_field@);
    assert(event@.subrange(rd_size_offset() + 4, rd_size_offset() + 8) =~= vendor_field@);
    assert(event@.subrange(rd_size_offset() + 8, rd_size_offset() + 12) =~= product_field@);
    assert(event@.subrange(rd_size_offset() + 12, rd_size_offset() + 16) =~= version_field@);
    assert(event@.subrange(rd_size_offset() + 16, rd_size_offset() + 20) =~= country_field@);
    assert(event@.subrange(rd_size_offset() + 20, rd_size_offset() + 54) =~= FIDO_REPORT_DESCRIPTOR@);
    assert(event@.skip(rd_size_offset() + 54) =~= zeros((UHID_EVENT_SIZE - (rd_size_offset() + 54)) as nat));
    Ok(event)
}

/// The `UHID_INPUT2` event that hands `report` to the host: the event type and the report
/// length at 0 and 4 in byte order `order` (the machine's own), the report at 6, zeros
/// after it. Reports longer than `UHID_DATA_MAX` are refused.
pub fn input_event(order: ByteOrder, report: &[u8]) -> (r: Result<Vec<u8>, UhidError>)
    ensures
        report@.len() > UHID_DATA_MAX ==> r == Err::<Vec<u8>, UhidError>(UhidError::ReportTooLarge),
        report@.len() <= UHID_DATA_MAX ==> (r matches Ok(event) && {
            &&& event@.len() == UHID_EVENT_SIZE
            &&& event@.subrange(0, 4) == order32(order, UHID_INPUT2)
            &&& event@.subrange(4, 6) == order16(order, report@.len() as u16)
            &&& event@.subrange(6, 6 + report@.len() as int) == report@
            &&& event@.skip(6 + report@.len() as int) == zeros((UHID_EVENT_SIZE - 6 - report@.len()) as nat)
        }),
{
    if report.len() > UHID_DATA_MAX {
        return Err(UhidError::ReportTooLarge);
    }
    let mut event = zero_bytes(UHID_EVENT_SIZE);
    let kind = bytes32(order, UHID_INPUT2);
    put(&mut event, 0, &kind)?;
    let size = bytes16(order, report.len() as u16);
    put(&mut event, 4, &size)?;
    let ghost before = event@;
    assert(before.subrange(0, 4) =~= kind@);
    assert(before.subrange(4, 6) =~= size@);
    assert(before.skip(6) =~= zeros((UHID_EVENT_SIZE - 6) as nat));
    put(&mut event, 6, report)?;
    assert(event@.subrange(0, 4) =~= before.subrange(0, 4));
    assert(event@.subrange(4, 6) =~= before.subrange(4, 6));
    assert(event@.subrange(6, 6 + report@.len() as int) =~= report@);
    assert(event@.skip(6 + report@.len() as int) =~= zeros((UHID_EVENT_SIZE - 6 - report@.len()) as nat));
    Ok(event)
}

/// The `authenticatorGetInfo` reply: status OK, then the CBOR map
/// `{1: ["FIDO_2_0"], 3: AAGUID, 4: {"rk": false, "up": true, "uv": true}}`.
pub open spec fn get_info_bytes() -> Seq<u8> {
    seq![CTAP2_OK, 0xa3u8, 0x01, 0x81, 0x68, 0x46, 0x49, 0x44, 0x4f, 0x5f, 0x32, 0x5f, 0x30, 0x03, 0x50]
        + AAGUID@ + seq![0x04u8, 0xa3, 0x62, 0x72, 0x6b, 0xf4, 0x62, 0x75, 0x70, 0xf5, 0x62, 0x75, 0x76, 0xf5]
}

/// `authenticatorGetInfo`: versions, our AAGUID, and the options a phone-backed
/// authenticator can honestly claim. `uv` is true because the fingerprint *is* the
/// verification; `rk` is false because no credential is stored here.
pub fn get_info_response() -> (r: Vec<u8>)
    ensures
        r@ == get_info_bytes(),
{
    let head: [u8; 15] = [
        CTAP2_OK, 0xa3, 0x01, 0x81, 0x68, 0x46, 0x49, 0x44, 0x4f, 0x5f, 0x32, 0x5f, 0x30, 0x03, 0x50,
    ];
    let options: [u8; 14] = [0x04, 0xa3, 0x62, 0x72, 0x6b, 0xf4, 0x62, 0x75, 0x70, 0xf5, 0x62, 0x75, 0x76, 0xf5];
    let aaguid = AAGUID;
    let mut response: Vec<u8> = Vec::new();
    extend_bytes(&mut response, &head);
    extend_bytes(&mut response, &aaguid);
    extend_bytes(&mut response, &options);
    assert(response@ =~= get_info_bytes());
    response
}

/// Prefixes the CTAP2 OK status to a successful body; a failure becomes the one-byte
/// `failure` status.
pub fn ctap_reply<E>(result: Result<Vec<u8>, E>, failure: u8) -> (r: Vec<u8>)
    ensures
        result matches Ok(body) ==> r@ == seq![CTAP2_OK] + body@,
        result is Err ==> r@ == seq![failure],
{
    match result {
        Ok(body) => {
            let mut response: Vec<u8> = Vec::new();
            response.push(CTAP2_OK);
            extend_bytes(&mut response, body.as_slice());
            response
        },
        Err(_) => {
            let mut response: Vec<u8> = Vec::new();
            response.push(failure);
            assert(response@ =~= seq![failure]);
            response
        },
    }
}

/// The reply to `authenticatorMakeCredential`: the response the phone's credential made, or
/// `OPERATION_DENIED` when there is none.
pub fn make_credential<E>(created: Result<Vec<u8>, E>) -> (r: Vec<u8>)
    ensures
        created matches Ok(body) ==> r@ == seq![CTAP2_OK] + body@,
        created is Err ==> r@ == seq![CTAP2_ERR_OPERATION_DENIED],
{
    ctap_reply(created, CTAP2_ERR_OPERATION_DENIED)
}

/// The reply to `authenticatorGetAssertion`: the signed response, or `NO_CREDENTIALS` when
/// there is none.
pub fn get_assertion<E>(signed: Result<Vec<u8>, E>) -> (r: Vec<u8>)
    ensures
        signed matches Ok(body) ==> r@ == seq![CTAP2_OK] + body@,
        signed is Err ==> r@ == seq![CTAP2_ERR_NO_CREDENTIALS],
{
    ctap_reply(signed, CTAP2_ERR_NO_CREDENTIALS)
}

/// `s` padded with zeros to a full 64-byte report.
pub open spec fn padded(s: Seq<u8>) -> Seq<u8> {
    s + zeros((HID_REPORT_SIZE - s.len()) as nat)
}

/// The initialisation packet of a message: channel, command with the high bit set,
/// big-endian length, then as much of the payload as fits.
pub open spec fn init_packet(channel: u32, command: u8, payload: Seq<u8>) -> Seq<u8> {
    let first = if payload.len() < INIT_DATA_SIZE { payload.len() } else { INIT_DATA_SIZE as nat };
    padded(be32(channel) + seq![command | 0x80u8] + be16(payload.len() as u16) + payload.take(first as int))
}

/// A continuation packet: channel, sequence number (counting from 0, wrapping at 256), chunk.
pub open spec fn cont_packet(channel: u32, sequence: nat, chunk: Seq<u8>) -> Seq<u8> {
    padded(be32(channel) + seq![(sequence % 256) as u8] + chunk)
}

/// The continuation packets carrying `payload` from `offset` on, 59 bytes each.
pub open spec fn cont_packets(channel: u32, payload: Seq<u8>, offset: nat, sequence: nat) -> Seq<Seq<u8>>
    decreases payload.len() - offset,
{
    if offset >= payload.len() {
        Seq::empty()
    } else {
        let end: nat = if offset + CONT_DATA_SIZE < payload.len() { (offset + CONT_DATA_SIZE) as nat } else { payload.len() };
        seq![cont_packet(channel, sequence, payload.subrange(offset as int, end as int))]
            + cont_packets(channel, payload, end, sequence + 1)
    }
}

/// All packets of a message: one initialisation packet, then continuations.
pub open spec fn frame_packets(channel: u32, command: u8, payload: Seq<u8>) -> Seq<Seq<u8>> {
    let first = if payload.len() < INIT_DATA_SIZE { payload.len() } else { INIT_DATA_SIZE as nat };
    seq![init_packet(channel, command, payload)] + cont_packets(channel, payload, first, 0)
}

fn packet(header: &[u8], payload: &[u8], from: usize, to: usize) -> (r: Vec<u8>)
    requires
        from <= to <= payload@.len(),
        header@.len() + (to - from) <= HID_REPORT_SIZE,
    ensures
        r@ == padded(header@ + payload@.subrange(from as int, to as int)),
{
    let mut out: Vec<u8> = Vec::new();
    extend_bytes(&mut out, header);
    extend_bytes(&mut out, slice_subrange(payload, from, to));
    let fill = HID_REPORT_SIZE - out.len();
    push_zeros(&mut out, fill);
    out
}

/// Splits a response into 64-byte CTAPHID packets: one initialisation packet, then
/// continuations. A payload longer than a 16-bit length can describe is refused.
pub fn frame(channel: u32, command: u8, payload: &[u8]) -> (r: Result<Vec<Vec<u8>>, UhidError>)
    ensures
        payload@.len() > 65535 ==> r == Err::<Vec<Vec<u8>>, UhidError>(UhidError::ResponseTooLong),
        payload@.len() <= 65535 ==> (r matches Ok(packets) && packets.deep_view() == frame_packets(
            channel,
            command,
            payload@,
        )),
{
    if payload.len() > 65535 {
        return Err(UhidError::ResponseTooLong);
    }
    let length = payload.len() as u16;
    let first = if payload.len() < INIT_DATA_SIZE { payload.len() } else { INIT_DATA_SIZE };
    let mut header: Vec<u8> = Vec::new();
    let channel_bytes = be32_bytes(channel);
    extend_bytes(&mut header, &channel_bytes);
    header.push(command | 0x80);
    let length_bytes = be16_bytes(length);
    extend_bytes(&mut header, &length_bytes);
    assert(header@ =~= be32(channel) + seq![command | 0x80u8] + be16(length));
    let init = packet(header.as_slice(), payload, 0, first);
    assert(init.deep_view() =~= init@);
    assert(payload@.subrange(0, first as int) =~= payload@.take(first as int));
    let mut packets: Vec<Vec<u8>> = Vec::new();
    packets.push(init);
    assert(packets.deep_view() =~= seq![init_packet(channel, command, payload@)]);

    let mut offset = first;
    let mut sequence: u8 = 0;
    let ghost mut count: nat = 0;
    while offset < payload.len()
        invariant
            first <= offset <= payload@.len(),
            payload@.len() <= 65535,
            channel_bytes@ == be32(channel),
            sequence == (count % 256) as u8,
            packets.deep_view() + cont_packets(channel, payload@, offset as nat, count) == frame_packets(
                channel,
                command,
                payload@,
            ),
        decreases payload@.len() - offset,
    {
        let end = if offset + CONT_DATA_SIZE < payload.len() { offset + CONT_DATA_SIZE } else { payload.len() };
        let mut header: Vec<u8> = Vec::new();
        extend_bytes(&mut header, &channel_bytes);
        header.push(sequence);
        assert(header@ =~= be32(channel) + seq![(count % 256) as u8]);
        let next = packet(header.as_slice(), payload, offset, end);
        assert(next.deep_view() =~= next@);
        let ghost before = packets.deep_view();
        packets.push(next);
        assert(packets.deep_view() =~= before.push(next@));
        assert(next@ == cont_packet(channel, count, payload@.subrange(offset as int, end as int)));
        assert(before + cont_packets(channel, payload@, offset as nat, count) =~= before.push(next@)
            + cont_packets(channel, payload@, end as nat, count + 1));
        offset = end;
        sequence = if sequence == 255 { 0 } else { sequence + 1 };
        proof {
            count = count + 1;
        }
    }
    assert(packets.deep_view() + cont_packets(channel, payload@, offset as nat, count) =~= packets.deep_view());
    Ok(packets)
}

/// A kernel event read from the uhid device.
pub enum UhidEvent {
    /// Fewer than four bytes were read: no event.
    Short,
    Start,
    Open,
    Close,
    Stop,
    /// The host wrote a report, on this channel.
    Output { report: Vec<u8>, channel: u32 },
    /// An event the authenticator ignores.
    Other,
}

/// The report in a `UHID_OUTPUT` event whose size field reads `size`, and the channel it
/// names (its first four bytes, big-endian). The host prepends a report-number byte when
/// the descriptor declares no numbered reports, so a 64-byte packet arrives as 65 bytes;
/// at most one report's worth is kept.
pub open spec fn output_report_spec(size: u16, buffer: Seq<u8>) -> Result<(Seq<u8>, u32), UhidError> {
    let offset: int = if size > HID_REPORT_SIZE { 5 } else { 4 };
    let length: int = if size > HID_REPORT_SIZE { size - 1 } else { size as int };
    let n: int = if length < HID_REPORT_SIZE { length } else { HID_REPORT_SIZE as int };
    if offset + n > buffer.len() || n < 4 {
        Err(UhidError::SliceOutOfRange)
    } else {
        Ok((buffer.subrange(offset, offset + n), be32_value(buffer.subrange(offset, offset + 4))))
    }
}

/// Reads the report out of a `UHID_OUTPUT` event whose size field reads `size`.
pub fn output_report(size: u16, buffer: &[u8]) -> (r: Result<(Vec<u8>, u32), UhidError>)
    ensures
        match r {
            Ok((report, channel)) => output_report_spec(size, buffer@) == Ok::<(Seq<u8>, u32), UhidError>(
                (report@, channel),
            ),
            Err(e) => output_report_spec(size, buffer@) == Err::<(Seq<u8>, u32), UhidError>(e),
        },
{
    let size = size as usize;
    let (offset, length) = if size > HID_REPORT_SIZE {
        (5usize, size - 1)
    } else {
        (4usize, size)
    };
    let n = if length < HID_REPORT_SIZE { length } else { HID_REPORT_SIZE };
    let report = take(buffer, offset, n)?;
    let head = take(report.as_slice(), 0, 4)?;
    assert(head@ =~= buffer@.subrange(offset as int, offset + 4));
    let channel = be32_from(head.as_slice());
    Ok((report, channel))
}

/// A uhid event, with its report as a byte sequence.
pub enum EventView {
    Short,
    Start,
    Open,
    Close,
    Stop,
    Output(Seq<u8>, u32),
    Other,
}

pub open spec fn event_result(r: Result<UhidEvent, UhidError>) -> Result<EventView, UhidError> {
    match r {
        Ok(UhidEvent::Short) => Ok(EventView::Short),
        Ok(UhidEvent::Start) => Ok(EventView::Start),
        Ok(UhidEvent::Open) => Ok(EventView::Open),
        Ok(UhidEvent::Close) => Ok(EventView::Close),
        Ok(UhidEvent::Stop) => Ok(EventView::Stop),
        Ok(UhidEvent::Output { report, channel }) => Ok(EventView::Output(report@, channel)),
        Ok(UhidEvent::Other) => Ok(EventView::Other),
        Err(e) => Err(e),
    }
}

/// The event in `buffer` (at least four bytes) whose type field reads `kind`, and whose
/// output size field (at 4100) reads `size`.
pub open spec fn event_spec(kind: u32, size: u16, buffer: Seq<u8>) -> Result<EventView, UhidError> {
    if kind == UHID_START {
        Ok(EventView::Start)
    } else if kind == UHID_OPEN {
        Ok(EventView::Open)
    } else if kind == UHID_CLOSE {
        Ok(EventView::Close)
    } else if kind == UHID_STOP {
        Ok(EventView::Stop)
    } else if kind == UHID_OUTPUT {
        if buffer.len() < 4 + UHID_DATA_MAX + 2 {
            Err(UhidError::SliceOutOfRange)
        } else {
            match output_report_spec(size, buffer) {
                Ok((report, channel)) => Ok(EventView::Output(report, channel)),
                Err(e) => Err(e),
            }
        }
    } else {
        Ok(EventView::Other)
    }
}

/// The event in the first `read` bytes of `buffer`, numbers read in byte order `order`:
/// nothing when fewer than four bytes were read.
pub open spec fn read_event_spec(order: ByteOrder, buffer: Seq<u8>, read: usize) -> Result<EventView, UhidError> {
    if read < 4 {
        Ok(EventView::Short)
    } else if buffer.len() < 4 {
        Err(UhidError::SliceOutOfRange)
    } else {
        event_spec(
            read32(order, buffer.take(4)),
            read16(order, buffer.subrange(4 + UHID_DATA_MAX, 4 + UHID_DATA_MAX + 2)),
            buffer,
        )
    }
}

/// A uhid event is what its type field says. With four or more bytes read, type 2 is the
/// host starting the device, 3 stopping it, 4 opening it and 5 closing it; any type other
/// than these and 6 (a report) is ignored. Stop is read only from type 3, so the
/// authenticator's loop ends only when the host stops the device.
pub proof fn lemma_event_follows_its_type(order: ByteOrder, buffer: Seq<u8>, read: usize)
    ensures
        read < 4 ==> read_event_spec(order, buffer, read) == Ok::<EventView, UhidError>(EventView::Short),
        read >= 4 && buffer.len() >= 4 && read32(order, buffer.take(4)) == 2 ==> read_event_spec(order, buffer, read)
            == Ok::<EventView, UhidError>(EventView::Start),
        read >= 4 && buffer.len() >= 4 && read32(order, buffer.take(4)) == 3 ==> read_event_spec(order, buffer, read)
            == Ok::<EventView, UhidError>(EventView::Stop),
        read >= 4 && buffer.len() >= 4 && read32(order, buffer.take(4)) == 4 ==> read_event_spec(order, buffer, read)
            == Ok::<EventView, UhidError>(EventView::Open),
        read >= 4 && buffer.len() >= 4 && read32(order, buffer.take(4)) == 5 ==> read_event_spec(order, buffer, read)
            == Ok::<EventView, UhidError>(EventView::Close),
        read >= 4 && buffer.len() >= 4 && !(2 <= read32(order, buffer.take(4)) <= 6) ==> read_event_spec(
            order,
            buffer,
            read,
        ) == Ok::<EventView, UhidError>(EventView::Other),
        read_event_spec(order, buffer, read) == Ok::<EventView, UhidError>(EventView::Stop) ==> read >= 4
            && buffer.len() >= 4 && read32(order, buffer.take(4)) == 3,
        read_event_spec(order, buffer, read) == Ok::<EventView, UhidError>(EventView::Start) ==> read >= 4
            && buffer.len() >= 4 && read32(order, buffer.take(4)) == 2,
        read_event_spec(order, buffer, read) matches Ok(EventView::Output(_, _)) ==> read >= 4 && buffer.len() >= 4
            && read32(order, buffer.take(4)) == 6,
{
}

/// Reads the event in the first `read` bytes of `buffer`; the event type and an output
/// event's size field are in byte order `order`, the machine's own.
pub fn read_event(order: ByteOrder, buffer: &[u8], read: usize) -> (r: Result<UhidEvent, UhidError>)
    ensures
        event_result(r) == read_event_spec(order, buffer@, read),
{
    if read < 4 {
        return Ok(UhidEvent::Short);
    }
    let head = take(buffer, 0, 4)?;
    assert(head@ =~= buffer@.take(4));
    let kind = value32(order, head.as_slice());
    if kind == UHID_START {
        Ok(UhidEvent::Start)
    } else if kind == UHID_OPEN {
        Ok(UhidEvent::Open)
    } else if kind == UHID_CLOSE {
        Ok(UhidEvent::Close)
    } else if kind == UHID_STOP {
        Ok(UhidEvent::Stop)
    } else if kind == UHID_OUTPUT {
        let field = take(buffer, 4 + UHID_DATA_MAX, 2)?;
        assert(field@ =~= buffer@.subrange(4 + UHID_DATA_MAX, 4 + UHID_DATA_MAX + 2));
        let size = value16(order, field.as_slice());
        match output_report(size, buffer) {
            Ok((report, channel)) => Ok(UhidEvent::Output { report, channel }),
            Err(e) => Err(e),
        }
    } else {
        Ok(UhidEvent::Other)
    }
}

/// A request that a person has to approve on the phone. It is answered off the event loop,
/// while the browser is kept waiting with KEEPALIVE frames.
pub enum CtapRequest {
    MakeCredential(Vec<u8>),
    GetAssertion(Vec<u8>),
}

/// How a request handed to the phone stands when the authenticator looks again: the answer
/// arrived, a keepalive interval passed without one, or the request ended unanswered.
pub enum PhoneWait {
    Answered(Vec<u8>),
    StillWaiting,
    Ended,
}

/// What the authenticator does next about a request that waits on the phone.
pub enum WaitStep {
    /// Send these reports and keep waiting.
    KeepAlive(Vec<Vec<u8>>),
    /// Send these reports, which carry the answer; the wait is over.
    Answer(Vec<Vec<u8>>),
    /// The request ended without an answer.
    Abandoned,
}

/// One step of the wait on the phone for the request on `channel`: while no answer has
/// come the browser is reassured with a KEEPALIVE saying that the user is needed, so it
/// does not give up before a person can reach their phone; an answer is framed as the
/// CBOR response on the same channel.
pub fn phone_wait_step(channel: u32, event: PhoneWait) -> (r: Result<WaitStep, UhidError>)
    ensures
        event is StillWaiting ==> (r matches Ok(WaitStep::KeepAlive(packets)) && packets.deep_view() == frame_packets(
            channel,
            CTAPHID_KEEPALIVE,
            seq![KEEPALIVE_UP_NEEDED],
        )),
        event matches PhoneWait::Answered(body) ==> (body@.len() <= 65535 ==> (r matches Ok(WaitStep::Answer(packets))
            && packets.deep_view() == frame_packets(channel, CTAPHID_CBOR, body@))),
        event matches PhoneWait::Answered(body) ==> (body@.len() > 65535 ==> r matches Err(UhidError::ResponseTooLong)),
        event is Ended ==> r matches Ok(WaitStep::Abandoned),
{
    match event {
        PhoneWait::Answered(body) => match frame(channel, CTAPHID_CBOR, &body) {
            Ok(packets) => Ok(WaitStep::Answer(packets)),
            Err(e) => Err(e),
        },
        PhoneWait::StillWaiting => {
            let status = [KEEPALIVE_UP_NEEDED];
            assert(status@ =~= seq![KEEPALIVE_UP_NEEDED]);
            match frame(channel, CTAPHID_KEEPALIVE, &status) {
                Ok(packets) => Ok(WaitStep::KeepAlive(packets)),
                Err(e) => Err(e),
            }
        },
        PhoneWait::Ended => Ok(WaitStep::Abandoned),
    }
}

/// A response that is ready now, or one a person still has to approve.
pub enum Outcome {
    Ready(Vec<Vec<u8>>),
    Waiting(CtapRequest),
}

/// What an [`Outcome`] holds, as byte sequences.
pub enum OutcomeView {
    Ready(Seq<Seq<u8>>),
    MakeCredential(Seq<u8>),
    GetAssertion(Seq<u8>),
}

impl DeepView for Outcome {
    type V = OutcomeView;

    open spec fn deep_view(&self) -> OutcomeView {
        match self {
            Outcome::Ready(packets) => OutcomeView::Ready(packets.deep_view()),
            Outcome::Waiting(CtapRequest::MakeCredential(body)) => OutcomeView::MakeCredential(body@),
            Outcome::Waiting(CtapRequest::GetAssertion(body)) => OutcomeView::GetAssertion(body@),
        }
    }
}

/// A message whose initialisation packet has arrived but whose continuations have not.
pub struct Assembly {
    pub channel: u32,
    pub command: u8,
    pub expected: usize,
    pub payload: Vec<u8>,
}

/// What an [`Assembly`] holds, with the payload as a byte sequence.
pub struct AssemblyView {
    pub channel: u32,
    pub command: u8,
    pub expected: usize,
    pub payload: Seq<u8>,
}

impl DeepView for Assembly {
    type V = AssemblyView;

    open spec fn deep_view(&self) -> AssemblyView {
        AssemblyView {
            channel: self.channel,
            command: self.command,
            expected: self.expected,
            payload: self.payload@,
        }
    }
}

pub open spec fn outcome_result(r: Result<Outcome, UhidError>) -> Result<OutcomeView, UhidError> {
    match r {
        Ok(o) => Ok(o.deep_view()),
        Err(e) => Err(e),
    }
}

pub open spec fn report_result(r: Result<Option<Outcome>, UhidError>) -> Result<Option<OutcomeView>, UhidError> {
    match r {
        Ok(Some(o)) => Ok(Some(o.deep_view())),
        Ok(None) => Ok(None),
        Err(e) => Err(e),
    }
}

pub open spec fn lift(r: Result<OutcomeView, UhidError>) -> Result<Option<OutcomeView>, UhidError> {
    match r {
        Ok(o) => Ok(Some(o)),
        Err(e) => Err(e),
    }
}

/// The channel id after `next` (wrapping).
pub open spec fn following_channel(next: u32) -> u32 {
    if next == u32::MAX {
        0
    } else {
        (next + 1) as u32
    }
}

/// What a complete message on `channel` with `command` and `payload` is answered with,
/// and the next channel counter: `INIT` echoes the nonce and assigns a channel (a fresh one
/// when asked on the broadcast channel), `PING` echoes, `CBOR` answers `GetInfo` at once and
/// hands credential creation and assertions to the phone, anything else is an error reply.
pub open spec fn dispatch_spec(channel: u32, command: u8, payload: Seq<u8>, next: u32) -> (Result<OutcomeView, UhidError>, u32) {
    if command == CTAPHID_INIT {
        if payload.len() < 8 {
            (Err(UhidError::SliceOutOfRange), next)
        } else {
            let assigned = if channel == CTAP_BROADCAST_CID { following_channel(next) } else { channel };
            let counter = if channel == CTAP_BROADCAST_CID { following_channel(next) } else { next };
            let body = payload.take(8) + be32(assigned) + seq![2u8, 1, 0, 0, 4];
            (Ok(OutcomeView::Ready(frame_packets(channel, CTAPHID_INIT, body))), counter)
        }
    } else if command == CTAPHID_PING {
        if payload.len() > 65535 {
            (Err(UhidError::ResponseTooLong), next)
        } else {
            (Ok(OutcomeView::Ready(frame_packets(channel, CTAPHID_PING, payload))), next)
        }
    } else if command == CTAPHID_CBOR {
        let ctap_command = if payload.len() > 0 { payload[0] } else { 0u8 };
        let body = if payload.len() > 0 { payload.skip(1) } else { Seq::empty() };
        if ctap_command == CTAP2_GET_INFO {
            (Ok(OutcomeView::Ready(frame_packets(channel, CTAPHID_CBOR, get_info_bytes()))), next)
        } else if ctap_command == CTAP2_MAKE_CREDENTIAL {
            (Ok(OutcomeView::MakeCredential(body)), next)
        } else if ctap_command == CTAP2_GET_ASSERTION {
            (Ok(OutcomeView::GetAssertion(body)), next)
        } else {
            (Ok(OutcomeView::Ready(frame_packets(channel, CTAPHID_CBOR, seq![CTAP1_ERR_INVALID_COMMAND]))), next)
        }
    } else {
        (Ok(OutcomeView::Ready(frame_packets(channel, CTAPHID_ERROR, seq![CTAP1_ERR_INVALID_COMMAND]))), next)
    }
}

fn framed(channel: u32, command: u8, payload: &[u8]) -> (r: Result<Outcome, UhidError>)
    ensures
        payload@.len() > 65535 ==> r == Err::<Outcome, UhidError>(UhidError::ResponseTooLong),
        payload@.len() <= 65535 ==> outcome_result(r) == Ok::<OutcomeView, UhidError>(
            OutcomeView::Ready(frame_packets(channel, command, payload@)),
        ),
{
    let packets = frame(channel, command, payload)?;
    Ok(Outcome::Ready(packets))
}

/// Answers a complete CTAPHID message.
pub fn dispatch(channel: u32, command: u8, payload: &[u8], next_channel: &mut u32) -> (r: Result<Outcome, UhidError>)
    ensures
        (outcome_result(r), *final(next_channel)) == dispatch_spec(channel, command, payload@, *old(next_channel)),
{
    if command == CTAPHID_INIT {
        let nonce = take(payload, 0, 8)?;
        let assigned = if channel == CTAP_BROADCAST_CID {
            *next_channel = if *next_channel == u32::MAX { 0 } else { *next_channel + 1 };
            *next_channel
        } else {
            channel
        };
        let mut body: Vec<u8> = Vec::new();
        extend_bytes(&mut body, nonce.as_slice());
        let assigned_bytes = be32_bytes(assigned);
        extend_bytes(&mut body, &assigned_bytes);
        let tail: [u8; 5] = [2, 1, 0, 0, 0x04];
        extend_bytes(&mut body, &tail);
        assert(payload@.subrange(0, 8) =~= payload@.take(8));
        assert(body@ =~= payload@.take(8) + be32(assigned) + seq![2u8, 1, 0, 0, 4]);
        framed(channel, CTAPHID_INIT, body.as_slice())
    } else if command == CTAPHID_PING {
        framed(channel, CTAPHID_PING, payload)
    } else if command == CTAPHID_CBOR {
        let ctap_command = if payload.len() > 0 { payload[0] } else { 0 };
        let body: Vec<u8> = if payload.len() > 0 {
            let mut b: Vec<u8> = Vec::new();
            extend_bytes(&mut b, slice_subrange(payload, 1, payload.len()));
            assert(b@ =~= payload@.skip(1));
            b
        } else {
            Vec::new()
        };
        if ctap_command == CTAP2_GET_INFO {
            let info = get_info_response();
            framed(channel, CTAPHID_CBOR, info.as_slice())
        } else if ctap_command == CTAP2_MAKE_CREDENTIAL {
            Ok(Outcome::Waiting(CtapRequest::MakeCredential(body)))
        } else if ctap_command == CTAP2_GET_ASSERTION {
            Ok(Outcome::Waiting(CtapRequest::GetAssertion(body)))
        } else {
            let reply: [u8; 1] = [CTAP1_ERR_INVALID_COMMAND];
            assert(reply@ =~= seq![CTAP1_ERR_INVALID_COMMAND]);
            framed(channel, CTAPHID_CBOR, &reply)
        }
    } else {
        let reply: [u8; 1] = [CTAP1_ERR_INVALID_COMMAND];
        assert(reply@ =~= seq![CTAP1_ERR_INVALID_COMMAND]);
        framed(channel, CTAPHID_ERROR, &reply)
    }
}

pub open spec fn min_nat(a: nat, b: nat) -> nat {
    if a < b {
        a
    } else {
        b
    }
}

/// What one 64-byte report does: the reply (if a message completed), the message being
/// assembled afterwards, and the channel counter afterwards. An initialisation packet
/// (high bit of byte 4 set) starts a message, replacing nothing unless it is incomplete;
/// a continuation on the channel being assembled appends to it; anything else is ignored.
pub open spec fn handle_report_spec(report: Seq<u8>, assembly: Option<AssemblyView>, next: u32) -> (
    Result<Option<OutcomeView>, UhidError>,
    Option<AssemblyView>,
    u32,
) {
    if report.len() < 4 {
        (Err(UhidError::SliceOutOfRange), assembly, next)
    } else if report.len() < 5 {
        (Err(UhidError::ShortReport), assembly, next)
    } else {
        let channel = be32_value(report);
        let marker = report[4];
        if marker >= 128 {
            if report.len() < 7 {
                (Err(UhidError::ShortReport), assembly, next)
            } else {
                let expected = report[5] as nat * 256 + report[6] as nat;
                let available = min_nat(expected, INIT_DATA_SIZE as nat);
                if 7 + available > report.len() {
                    (Err(UhidError::SliceOutOfRange), assembly, next)
                } else {
                    let payload = report.subrange(7, 7 + available as int);
                    if available < expected {
                        (
                            Ok(None),
                            Some(AssemblyView { channel, command: (marker - 128) as u8, expected: expected as usize, payload }),
                            next,
                        )
                    } else {
                        let (reply, counter) = dispatch_spec(channel, (marker - 128) as u8, payload, next);
                        (lift(reply), assembly, counter)
                    }
                }
            }
        } else {
            match assembly {
                None => (Ok(None), assembly, next),
                Some(state) => {
                    if state.channel != channel {
                        (Ok(None), assembly, next)
                    } else {
                        let remaining: nat = if state.expected >= state.payload.len() {
                            (state.expected - state.payload.len()) as nat
                        } else {
                            0
                        };
                        let available = min_nat(remaining, CONT_DATA_SIZE as nat);
                        if 5 + available > report.len() {
                            (Err(UhidError::SliceOutOfRange), assembly, next)
                        } else {
                            let payload = state.payload + report.subrange(5, 5 + available as int);
                            if payload.len() < state.expected {
                                (Ok(None), Some(AssemblyView { payload, ..state }), next)
                            } else {
                                let (reply, counter) = dispatch_spec(state.channel, state.command, payload, next);
                                (lift(reply), None, counter)
                            }
                        }
                    }
                },
            }
        }
    }
}

pub open spec fn assembly_view(a: Option<Assembly>) -> Option<AssemblyView> {
    match a {
        Some(state) => Some(state.deep_view()),
        None => None,
    }
}

/// Feeds one report from the host into the message being assembled, answering when a
/// message is complete.
pub fn handle_report(report: &[u8], assembly: &mut Option<Assembly>, next_channel: &mut u32) -> (r: Result<Option<Outcome>, UhidError>)
    ensures
        (report_result(r), assembly_view(*final(assembly)), *final(next_channel)) == handle_report_spec(
            report@,
            assembly_view(*old(assembly)),
            *old(next_channel),
        ),
{
    let head = take(report, 0, 4)?;
    let channel = be32_from(head.as_slice());
    assert(be32_value(head@) == be32_value(report@));
    if report.len() < 5 {
        return Err(UhidError::ShortReport);
    }
    let marker = report[4];
    assert(marker & 0x80 != 0 <==> marker >= 128) by (bit_vector);
    assert(marker >= 128 ==> marker & 0x7f == marker - 128) by (bit_vector);

    if marker & 0x80 != 0 {
        let command = marker & 0x7f;
        if report.len() < 7 {
            return Err(UhidError::ShortReport);
        }
        let high = report[5] as usize;
        let low = report[6] as usize;
        let expected = high * 256 + low;
        let available = if expected < INIT_DATA_SIZE { expected } else { INIT_DATA_SIZE };
        let payload = take(report, 7, available)?;

        if payload.len() < expected {
            *assembly = Some(Assembly { channel, command, expected, payload });
            return Ok(None);
        }
        let outcome = dispatch(channel, command, payload.as_slice(), next_channel)?;
        return Ok(Some(outcome));
    }

    let ready = match assembly {
        None => {
            return Ok(None);
        },
        Some(state) => {
            if state.channel != channel {
                return Ok(None);
            }
            let remaining = if state.expected >= state.payload.len() {
                state.expected - state.payload.len()
            } else {
                0
            };
            let available = if remaining < CONT_DATA_SIZE { remaining } else { CONT_DATA_SIZE };
            let more = take(report, 5, available)?;
            extend_bytes(&mut state.payload, more.as_slice());
            state.payload.len() >= state.expected
        },
    };
    if !ready {
        return Ok(None);
    }
    match assembly.take() {
        Some(done) => {
            let outcome = dispatch(done.channel, done.command, done.payload.as_slice(), next_channel)?;
            Ok(Some(outcome))
        },
        None => Ok(None),
    }
}

/// What the authenticator does about one uhid event.
pub enum UhidAction {
    /// Nothing: a short read, an ignored event, or a report that leaves a message incomplete.
    Continue,
    /// The host started the device.
    Started,
    /// The host opened the device.
    Opened,
    /// The host closed the device.
    Closed,
    /// The host stopped the device: the authenticator's work is over.
    Stop,
    /// A message on this channel is complete: send the reply, or ask the phone.
    Handle(Outcome, u32),
}

/// What a step did with a report, as [`handle_report`] reports it: the outcome of a
/// complete message, nothing, or the error.
pub open spec fn handled(r: Result<UhidAction, UhidError>) -> Result<Option<OutcomeView>, UhidError> {
    match r {
        Ok(UhidAction::Handle(outcome, _)) => Ok(Some(outcome.deep_view())),
        Ok(_) => Ok(None),
        Err(e) => Err(e),
    }
}

/// One step of the authenticator's event loop: start, open and close are noted, stop ends
/// the loop, short reads and other events are ignored, and a report from the host is fed
/// into the message being assembled.
pub fn uhid_step(event: UhidEvent, assembly: &mut Option<Assembly>, next_channel: &mut u32) -> (r: Result<UhidAction, UhidError>)
    ensures
        event is Short || event is Other ==> r matches Ok(UhidAction::Continue),
        event is Start ==> r matches Ok(UhidAction::Started),
        event is Open ==> r matches Ok(UhidAction::Opened),
        event is Close ==> r matches Ok(UhidAction::Closed),
        event is Stop ==> r matches Ok(UhidAction::Stop),
        !(event is Output) ==> *final(assembly) == *old(assembly) && *final(next_channel) == *old(next_channel),
        event matches UhidEvent::Output { report, channel } ==> {
            &&& (handled(r), assembly_view(*final(assembly)), *final(next_channel)) == handle_report_spec(
                report@,
                assembly_view(*old(assembly)),
                *old(next_channel),
            )
            &&& (r matches Ok(action) ==> (action is Continue || (action matches UhidAction::Handle(_, c) && c == channel)))
        },
{
    match event {
        UhidEvent::Short | UhidEvent::Other => Ok(UhidAction::Continue),
        UhidEvent::Start => Ok(UhidAction::Started),
        UhidEvent::Open => Ok(UhidAction::Opened),
        UhidEvent::Close => Ok(UhidAction::Closed),
        UhidEvent::Stop => Ok(UhidAction::Stop),
        UhidEvent::Output { report, channel } => match handle_report(report.as_slice(), assembly, next_channel) {
            Ok(Some(outcome)) => Ok(UhidAction::Handle(outcome, channel)),
            Ok(None) => Ok(UhidAction::Continue),
            Err(e) => Err(e),
        },
    }
}

/// A message in progress is always incomplete and no longer than a CTAPHID length field
/// can announce.
pub open spec fn partial(assembly: Option<AssemblyView>) -> bool {
    assembly matches Some(state) ==> state.payload.len() < state.expected && state.expected <= 65535
}

/// Every report keeps the message in progress partial: a message is dispatched the moment
/// its last byte arrives, and never lingers complete.
pub proof fn lemma_assembly_stays_partial(report: Seq<u8>, assembly: Option<AssemblyView>, next: u32)
    requires
        partial(assembly),
    ensures
        partial(handle_report_spec(report, assembly, next).1),
{
}

/// The state after feeding `reports` to the authenticator one by one: the last report's
/// reply, the message being assembled, and the channel counter.
pub open spec fn feed(reports: Seq<Seq<u8>>, assembly: Option<AssemblyView>, next: u32) -> (
    Result<Option<OutcomeView>, UhidError>,
    Option<AssemblyView>,
    u32,
)
    decreases reports.len(),
{
    if reports.len() == 0 {
        (Ok(None), assembly, next)
    } else {
        let (reply, assembled, counter) = handle_report_spec(reports[0], assembly, next);
        if reports.len() == 1 {
            (reply, assembled, counter)
        } else if reply == Ok::<Option<OutcomeView>, UhidError>(None) {
            feed(reports.skip(1), assembled, counter)
        } else {
            (Err(UhidError::ShortReport), assembled, counter)
        }
    }
}

/// The largest message whose continuation sequence numbers stay below 128, the range a
/// continuation packet can carry.
pub open spec fn max_sequenced_payload() -> nat {
    (INIT_DATA_SIZE + 128 * CONT_DATA_SIZE) as nat
}

proof fn lemma_be32_roundtrip(x: u32)
    ensures
        be32_value(be32(x)) == x,
{
    assert(x as int == (x / 0x100_0000) * 0x100_0000 + (x / 0x1_0000 % 256) * 0x1_0000 + (x / 256 % 256)
        * 256 + x % 256) by (nonlinear_arith);
}

proof fn lemma_marker(command: u8)
    requires
        command < 128,
    ensures
        (command | 0x80u8) >= 128,
        ((command | 0x80u8) - 128) as u8 == command,
{
    let m = command | 0x80u8;
    assert(m >= 128 && m - 128 == command) by (bit_vector)
        requires
            m == command | 0x80u8,
            command < 128,
    ;
}

proof fn lemma_report_header(report: Seq<u8>, head: Seq<u8>, channel: u32)
    requires
        head.len() >= 4,
        head.subrange(0, 4) == be32(channel),
        report.len() >= head.len(),
        report.subrange(0, head.len() as int) == head,
    ensures
        be32_value(report) == channel,
{
    lemma_be32_roundtrip(channel);
    assert(report[0] == head[0] && report[1] == head[1] && report[2] == head[2] && report[3] == head[3]) by {
        assert(report.subrange(0, head.len() as int)[0] == report[0]);
        assert(report.subrange(0, head.len() as int)[1] == report[1]);
        assert(report.subrange(0, head.len() as int)[2] == report[2]);
        assert(report.subrange(0, head.len() as int)[3] == report[3]);
    }
    assert(head[0] == be32(channel)[0] && head[1] == be32(channel)[1] && head[2] == be32(channel)[2]
        && head[3] == be32(channel)[3]) by {
        assert(head.subrange(0, 4)[0] == head[0]);
        assert(head.subrange(0, 4)[1] == head[1]);
        assert(head.subrange(0, 4)[2] == head[2]);
        assert(head.subrange(0, 4)[3] == head[3]);
    }
}

proof fn lemma_continuations(channel: u32, command: u8, payload: Seq<u8>, offset: nat, sequence: nat, next: u32)
    requires
        INIT_DATA_SIZE <= offset < payload.len() <= 65535,
        offset == INIT_DATA_SIZE + sequence * CONT_DATA_SIZE,
        payload.len() <= max_sequenced_payload(),
    ensures
        feed(
            cont_packets(channel, payload, offset, sequence),
            Some(AssemblyView { channel, command, expected: payload.len() as usize, payload: payload.take(offset as int) }),
            next,
        ) == ({
            let (reply, counter) = dispatch_spec(channel, command, payload, next);
            (lift(reply), None::<AssemblyView>, counter)
        }),
    decreases payload.len() - offset,
{
    let end: nat = if offset + CONT_DATA_SIZE < payload.len() { (offset + CONT_DATA_SIZE) as nat } else { payload.len() };
    let chunk = payload.subrange(offset as int, end as int);
    let head = be32(channel) + seq![(sequence % 256) as u8] + chunk;
    let report = cont_packet(channel, sequence, chunk);
    let packets = cont_packets(channel, payload, offset, sequence);
    assert(packets[0] == report);
    assert(report.subrange(0, head.len() as int) =~= head);
    assert(head.subrange(0, 4) =~= be32(channel));
    lemma_report_header(report, head, channel);
    assert(sequence < 128);
    assert(report[4] == head[4]);
    assert(report[4] == (sequence % 256) as u8);
    let state = AssemblyView { channel, command, expected: payload.len() as usize, payload: payload.take(offset as int) };
    let available = min_nat((payload.len() - offset) as nat, CONT_DATA_SIZE as nat);
    assert(available == end - offset);
    assert(report.subrange(5, 5 + available as int) =~= chunk);
    assert(payload.take(offset as int) + chunk =~= payload.take(end as int));
    if end == payload.len() {
        assert(payload.take(end as int) =~= payload);
        assert(cont_packets(channel, payload, end, sequence + 1) =~= Seq::<Seq<u8>>::empty());
        assert(packets.len() == 1);
    } else {
        let rest = cont_packets(channel, payload, end, sequence + 1);
        assert(packets.skip(1) =~= rest);
        lemma_continuations(channel, command, payload, end, sequence + 1, next);
    }
}

/// Framing and reassembly agree: the packets `frame` produces for a message, fed in order
/// to an authenticator with no message in progress, are answered exactly as the message
/// itself would be, on the last packet, leaving nothing in progress. The command is a
/// 7-bit CTAPHID command and the message short enough that its continuation sequence
/// numbers stay below 128.
pub proof fn lemma_frame_then_reassemble(channel: u32, command: u8, payload: Seq<u8>, next: u32)
    requires
        command < 128,
        payload.len() <= max_sequenced_payload(),
    ensures
        feed(frame_packets(channel, command, payload), None, next) == ({
            let (reply, counter) = dispatch_spec(channel, command, payload, next);
            (lift(reply), None::<AssemblyView>, counter)
        }),
{
    let first: nat = if payload.len() < INIT_DATA_SIZE { payload.len() } else { INIT_DATA_SIZE as nat };
    let marker = command | 0x80u8;
    let head = be32(channel) + seq![marker] + be16(payload.len() as u16) + payload.take(first as int);
    let report = init_packet(channel, command, payload);
    let packets = frame_packets(channel, command, payload);
    assert(packets[0] == report);
    assert(report.subrange(0, head.len() as int) =~= head);
    assert(head.subrange(0, 4) =~= be32(channel));
    lemma_report_header(report, head, channel);
    lemma_marker(command);
    assert(report[4] == marker);
    assert(report[5] == (payload.len() as u16 / 256) as u8);
    assert(report[6] == (payload.len() as u16 % 256) as u8);
    assert(report[5] as nat * 256 + report[6] as nat == payload.len());
    assert(report.subrange(7, 7 + first as int) =~= payload.take(first as int));
    if first == payload.len() {
        assert(payload.take(first as int) =~= payload);
        assert(cont_packets(channel, payload, first, 0) =~= Seq::<Seq<u8>>::empty());
        assert(packets.len() == 1);
    } else {
        assert(packets.skip(1) =~= cont_packets(channel, payload, first, 0));
        lemma_continuations(channel, command, payload, first, 0, next);
    }
}

} // verus!

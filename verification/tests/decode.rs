use aetherlink::decode::{
    decode_accept_onto, decode_envelope, decode_identity_onto, decode_ping_onto,
    decode_pong_onto, decode_reject_onto, decode_request_onto, decode_version_onto, take_field,
    take_varint, FieldAt, FieldValue,
};
use aetherlink::wire::{
    encode_device_identity, encode_envelope, encode_ping, encode_pong, encode_protocol_version,
    encode_session_accept, encode_session_reject, encode_session_request, ControlEnvelope,
    ControlMessage, DeviceIdentity, Ping, Pong, ProtocolVersion, RejectReason, SessionAccept,
    SessionReject, SessionRequest, SessionRole, VideoCodec,
};
use prost::encoding;

fn blank_identity() -> DeviceIdentity {
    DeviceIdentity { peer_id: vec![], identity_pubkey: vec![], device_code: String::new() }
}

fn blank_version() -> ProtocolVersion {
    ProtocolVersion { major: 0, minor: 0, patch: 0 }
}

fn blank_request() -> SessionRequest {
    SessionRequest {
        session_id: String::new(),
        from: None,
        requested_role: 0,
        target_device_code: String::new(),
        supported_video_codecs: vec![],
        allow_relay: false,
        preferred_max_fps: 0,
        preferred_max_width: 0,
        preferred_max_height: 0,
        nonce: vec![],
        unix_ms: 0,
        signature: vec![],
        version: None,
    }
}

fn blank_accept() -> SessionAccept {
    SessionAccept {
        session_id: String::new(),
        selected_codec: 0,
        selected_fps: 0,
        selected_width: 0,
        selected_height: 0,
        using_relay: false,
        path_id: String::new(),
        from: None,
        nonce: vec![],
        unix_ms: 0,
        signature: vec![],
        request_nonce: vec![],
    }
}

fn blank_reject() -> SessionReject {
    SessionReject { session_id: String::new(), reason: 0, detail: String::new() }
}

fn blank_ping() -> Ping {
    Ping { session_id: String::new(), seq: 0, send_unix_ms: 0 }
}

fn blank_pong() -> Pong {
    Pong { session_id: String::new(), seq: 0, echo_send_unix_ms: 0, recv_unix_ms: 0 }
}

fn sample_identity() -> DeviceIdentity {
    DeviceIdentity {
        peer_id: vec![0, 36, 8, 1, 18, 32],
        identity_pubkey: vec![8, 1, 18, 32, 255, 0, 128],
        device_code: "dévice-Ω".to_string(),
    }
}

fn sample_request() -> SessionRequest {
    SessionRequest {
        session_id: "session-1".to_string(),
        from: Some(sample_identity()),
        requested_role: SessionRole::Controller.code(),
        target_device_code: "target".to_string(),
        supported_video_codecs: vec![VideoCodec::H264.code(), -1, 300, i32::MIN, i32::MAX],
        allow_relay: true,
        preferred_max_fps: 30,
        preferred_max_width: u32::MAX,
        preferred_max_height: 720,
        nonce: vec![9; 16],
        unix_ms: -1_700_000_000_000,
        signature: vec![1, 2, 3],
        version: Some(ProtocolVersion { major: 1, minor: 0, patch: 7 }),
    }
}

fn sample_accept() -> SessionAccept {
    SessionAccept {
        session_id: "session-1".to_string(),
        selected_codec: VideoCodec::H264.code(),
        selected_fps: 60,
        selected_width: 1920,
        selected_height: 1080,
        using_relay: true,
        path_id: "direct".to_string(),
        from: Some(sample_identity()),
        nonce: vec![7; 12],
        unix_ms: i64::MAX,
        signature: vec![0; 64],
        request_nonce: vec![9; 16],
    }
}

fn sample_reject() -> SessionReject {
    SessionReject {
        session_id: "session-1".to_string(),
        reason: RejectReason::PolicyDenied.code(),
        detail: "not today".to_string(),
    }
}

fn sample_ping() -> Ping {
    Ping { session_id: "session-1".to_string(), seq: u64::MAX, send_unix_ms: 1_700_000_000_123 }
}

fn sample_pong() -> Pong {
    Pong {
        session_id: "session-1".to_string(),
        seq: 3,
        echo_send_unix_ms: 1_700_000_000_123,
        recv_unix_ms: 1_700_000_000_456,
    }
}

fn envelope_of(message: Option<ControlMessage>) -> ControlEnvelope {
    ControlEnvelope { seq: 41, request_id: "req-41".to_string(), message }
}

#[test]
fn varints_are_read_with_their_length() {
    assert_eq!(take_varint(&[0], 0), Some((0, 1)));
    assert_eq!(take_varint(&[1], 0), Some((1, 1)));
    assert_eq!(take_varint(&[0x7f], 0), Some((127, 1)));
    assert_eq!(take_varint(&[0x80, 0x01], 0), Some((128, 2)));
    assert_eq!(take_varint(&[0xac, 0x02], 0), Some((300, 2)));
    assert_eq!(take_varint(&[0xff, 0xac, 0x02, 0xff], 1), Some((300, 3)));
    let largest = [0xff, 0xff, 0xff, 0xff, 0xff, 0xff, 0xff, 0xff, 0xff, 0x01];
    assert_eq!(take_varint(&largest, 0), Some((u64::MAX, 10)));
}

#[test]
fn varints_that_end_early_or_run_long_are_refused() {
    assert_eq!(take_varint(&[], 0), None);
    assert_eq!(take_varint(&[0x80], 0), None);
    assert_eq!(take_varint(&[0xff, 0xff], 0), None);
    assert_eq!(take_varint(&[1], 1), None);
    let eleven = [0x80, 0x80, 0x80, 0x80, 0x80, 0x80, 0x80, 0x80, 0x80, 0x80, 0x01];
    assert_eq!(take_varint(&eleven, 0), None);
}

#[test]
fn varints_agree_with_prost() {
    for value in [0u64, 1, 127, 128, 16_383, 16_384, 1 << 32, u64::MAX - 1, u64::MAX] {
        let mut bytes = Vec::new();
        encoding::encode_varint(value, &mut bytes);
        assert_eq!(take_varint(&bytes, 0), Some((value, bytes.len())));
    }
}

#[test]
fn fields_are_found_by_kind() {
    assert_eq!(
        take_field(&[0x08, 0x96, 0x01], 0),
        Some(FieldAt { number: 1, value: FieldValue::Varint(150), next: 3 })
    );
    assert_eq!(
        take_field(&[0x12, 0x03, b'a', b'b', b'c', 0x08], 0),
        Some(FieldAt { number: 2, value: FieldValue::Bytes { start: 2, end: 5 }, next: 5 })
    );
    assert_eq!(
        take_field(&[0x19, 1, 2, 3, 4, 5, 6, 7, 8], 0),
        Some(FieldAt { number: 3, value: FieldValue::Fixed64, next: 9 })
    );
    assert_eq!(
        take_field(&[0x25, 1, 2, 3, 4], 0),
        Some(FieldAt { number: 4, value: FieldValue::Fixed32, next: 5 })
    );
    assert_eq!(
        take_field(&[0xff, 0x12, 0x00], 1),
        Some(FieldAt { number: 2, value: FieldValue::Bytes { start: 3, end: 3 }, next: 3 })
    );
}

#[test]
fn broken_fields_are_refused() {
    // field number zero
    assert_eq!(take_field(&[0x00, 0x01], 0), None);
    // a length that runs past the end
    assert_eq!(take_field(&[0x12, 0x04, b'a', b'b', b'c'], 0), None);
    // a key with no value
    assert_eq!(take_field(&[0x08], 0), None);
    // fixed-width values cut short
    assert_eq!(take_field(&[0x19, 1, 2, 3, 4, 5, 6, 7], 0), None);
    assert_eq!(take_field(&[0x25, 1, 2, 3], 0), None);
    // group markers and the two unused wire types
    assert_eq!(take_field(&[0x0b, 0x00], 0), None);
    assert_eq!(take_field(&[0x0c, 0x00], 0), None);
    assert_eq!(take_field(&[0x0e, 0x00], 0), None);
    assert_eq!(take_field(&[0x0f, 0x00], 0), None);
    // nothing to read
    assert_eq!(take_field(&[], 0), None);
}

#[test]
fn identity_is_read_back() {
    let identity = sample_identity();
    let bytes = encode_device_identity(&identity);
    assert_eq!(decode_identity_onto(blank_identity(), &bytes), Some(identity));
    assert_eq!(decode_identity_onto(blank_identity(), &[]), Some(blank_identity()));
    assert_eq!(decode_identity_onto(sample_identity(), &[]), Some(sample_identity()));
}

#[test]
fn version_is_read_back() {
    for version in [
        blank_version(),
        ProtocolVersion { major: 1, minor: 2, patch: 3 },
        ProtocolVersion { major: u32::MAX, minor: 0, patch: u32::MAX },
    ] {
        let bytes = encode_protocol_version(&version);
        assert_eq!(decode_version_onto(blank_version(), &bytes), Some(version));
    }
}

#[test]
fn request_is_read_back() {
    let request = sample_request();
    let bytes = encode_session_request(&request);
    assert_eq!(decode_request_onto(blank_request(), &bytes), Some(request));
    let bytes = encode_session_request(&blank_request());
    assert!(bytes.is_empty());
    assert_eq!(decode_request_onto(blank_request(), &bytes), Some(blank_request()));

    let mut partial = blank_request();
    partial.from = Some(blank_identity());
    partial.version = Some(blank_version());
    partial.unix_ms = i64::MIN;
    partial.requested_role = -5;
    let bytes = encode_session_request(&partial);
    assert_eq!(decode_request_onto(blank_request(), &bytes), Some(partial));
}

#[test]
fn accept_is_read_back() {
    let accept = sample_accept();
    let bytes = encode_session_accept(&accept);
    assert_eq!(decode_accept_onto(blank_accept(), &bytes), Some(accept));
    assert_eq!(decode_accept_onto(blank_accept(), &[]), Some(blank_accept()));
}

#[test]
fn small_messages_are_read_back() {
    let reject = sample_reject();
    assert_eq!(
        decode_reject_onto(blank_reject(), &encode_session_reject(&reject)),
        Some(reject)
    );
    let ping = sample_ping();
    assert_eq!(decode_ping_onto(blank_ping(), &encode_ping(&ping)), Some(ping));
    let pong = sample_pong();
    assert_eq!(decode_pong_onto(blank_pong(), &encode_pong(&pong)), Some(pong));
}

#[test]
fn envelopes_are_read_back() {
    let envelopes = vec![
        envelope_of(None),
        envelope_of(Some(ControlMessage::SessionRequest(sample_request()))),
        envelope_of(Some(ControlMessage::SessionRequest(blank_request()))),
        envelope_of(Some(ControlMessage::SessionAccept(sample_accept()))),
        envelope_of(Some(ControlMessage::SessionReject(sample_reject()))),
        envelope_of(Some(ControlMessage::Ping(sample_ping()))),
        envelope_of(Some(ControlMessage::Ping(blank_ping()))),
        envelope_of(Some(ControlMessage::Pong(sample_pong()))),
        ControlEnvelope { seq: 0, request_id: String::new(), message: None },
    ];
    for envelope in envelopes {
        let bytes = encode_envelope(&envelope);
        assert_eq!(decode_envelope(&bytes), Some(envelope));
    }
}

#[test]
fn unknown_fields_are_passed_over() {
    let ping = sample_ping();
    let mut bytes = Vec::new();
    encoding::uint64::encode(40, &77, &mut bytes);
    bytes.extend_from_slice(&encode_ping(&ping));
    encoding::string::encode(41, &"later".to_string(), &mut bytes);
    encoding::fixed64::encode(42, &5, &mut bytes);
    encoding::fixed32::encode(43, &6, &mut bytes);
    assert_eq!(decode_ping_onto(blank_ping(), &bytes), Some(ping));
}

#[test]
fn a_field_given_twice_keeps_the_later_value() {
    let mut bytes = Vec::new();
    encoding::uint64::encode(2, &5, &mut bytes);
    encoding::string::encode(1, &"first".to_string(), &mut bytes);
    encoding::uint64::encode(2, &6, &mut bytes);
    encoding::string::encode(1, &"second".to_string(), &mut bytes);
    assert_eq!(
        decode_ping_onto(blank_ping(), &bytes),
        Some(Ping { session_id: "second".to_string(), seq: 6, send_unix_ms: 0 })
    );
}

#[test]
fn an_embedded_message_given_twice_is_merged() {
    let mut first = Vec::new();
    encoding::bytes::encode(1, &vec![1u8, 2], &mut first);
    encoding::string::encode(3, &"old".to_string(), &mut first);
    let mut second = Vec::new();
    encoding::string::encode(3, &"new".to_string(), &mut second);

    let mut bytes = Vec::new();
    encoding::encode_key(2, encoding::WireType::LengthDelimited, &mut bytes);
    encoding::encode_varint(first.len() as u64, &mut bytes);
    bytes.extend_from_slice(&first);
    encoding::encode_key(2, encoding::WireType::LengthDelimited, &mut bytes);
    encoding::encode_varint(second.len() as u64, &mut bytes);
    bytes.extend_from_slice(&second);

    let read = decode_request_onto(blank_request(), &bytes).unwrap();
    assert_eq!(
        read.from,
        Some(DeviceIdentity {
            peer_id: vec![1, 2],
            identity_pubkey: vec![],
            device_code: "new".to_string(),
        })
    );
}

#[test]
fn codecs_are_read_packed_and_one_by_one() {
    let mut bytes = Vec::new();
    encoding::int32::encode_packed(5, &[1, 2], &mut bytes);
    encoding::int32::encode(5, &-3, &mut bytes);
    encoding::int32::encode_packed(5, &[300], &mut bytes);
    let read = decode_request_onto(blank_request(), &bytes).unwrap();
    assert_eq!(read.supported_video_codecs, vec![1, 2, -3, 300]);

    // a packed list whose last number is cut short
    let broken = [0x2a, 0x02, 0x01, 0x80];
    assert_eq!(decode_request_onto(blank_request(), &broken), None);
}

#[test]
fn numbers_wider_than_their_field_keep_the_low_bits() {
    let mut bytes = Vec::new();
    encoding::uint64::encode(7, &((1u64 << 32) + 30), &mut bytes);
    encoding::uint64::encode(6, &2, &mut bytes);
    let read = decode_request_onto(blank_request(), &bytes).unwrap();
    assert_eq!(read.preferred_max_fps, 30);
    assert!(read.allow_relay);
}

#[test]
fn text_that_is_not_utf8_is_refused() {
    let bytes = [0x0a, 0x02, 0xff, 0xfe];
    assert_eq!(decode_ping_onto(blank_ping(), &bytes), None);
    assert_eq!(decode_pong_onto(blank_pong(), &bytes), None);
    assert_eq!(decode_reject_onto(blank_reject(), &bytes), None);
    assert_eq!(decode_request_onto(blank_request(), &bytes), None);
    assert_eq!(decode_accept_onto(blank_accept(), &bytes), None);
    // the same bytes are fine where the field holds bytes
    assert_eq!(
        decode_identity_onto(blank_identity(), &bytes),
        Some(DeviceIdentity {
            peer_id: vec![0xff, 0xfe],
            identity_pubkey: vec![],
            device_code: String::new(),
        })
    );
    let envelope = [0x12, 0x01, 0x80];
    assert_eq!(decode_envelope(&envelope), None);
}

#[test]
fn a_field_of_the_wrong_kind_is_refused() {
    // session id written as a number
    assert_eq!(decode_ping_onto(blank_ping(), &[0x08, 0x01]), None);
    // sequence number written as bytes
    assert_eq!(decode_ping_onto(blank_ping(), &[0x12, 0x01, 0x01]), None);
    // sequence number written as a fixed-width value
    assert_eq!(decode_ping_onto(blank_ping(), &[0x11, 0, 0, 0, 0, 0, 0, 0, 0]), None);
    // an embedded message written as a number
    assert_eq!(decode_request_onto(blank_request(), &[0x10, 0x01]), None);
    assert_eq!(decode_envelope(&[0x18, 0x01]), None);
}

#[test]
fn cut_messages_are_refused() {
    let bytes = encode_envelope(&envelope_of(Some(ControlMessage::SessionRequest(
        sample_request(),
    ))));
    for cut in 1..bytes.len() {
        let read = decode_envelope(&bytes[..cut]);
        assert_ne!(read, decode_envelope(&bytes), "cut at {cut}");
    }
    // the embedded message itself is broken
    let mut broken = Vec::new();
    encoding::encode_key(6, encoding::WireType::LengthDelimited, &mut broken);
    encoding::encode_varint(1, &mut broken);
    broken.push(0x08);
    assert_eq!(decode_envelope(&broken), None);
}

#[test]
fn the_last_message_of_an_envelope_counts() {
    let mut bytes = encode_envelope(&envelope_of(Some(ControlMessage::Ping(sample_ping()))));
    let pong_body = encode_pong(&sample_pong());
    encoding::encode_key(7, encoding::WireType::LengthDelimited, &mut bytes);
    encoding::encode_varint(pong_body.len() as u64, &mut bytes);
    bytes.extend_from_slice(&pong_body);
    assert_eq!(
        decode_envelope(&bytes),
        Some(envelope_of(Some(ControlMessage::Pong(sample_pong()))))
    );
}

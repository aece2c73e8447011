use aetherlink::wire::{
    canonical_session_accept_payload, canonical_session_request_payload,
    encode_device_identity, encode_envelope, encode_ping, encode_pong, encode_protocol_version,
    encode_session_accept, encode_session_reject, encode_session_request, ControlEnvelope,
    ControlMessage, DeviceIdentity, Ping, Pong, ProtocolVersion, RejectReason, SessionAccept,
    SessionReject, SessionRequest, SessionRole, VideoCodec,
};
use prost::encoding;

fn identity() -> DeviceIdentity {
    DeviceIdentity {
        peer_id: vec![0, 36, 8, 1],
        identity_pubkey: vec![8, 1, 18, 32, 7],
        device_code: "dévice".to_string(),
    }
}

fn identity_bytes(identity: &DeviceIdentity) -> Vec<u8> {
    let mut out = Vec::new();
    if !identity.peer_id.is_empty() {
        encoding::bytes::encode(1, &identity.peer_id, &mut out);
    }
    if !identity.identity_pubkey.is_empty() {
        encoding::bytes::encode(2, &identity.identity_pubkey, &mut out);
    }
    if !identity.device_code.is_empty() {
        encoding::string::encode(3, &identity.device_code, &mut out);
    }
    out
}

fn nested(tag: u32, body: &[u8], out: &mut Vec<u8>) {
    encoding::encode_key(tag, encoding::WireType::LengthDelimited, out);
    encoding::encode_varint(body.len() as u64, out);
    out.extend_from_slice(body);
}

fn request() -> SessionRequest {
    SessionRequest {
        session_id: "session-1".to_string(),
        from: Some(identity()),
        requested_role: SessionRole::Controller.code(),
        target_device_code: "target".to_string(),
        supported_video_codecs: vec![VideoCodec::H264.code(), -1, 300],
        allow_relay: true,
        preferred_max_fps: 30,
        preferred_max_width: 1280,
        preferred_max_height: 720,
        nonce: vec![9; 16],
        unix_ms: -1_700_000_000_000,
        signature: vec![1, 2, 3],
        version: Some(ProtocolVersion { major: 1, minor: 0, patch: 7 }),
    }
}

fn request_bytes(request: &SessionRequest, signature: &[u8]) -> Vec<u8> {
    let mut out = Vec::new();
    if !request.session_id.is_empty() {
        encoding::string::encode(1, &request.session_id, &mut out);
    }
    if let Some(from) = &request.from {
        nested(2, &identity_bytes(from), &mut out);
    }
    if request.requested_role != 0 {
        encoding::int32::encode(3, &request.requested_role, &mut out);
    }
    if !request.target_device_code.is_empty() {
        encoding::string::encode(4, &request.target_device_code, &mut out);
    }
    encoding::int32::encode_packed(5, &request.supported_video_codecs, &mut out);
    if request.allow_relay {
        encoding::bool::encode(6, &request.allow_relay, &mut out);
    }
    if request.preferred_max_fps != 0 {
        encoding::uint32::encode(7, &request.preferred_max_fps, &mut out);
    }
    if request.preferred_max_width != 0 {
        encoding::uint32::encode(8, &request.preferred_max_width, &mut out);
    }
    if request.preferred_max_height != 0 {
        encoding::uint32::encode(9, &request.preferred_max_height, &mut out);
    }
    if !request.nonce.is_empty() {
        encoding::bytes::encode(10, &request.nonce, &mut out);
    }
    if request.unix_ms != 0 {
        encoding::int64::encode(11, &request.unix_ms, &mut out);
    }
    if !signature.is_empty() {
        encoding::bytes::encode(12, &signature.to_vec(), &mut out);
    }
    if let Some(version) = &request.version {
        let mut body = Vec::new();
        if version.major != 0 {
            encoding::uint32::encode(1, &version.major, &mut body);
        }
        if version.minor != 0 {
            encoding::uint32::encode(2, &version.minor, &mut body);
        }
        if version.patch != 0 {
            encoding::uint32::encode(3, &version.patch, &mut body);
        }
        nested(13, &body, &mut out);
    }
    out
}

#[test]
fn request_encoding_agrees_with_prost() {
    let full = request();
    assert_eq!(encode_session_request(&full), request_bytes(&full, &full.signature));
    assert_eq!(canonical_session_request_payload(&full), request_bytes(&full, &[]));
    assert_eq!(encode_device_identity(&identity()), identity_bytes(&identity()));

    let empty = SessionRequest {
        session_id: String::new(),
        from: None,
        requested_role: 0,
        target_device_code: String::new(),
        supported_video_codecs: vec![],
        allow_relay: false,
        preferred_max_fps: 0,
        preferred_max_width: 0,
        preferred_max_height: 0,
        nonce: vec![],
        unix_ms: 0,
        signature: vec![],
        version: None,
    };
    assert_eq!(encode_session_request(&empty), Vec::<u8>::new());
    // a message that is present but empty still shows
    let hollow = SessionRequest {
        version: Some(ProtocolVersion { major: 0, minor: 0, patch: 0 }),
        from: Some(DeviceIdentity {
            peer_id: vec![],
            identity_pubkey: vec![],
            device_code: String::new(),
        }),
        ..empty
    };
    assert_eq!(encode_session_request(&hollow), vec![0x12, 0x00, 0x6a, 0x00]);
    assert_eq!(encode_session_request(&hollow), request_bytes(&hollow, &[]));
    assert_eq!(
        encode_protocol_version(&ProtocolVersion { major: 1, minor: 0, patch: 300 }),
        vec![0x08, 0x01, 0x18, 0xac, 0x02]
    );
}

#[test]
fn numbers_at_the_edges() {
    let mut r = request();
    for (role, unix_ms, fps) in [
        (i32::MIN, i64::MIN, u32::MAX),
        (i32::MAX, i64::MAX, 127),
        (-1, -1, 128),
        (127, 127, 16_383),
        (128, 128, 16_384),
    ] {
        r.requested_role = role;
        r.unix_ms = unix_ms;
        r.preferred_max_fps = fps;
        r.supported_video_codecs = vec![role, 0, -role.saturating_add(1)];
        assert_eq!(encode_session_request(&r), request_bytes(&r, &r.signature));
    }
    r.nonce = vec![7; 300];
    r.session_id = "x".repeat(20_000);
    assert_eq!(encode_session_request(&r), request_bytes(&r, &r.signature));
}

fn accept() -> SessionAccept {
    SessionAccept {
        session_id: "session-1".to_string(),
        selected_codec: VideoCodec::H264.code(),
        selected_fps: 30,
        selected_width: 1280,
        selected_height: 720,
        using_relay: true,
        path_id: "direct-quic".to_string(),
        from: Some(identity()),
        nonce: vec![5; 16],
        unix_ms: 1_700_000_000_000,
        signature: vec![4; 64],
        request_nonce: vec![9; 16],
    }
}

fn accept_bytes(accept: &SessionAccept, signature: &[u8]) -> Vec<u8> {
    let mut out = Vec::new();
    encoding::string::encode(1, &accept.session_id, &mut out);
    encoding::int32::encode(2, &accept.selected_codec, &mut out);
    encoding::uint32::encode(3, &accept.selected_fps, &mut out);
    encoding::uint32::encode(4, &accept.selected_width, &mut out);
    encoding::uint32::encode(5, &accept.selected_height, &mut out);
    encoding::bool::encode(6, &accept.using_relay, &mut out);
    encoding::string::encode(7, &accept.path_id, &mut out);
    nested(8, &identity_bytes(accept.from.as_ref().unwrap()), &mut out);
    encoding::bytes::encode(9, &accept.nonce, &mut out);
    encoding::int64::encode(10, &accept.unix_ms, &mut out);
    if !signature.is_empty() {
        encoding::bytes::encode(11, &signature.to_vec(), &mut out);
    }
    encoding::bytes::encode(12, &accept.request_nonce, &mut out);
    out
}

#[test]
fn accept_encoding_agrees_with_prost() {
    let accept = accept();
    assert_eq!(encode_session_accept(&accept), accept_bytes(&accept, &accept.signature));
    assert_eq!(canonical_session_accept_payload(&accept), accept_bytes(&accept, &[]));
    // the nonce of the request is part of what is signed
    let mut moved = accept.clone();
    moved.request_nonce = vec![8; 16];
    assert_ne!(
        canonical_session_accept_payload(&accept),
        canonical_session_accept_payload(&moved)
    );
}

#[test]
fn signing_payload_leaves_the_signature_out_and_nothing_else() {
    let a = request();
    let mut b = a.clone();
    b.signature = vec![0xff; 64];
    assert_eq!(canonical_session_request_payload(&a), canonical_session_request_payload(&b));
    let mut c = a.clone();
    c.nonce[0] ^= 1;
    assert_ne!(canonical_session_request_payload(&a), canonical_session_request_payload(&c));
    let mut d = a.clone();
    d.version = None;
    assert_ne!(canonical_session_request_payload(&a), canonical_session_request_payload(&d));
}

#[test]
fn small_messages_agree_with_prost() {
    let reject = SessionReject {
        session_id: "s".to_string(),
        reason: RejectReason::PolicyDenied.code(),
        detail: "no".to_string(),
    };
    let mut expected = Vec::new();
    encoding::string::encode(1, &reject.session_id, &mut expected);
    encoding::int32::encode(2, &reject.reason, &mut expected);
    encoding::string::encode(3, &reject.detail, &mut expected);
    assert_eq!(encode_session_reject(&reject), expected);

    let ping = Ping { session_id: "s".to_string(), seq: u64::MAX, send_unix_ms: 1 << 40 };
    let mut expected = Vec::new();
    encoding::string::encode(1, &ping.session_id, &mut expected);
    encoding::uint64::encode(2, &ping.seq, &mut expected);
    encoding::uint64::encode(3, &ping.send_unix_ms, &mut expected);
    assert_eq!(encode_ping(&ping), expected);
    let ping_body = expected;

    let pong = Pong { session_id: String::new(), seq: 1, echo_send_unix_ms: 0, recv_unix_ms: 3 };
    assert_eq!(encode_pong(&pong), vec![0x10, 0x01, 0x20, 0x03]);

    let envelope = ControlEnvelope {
        seq: 300,
        request_id: "ping-1-2".to_string(),
        message: Some(ControlMessage::Ping(ping)),
    };
    let mut expected = Vec::new();
    encoding::uint64::encode(1, &envelope.seq, &mut expected);
    encoding::string::encode(2, &envelope.request_id, &mut expected);
    nested(6, &ping_body, &mut expected);
    assert_eq!(encode_envelope(&envelope), expected);

    let bare = ControlEnvelope { seq: 0, request_id: String::new(), message: None };
    assert_eq!(encode_envelope(&bare), Vec::<u8>::new());
    for (message, tag) in [
        (ControlMessage::SessionRequest(request()), 3u32),
        (ControlMessage::SessionAccept(accept()), 4),
        (ControlMessage::SessionReject(reject), 5),
        (ControlMessage::Pong(pong), 7),
    ] {
        let body = match &message {
            ControlMessage::SessionRequest(m) => encode_session_request(m),
            ControlMessage::SessionAccept(m) => encode_session_accept(m),
            ControlMessage::SessionReject(m) => encode_session_reject(m),
            ControlMessage::Ping(m) => encode_ping(m),
            ControlMessage::Pong(m) => encode_pong(m),
        };
        let mut expected = Vec::new();
        nested(tag, &body, &mut expected);
        let envelope = ControlEnvelope { seq: 0, request_id: String::new(), message: Some(message) };
        assert_eq!(encode_envelope(&envelope), expected);
    }
}

#[test]
fn wire_numbers_of_the_enumerations() {
    assert_eq!(SessionRole::Unspecified.code(), 0);
    assert_eq!(SessionRole::Controller.code(), 1);
    assert_eq!(SessionRole::Controlled.code(), 2);
    assert_eq!(VideoCodec::Unspecified.code(), 0);
    assert_eq!(VideoCodec::H264.code(), 1);
    for reason in [
        RejectReason::Unspecified,
        RejectReason::VersionMismatch,
        RejectReason::PolicyDenied,
        RejectReason::AuthFailed,
    ] {
        assert_eq!(RejectReason::from_code(reason.code()), Some(reason));
    }
    assert_eq!(RejectReason::AuthFailed.code(), 3);
    assert_eq!(RejectReason::from_code(4), None);
    assert_eq!(RejectReason::from_code(-1), None);
}

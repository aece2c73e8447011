//! The control messages and their wire form.
//!
//! Messages travel in the protocol-buffers encoding, version 3. A field is a
//! tag, the field number times eight plus the wire type, followed by its
//! value: a base-128 varint (wire type 0), or a length and that many bytes
//! (wire type 2). A number that is zero, a `false`, and an empty string or
//! byte string are left out; an embedded message is left out only where it
//! is absent. Fields are written in the order of their numbers, which is the
//! order of the fields in the structs below, counted from one; the members
//! of `ControlMessage` take the numbers 3 to 7 of the envelope.
//!
//! Signatures are made over this encoding with the signature field empty.

use vstd::prelude::*;
use vstd::string::StringSliceAdditionalSpecFns;
use vstd::utf8::encode_utf8;

verus! {

/// The base-128 varint of `value`: seven bits a byte, the low bits first,
/// the high bit of a byte set where more bytes follow.
pub open spec fn varint(value: nat) -> Seq<u8>
    decreases value,
{
    if value < 128 {
        seq![value as u8]
    } else {
        seq![(value % 128 + 128) as u8] + varint(value / 128)
    }
}

/// The number that stands for a signed value on the wire: the value itself
/// where it is not negative, its two's complement in 64 bits where it is.
pub open spec fn twos_complement(value: int) -> nat {
    if value >= 0 {
        value as nat
    } else {
        (value + 0x1_0000_0000_0000_0000) as nat
    }
}

/// The tag of a field.
pub open spec fn tag(field: nat, wire_type: nat) -> Seq<u8> {
    varint(field * 8 + wire_type)
}

/// A numeric field; nothing where the number is zero.
pub open spec fn uint_field(field: nat, value: nat) -> Seq<u8> {
    if value == 0 {
        Seq::<u8>::empty()
    } else {
        tag(field, 0) + varint(value)
    }
}

/// A signed field.
pub open spec fn int_field(field: nat, value: int) -> Seq<u8> {
    uint_field(field, twos_complement(value))
}

/// A boolean field; nothing where it is `false`.
pub open spec fn bool_field(field: nat, value: bool) -> Seq<u8> {
    uint_field(
        field,
        if value {
            1
        } else {
            0
        },
    )
}

/// A field of bytes; nothing where there are none.
pub open spec fn bytes_field(field: nat, value: Seq<u8>) -> Seq<u8> {
    if value.len() == 0 {
        Seq::<u8>::empty()
    } else {
        tag(field, 2) + varint(value.len()) + value
    }
}

/// A field of text, as its UTF-8 bytes.
pub open spec fn string_field(field: nat, value: Seq<char>) -> Seq<u8> {
    bytes_field(field, encode_utf8(value))
}

/// An embedded message; nothing where it is absent, and a tag with length
/// zero where it is present but empty.
pub open spec fn message_field(field: nat, body: Option<Seq<u8>>) -> Seq<u8> {
    match body {
        None => Seq::<u8>::empty(),
        Some(bytes) => tag(field, 2) + varint(bytes.len()) + bytes,
    }
}

/// The varints of a list of signed values, one after the other.
pub open spec fn packed_ints(values: Seq<i32>) -> Seq<u8>
    decreases values.len(),
{
    if values.len() == 0 {
        Seq::<u8>::empty()
    } else {
        packed_ints(values.drop_last()) + varint(twos_complement(values.last() as int))
    }
}

#[derive(Debug, Clone, Copy, PartialEq, Eq, Structural)]
pub enum SessionRole {
    Unspecified,
    Controller,
    Controlled,
}

impl SessionRole {
    pub open spec fn spec_code(self) -> i32 {
        match self {
            SessionRole::Unspecified => 0,
            SessionRole::Controller => 1,
            SessionRole::Controlled => 2,
        }
    }

    /// The number of the role on the wire.
    #[verifier::when_used_as_spec(spec_code)]
    pub fn code(self) -> (code: i32)
        ensures
            code == self.spec_code(),
    {
        match self {
            SessionRole::Unspecified => 0,
            SessionRole::Controller => 1,
            SessionRole::Controlled => 2,
        }
    }
}

#[derive(Debug, Clone, Copy, PartialEq, Eq, Structural)]
pub enum VideoCodec {
    Unspecified,
    H264,
}

impl VideoCodec {
    pub open spec fn spec_code(self) -> i32 {
        match self {
            VideoCodec::Unspecified => 0,
            VideoCodec::H264 => 1,
        }
    }

    /// The number of the codec on the wire.
    #[verifier::when_used_as_spec(spec_code)]
    pub fn code(self) -> (code: i32)
        ensures
            code == self.spec_code(),
    {
        match self {
            VideoCodec::Unspecified => 0,
            VideoCodec::H264 => 1,
        }
    }
}

/// Why a session request was turned down.
#[derive(Debug, Clone, Copy, PartialEq, Eq, Structural)]
pub enum RejectReason {
    Unspecified,
    VersionMismatch,
    PolicyDenied,
    AuthFailed,
}

impl RejectReason {
    pub open spec fn spec_code(self) -> i32 {
        match self {
            RejectReason::Unspecified => 0,
            RejectReason::VersionMismatch => 1,
            RejectReason::PolicyDenied => 2,
            RejectReason::AuthFailed => 3,
        }
    }

    /// The number of the reason on the wire.
    #[verifier::when_used_as_spec(spec_code)]
    pub fn code(self) -> (code: i32)
        ensures
            code == self.spec_code(),
    {
        match self {
            RejectReason::Unspecified => 0,
            RejectReason::VersionMismatch => 1,
            RejectReason::PolicyDenied => 2,
            RejectReason::AuthFailed => 3,
        }
    }

    /// The reason that a number on the wire stands for, if it stands for
    /// one.
    pub fn from_code(code: i32) -> (reason: Option<RejectReason>)
        ensures
            match reason {
                Some(r) => r.spec_code() == code,
                None => code < 0 || code > 3,
            },
    {
        if code == 0 {
            Some(RejectReason::Unspecified)
        } else if code == 1 {
            Some(RejectReason::VersionMismatch)
        } else if code == 2 {
            Some(RejectReason::PolicyDenied)
        } else if code == 3 {
            Some(RejectReason::AuthFailed)
        } else {
            None
        }
    }
}

/// Who a message comes from: the peer identifier, the public key it derives
/// from, and the device code the sender goes by.
#[derive(Debug, Clone, PartialEq, Eq)]
pub struct DeviceIdentity {
    pub peer_id: Vec<u8>,
    pub identity_pubkey: Vec<u8>,
    pub device_code: String,
}

pub struct DeviceIdentityView {
    pub peer_id: Seq<u8>,
    pub identity_pubkey: Seq<u8>,
    pub device_code: Seq<char>,
}

impl View for DeviceIdentity {
    type V = DeviceIdentityView;

    open spec fn view(&self) -> DeviceIdentityView {
        DeviceIdentityView {
            peer_id: self.peer_id@,
            identity_pubkey: self.identity_pubkey@,
            device_code: self.device_code@,
        }
    }
}

impl DeviceIdentityView {
    pub open spec fn encoding(self) -> Seq<u8> {
        bytes_field(1, self.peer_id) + bytes_field(2, self.identity_pubkey) + string_field(
            3,
            self.device_code,
        )
    }
}

impl DeviceIdentity {
    pub open spec fn encoding(self) -> Seq<u8> {
        self@.encoding()
    }
}

#[derive(Debug, Clone, Copy, PartialEq, Eq, Structural)]
pub struct ProtocolVersion {
    pub major: u32,
    pub minor: u32,
    pub patch: u32,
}

impl ProtocolVersion {
    pub open spec fn encoding(self) -> Seq<u8> {
        uint_field(1, self.major as nat) + uint_field(2, self.minor as nat) + uint_field(
            3,
            self.patch as nat,
        )
    }
}

/// An identity that may be absent, as plain values.
pub open spec fn identity_view(identity: Option<DeviceIdentity>) -> Option<DeviceIdentityView> {
    match identity {
        Some(from) => Some(from@),
        None => None,
    }
}

/// The encoding of an identity that may be absent.
pub open spec fn identity_encoding(identity: Option<DeviceIdentityView>) -> Option<Seq<u8>> {
    match identity {
        Some(from) => Some(from.encoding()),
        None => None,
    }
}

/// The encoding of a version that may be absent.
pub open spec fn version_encoding(version: Option<ProtocolVersion>) -> Option<Seq<u8>> {
    match version {
        Some(v) => Some(v.encoding()),
        None => None,
    }
}

#[derive(Debug, Clone, PartialEq, Eq)]
pub struct SessionRequest {
    pub session_id: String,
    pub from: Option<DeviceIdentity>,
    pub requested_role: i32,
    pub target_device_code: String,
    pub supported_video_codecs: Vec<i32>,
    pub allow_relay: bool,
    pub preferred_max_fps: u32,
    pub preferred_max_width: u32,
    pub preferred_max_height: u32,
    pub nonce: Vec<u8>,
    pub unix_ms: i64,
    pub signature: Vec<u8>,
    pub version: Option<ProtocolVersion>,
}

pub struct SessionRequestView {
    pub session_id: Seq<char>,
    pub from: Option<DeviceIdentityView>,
    pub requested_role: i32,
    pub target_device_code: Seq<char>,
    pub supported_video_codecs: Seq<i32>,
    pub allow_relay: bool,
    pub preferred_max_fps: u32,
    pub preferred_max_width: u32,
    pub preferred_max_height: u32,
    pub nonce: Seq<u8>,
    pub unix_ms: i64,
    pub signature: Seq<u8>,
    pub version: Option<ProtocolVersion>,
}

impl View for SessionRequest {
    type V = SessionRequestView;

    open spec fn view(&self) -> SessionRequestView {
        SessionRequestView {
            session_id: self.session_id@,
            from: identity_view(self.from),
            requested_role: self.requested_role,
            target_device_code: self.target_device_code@,
            supported_video_codecs: self.supported_video_codecs@,
            allow_relay: self.allow_relay,
            preferred_max_fps: self.preferred_max_fps,
            preferred_max_width: self.preferred_max_width,
            preferred_max_height: self.preferred_max_height,
            nonce: self.nonce@,
            unix_ms: self.unix_ms,
            signature: self.signature@,
            version: self.version,
        }
    }
}

impl SessionRequestView {
    /// The encoding of the request with `signature` in the place of its
    /// own.
    pub open spec fn encoding_with(self, signature: Seq<u8>) -> Seq<u8> {
        string_field(1, self.session_id) + message_field(2, identity_encoding(self.from))
            + int_field(3, self.requested_role as int) + string_field(
            4,
            self.target_device_code,
        ) + bytes_field(5, packed_ints(self.supported_video_codecs)) + bool_field(
            6,
            self.allow_relay,
        ) + uint_field(7, self.preferred_max_fps as nat) + uint_field(
            8,
            self.preferred_max_width as nat,
        ) + uint_field(9, self.preferred_max_height as nat) + bytes_field(10, self.nonce)
            + int_field(11, self.unix_ms as int) + bytes_field(12, signature) + message_field(
            13,
            version_encoding(self.version),
        )
    }

    /// The request as it travels.
    pub open spec fn encoding(self) -> Seq<u8> {
        self.encoding_with(self.signature)
    }

    /// What a signature of the request is made over: its encoding with the
    /// signature left empty.
    pub open spec fn signing_payload(self) -> Seq<u8> {
        self.encoding_with(Seq::<u8>::empty())
    }
}

impl SessionRequest {
    pub open spec fn encoding_with(self, signature: Seq<u8>) -> Seq<u8> {
        self@.encoding_with(signature)
    }

    /// The request as it travels.
    pub open spec fn encoding(self) -> Seq<u8> {
        self@.encoding()
    }

    /// What a signature of the request is made over: its encoding with the
    /// signature left empty.
    pub open spec fn signing_payload(self) -> Seq<u8> {
        self@.signing_payload()
    }
}

#[derive(Debug, Clone, PartialEq, Eq)]
pub struct SessionAccept {
    pub session_id: String,
    pub selected_codec: i32,
    pub selected_fps: u32,
    pub selected_width: u32,
    pub selected_height: u32,
    pub using_relay: bool,
    pub path_id: String,
    pub from: Option<DeviceIdentity>,
    pub nonce: Vec<u8>,
    pub unix_ms: i64,
    pub signature: Vec<u8>,
    pub request_nonce: Vec<u8>,
}

pub struct SessionAcceptView {
    pub session_id: Seq<char>,
    pub selected_codec: i32,
    pub selected_fps: u32,
    pub selected_width: u32,
    pub selected_height: u32,
    pub using_relay: bool,
    pub path_id: Seq<char>,
    pub from: Option<DeviceIdentityView>,
    pub nonce: Seq<u8>,
    pub unix_ms: i64,
    pub signature: Seq<u8>,
    pub request_nonce: Seq<u8>,
}

impl View for SessionAccept {
    type V = SessionAcceptView;

    open spec fn view(&self) -> SessionAcceptView {
        SessionAcceptView {
            session_id: self.session_id@,
            selected_codec: self.selected_codec,
            selected_fps: self.selected_fps,
            selected_width: self.selected_width,
            selected_height: self.selected_height,
            using_relay: self.using_relay,
            path_id: self.path_id@,
            from: identity_view(self.from),
            nonce: self.nonce@,
            unix_ms: self.unix_ms,
            signature: self.signature@,
            request_nonce: self.request_nonce@,
        }
    }
}

impl SessionAcceptView {
    /// The encoding of the accept with `signature` in the place of its own.
    pub open spec fn encoding_with(self, signature: Seq<u8>) -> Seq<u8> {
        string_field(1, self.session_id) + int_field(2, self.selected_codec as int) + uint_field(
            3,
            self.selected_fps as nat,
        ) + uint_field(4, self.selected_width as nat) + uint_field(
            5,
            self.selected_height as nat,
        ) + bool_field(6, self.using_relay) + string_field(7, self.path_id) + message_field(
            8,
            identity_encoding(self.from),
        ) + bytes_field(9, self.nonce) + int_field(10, self.unix_ms as int) + bytes_field(
            11,
            signature,
        ) + bytes_field(12, self.request_nonce)
    }

    /// The accept as it travels.
    pub open spec fn encoding(self) -> Seq<u8> {
        self.encoding_with(self.signature)
    }

    /// What a signature of the accept is made over: its encoding with the
    /// signature left empty. The nonce of the request it answers is part of
    /// it.
    pub open spec fn signing_payload(self) -> Seq<u8> {
        self.encoding_with(Seq::<u8>::empty())
    }
}

impl SessionAccept {
    pub open spec fn encoding_with(self, signature: Seq<u8>) -> Seq<u8> {
        self@.encoding_with(signature)
    }

    /// The accept as it travels.
    pub open spec fn encoding(self) -> Seq<u8> {
        self@.encoding()
    }

    /// What a signature of the accept is made over.
    pub open spec fn signing_payload(self) -> Seq<u8> {
        self@.signing_payload()
    }
}

#[derive(Debug, Clone, PartialEq, Eq)]
pub struct SessionReject {
    pub session_id: String,
    pub reason: i32,
    pub detail: String,
}

pub struct SessionRejectView {
    pub session_id: Seq<char>,
    pub reason: i32,
    pub detail: Seq<char>,
}

impl View for SessionReject {
    type V = SessionRejectView;

    open spec fn view(&self) -> SessionRejectView {
        SessionRejectView {
            session_id: self.session_id@,
            reason: self.reason,
            detail: self.detail@,
        }
    }
}

impl SessionRejectView {
    pub open spec fn encoding(self) -> Seq<u8> {
        string_field(1, self.session_id) + int_field(2, self.reason as int) + string_field(
            3,
            self.detail,
        )
    }
}

impl SessionReject {
    pub open spec fn encoding(self) -> Seq<u8> {
        self@.encoding()
    }
}

#[derive(Debug, Clone, PartialEq, Eq)]
pub struct Ping {
    pub session_id: String,
    pub seq: u64,
    pub send_unix_ms: u64,
}

pub struct PingView {
    pub session_id: Seq<char>,
    pub seq: u64,
    pub send_unix_ms: u64,
}

impl View for Ping {
    type V = PingView;

    open spec fn view(&self) -> PingView {
        PingView { session_id: self.session_id@, seq: self.seq, send_unix_ms: self.send_unix_ms }
    }
}

impl PingView {
    pub open spec fn encoding(self) -> Seq<u8> {
        string_field(1, self.session_id) + uint_field(2, self.seq as nat) + uint_field(
            3,
            self.send_unix_ms as nat,
        )
    }
}

impl Ping {
    pub open spec fn encoding(self) -> Seq<u8> {
        self@.encoding()
    }
}

#[derive(Debug, Clone, PartialEq, Eq)]
pub struct Pong {
    pub session_id: String,
    pub seq: u64,
    pub echo_send_unix_ms: u64,
    pub recv_unix_ms: u64,
}

pub struct PongView {
    pub session_id: Seq<char>,
    pub seq: u64,
    pub echo_send_unix_ms: u64,
    pub recv_unix_ms: u64,
}

impl View for Pong {
    type V = PongView;

    open spec fn view(&self) -> PongView {
        PongView {
            session_id: self.session_id@,
            seq: self.seq,
            echo_send_unix_ms: self.echo_send_unix_ms,
            recv_unix_ms: self.recv_unix_ms,
        }
    }
}

impl PongView {
    pub open spec fn encoding(self) -> Seq<u8> {
        string_field(1, self.session_id) + uint_field(2, self.seq as nat) + uint_field(
            3,
            self.echo_send_unix_ms as nat,
        ) + uint_field(4, self.recv_unix_ms as nat)
    }
}

impl Pong {
    pub open spec fn encoding(self) -> Seq<u8> {
        self@.encoding()
    }
}

/// The message an envelope carries.
#[derive(Debug, Clone, PartialEq, Eq)]
pub enum ControlMessage {
    SessionRequest(SessionRequest),
    SessionAccept(SessionAccept),
    SessionReject(SessionReject),
    Ping(Ping),
    Pong(Pong),
}

pub enum ControlMessageView {
    SessionRequest(SessionRequestView),
    SessionAccept(SessionAcceptView),
    SessionReject(SessionRejectView),
    Ping(PingView),
    Pong(PongView),
}

impl View for ControlMessage {
    type V = ControlMessageView;

    open spec fn view(&self) -> ControlMessageView {
        match *self {
            ControlMessage::SessionRequest(m) => ControlMessageView::SessionRequest(m@),
            ControlMessage::SessionAccept(m) => ControlMessageView::SessionAccept(m@),
            ControlMessage::SessionReject(m) => ControlMessageView::SessionReject(m@),
            ControlMessage::Ping(m) => ControlMessageView::Ping(m@),
            ControlMessage::Pong(m) => ControlMessageView::Pong(m@),
        }
    }
}

impl ControlMessageView {
    /// The field of the envelope that holds the message.
    pub open spec fn encoding(self) -> Seq<u8> {
        match self {
            ControlMessageView::SessionRequest(m) => message_field(3, Some(m.encoding())),
            ControlMessageView::SessionAccept(m) => message_field(4, Some(m.encoding())),
            ControlMessageView::SessionReject(m) => message_field(5, Some(m.encoding())),
            ControlMessageView::Ping(m) => message_field(6, Some(m.encoding())),
            ControlMessageView::Pong(m) => message_field(7, Some(m.encoding())),
        }
    }
}

impl ControlMessage {
    pub open spec fn encoding(self) -> Seq<u8> {
        self@.encoding()
    }
}

#[derive(Debug, Clone, PartialEq, Eq)]
pub struct ControlEnvelope {
    pub seq: u64,
    pub request_id: String,
    pub message: Option<ControlMessage>,
}

pub struct ControlEnvelopeView {
    pub seq: u64,
    pub request_id: Seq<char>,
    pub message: Option<ControlMessageView>,
}

impl View for ControlEnvelope {
    type V = ControlEnvelopeView;

    open spec fn view(&self) -> ControlEnvelopeView {
        ControlEnvelopeView {
            seq: self.seq,
            request_id: self.request_id@,
            message: match self.message {
                Some(m) => Some(m@),
                None => None,
            },
        }
    }
}

impl ControlEnvelopeView {
    pub open spec fn encoding(self) -> Seq<u8> {
        uint_field(1, self.seq as nat) + string_field(2, self.request_id) + match self.message {
            Some(message) => message.encoding(),
            None => Seq::<u8>::empty(),
        }
    }
}

impl ControlEnvelope {
    pub open spec fn encoding(self) -> Seq<u8> {
        self@.encoding()
    }
}

fn append_bytes(out: &mut Vec<u8>, data: &[u8])
    ensures
        final(out)@ == old(out)@ + data@,
{
    let ghost before = out@;
    let mut i: usize = 0;
    while i < data.len()
        invariant
            i <= data@.len(),
            out@ == before + data@.take(i as int),
        decreases data@.len() - i,
    {
        out.push(data[i]);
        assert(data@.take(i + 1) =~= data@.take(i as int).push(data@[i as int]));
        assert(out@ =~= before + data@.take(i + 1));
        i += 1;
    }
    assert(data@.take(i as int) =~= data@);
}

fn put_varint(out: &mut Vec<u8>, value: u64)
    ensures
        final(out)@ == old(out)@ + varint(value as nat),
{
    let ghost before = out@;
    let mut rest: u64 = value;
    while rest >= 128
        invariant
            before + varint(value as nat) == out@ + varint(rest as nat),
        decreases rest,
    {
        let ghost held = out@;
        out.push((rest % 128 + 128) as u8);
        proof {
            assert(varint(rest as nat) == seq![(rest % 128 + 128) as u8] + varint(
                (rest / 128) as nat,
            ));
            assert(out@ + varint((rest / 128) as nat) =~= held + varint(rest as nat));
        }
        rest = rest / 128;
    }
    out.push(rest as u8);
    assert(out@ =~= before + varint(value as nat));
}

fn put_tag(out: &mut Vec<u8>, field: u32, wire_type: u8)
    requires
        field < 0x2000_0000,
        wire_type < 8,
    ensures
        final(out)@ == old(out)@ + tag(field as nat, wire_type as nat),
{
    put_varint(out, field as u64 * 8 + wire_type as u64);
}

fn put_uint_field(out: &mut Vec<u8>, field: u32, value: u64)
    requires
        field < 0x2000_0000,
    ensures
        final(out)@ == old(out)@ + uint_field(field as nat, value as nat),
{
    let ghost before = out@;
    if value != 0 {
        put_tag(out, field, 0);
        put_varint(out, value);
    }
    assert(out@ =~= before + uint_field(field as nat, value as nat));
}

fn put_int_field(out: &mut Vec<u8>, field: u32, value: i64)
    requires
        field < 0x2000_0000,
    ensures
        final(out)@ == old(out)@ + int_field(field as nat, value as int),
{
    let coded: u64 = if value >= 0 {
        value as u64
    } else {
        u64::MAX - ((-(value + 1)) as u64)
    };
    put_uint_field(out, field, coded);
}

fn put_bool_field(out: &mut Vec<u8>, field: u32, value: bool)
    requires
        field < 0x2000_0000,
    ensures
        final(out)@ == old(out)@ + bool_field(field as nat, value),
{
    put_uint_field(
        out,
        field,
        if value {
            1
        } else {
            0
        },
    );
}

fn put_bytes_field(out: &mut Vec<u8>, field: u32, value: &[u8])
    requires
        field < 0x2000_0000,
    ensures
        final(out)@ == old(out)@ + bytes_field(field as nat, value@),
{
    let ghost before = out@;
    if value.len() != 0 {
        put_tag(out, field, 2);
        put_varint(out, value.len() as u64);
        append_bytes(out, value);
    }
    assert(out@ =~= before + bytes_field(field as nat, value@));
}

fn put_string_field(out: &mut Vec<u8>, field: u32, value: &str)
    requires
        field < 0x2000_0000,
    ensures
        final(out)@ == old(out)@ + string_field(field as nat, value@),
{
    put_bytes_field(out, field, value.as_bytes());
}

fn put_message_field(out: &mut Vec<u8>, field: u32, body: &[u8])
    requires
        field < 0x2000_0000,
    ensures
        final(out)@ == old(out)@ + message_field(field as nat, Some(body@)),
{
    let ghost before = out@;
    put_tag(out, field, 2);
    put_varint(out, body.len() as u64);
    append_bytes(out, body);
    assert(out@ =~= before + message_field(field as nat, Some(body@)));
}

fn pack_ints(values: &[i32]) -> (packed: Vec<u8>)
    ensures
        packed@ == packed_ints(values@),
{
    let mut out: Vec<u8> = Vec::new();
    let mut i: usize = 0;
    assert(values@.take(0) =~= Seq::<i32>::empty());
    while i < values.len()
        invariant
            i <= values@.len(),
            out@ == packed_ints(values@.take(i as int)),
        decreases values@.len() - i,
    {
        let value: i64 = values[i] as i64;
        let coded: u64 = if value >= 0 {
            value as u64
        } else {
            u64::MAX - ((-(value + 1)) as u64)
        };
        put_varint(&mut out, coded);
        proof {
            let grown = values@.take(i + 1);
            assert(grown.drop_last() =~= values@.take(i as int));
            assert(grown.last() == values@[i as int]);
        }
        i += 1;
    }
    assert(values@.take(i as int) =~= values@);
    out
}

/// The wire form of an identity.
pub fn encode_device_identity(identity: &DeviceIdentity) -> (bytes: Vec<u8>)
    ensures
        bytes@ == identity.encoding(),
{
    let mut out: Vec<u8> = Vec::new();
    put_bytes_field(&mut out, 1, identity.peer_id.as_slice());
    put_bytes_field(&mut out, 2, identity.identity_pubkey.as_slice());
    put_string_field(&mut out, 3, identity.device_code.as_str());
    assert(out@ =~= identity.encoding());
    out
}

/// The wire form of a version.
pub fn encode_protocol_version(version: &ProtocolVersion) -> (bytes: Vec<u8>)
    ensures
        bytes@ == version.encoding(),
{
    let mut out: Vec<u8> = Vec::new();
    put_uint_field(&mut out, 1, version.major as u64);
    put_uint_field(&mut out, 2, version.minor as u64);
    put_uint_field(&mut out, 3, version.patch as u64);
    assert(out@ =~= version.encoding());
    out
}

fn put_identity(out: &mut Vec<u8>, field: u32, identity: &Option<DeviceIdentity>)
    requires
        field < 0x2000_0000,
    ensures
        final(out)@ == old(out)@ + message_field(
            field as nat,
            identity_encoding(identity_view(*identity)),
        ),
{
    let ghost before = out@;
    match identity {
        Some(from) => {
            let body: Vec<u8> = encode_device_identity(from);
            put_message_field(out, field, body.as_slice());
        },
        None => {
            assert(out@ =~= before + message_field(
                field as nat,
                identity_encoding(identity_view(*identity)),
            ));
        },
    }
}

fn encode_request_with(request: &SessionRequest, signature: &[u8]) -> (bytes: Vec<u8>)
    ensures
        bytes@ == request.encoding_with(signature@),
{
    let mut out: Vec<u8> = Vec::new();
    put_string_field(&mut out, 1, request.session_id.as_str());
    put_identity(&mut out, 2, &request.from);
    put_int_field(&mut out, 3, request.requested_role as i64);
    put_string_field(&mut out, 4, request.target_device_code.as_str());
    let codecs: Vec<u8> = pack_ints(request.supported_video_codecs.as_slice());
    put_bytes_field(&mut out, 5, codecs.as_slice());
    put_bool_field(&mut out, 6, request.allow_relay);
    put_uint_field(&mut out, 7, request.preferred_max_fps as u64);
    put_uint_field(&mut out, 8, request.preferred_max_width as u64);
    put_uint_field(&mut out, 9, request.preferred_max_height as u64);
    put_bytes_field(&mut out, 10, request.nonce.as_slice());
    put_int_field(&mut out, 11, request.unix_ms);
    put_bytes_field(&mut out, 12, signature);
    let ghost before = out@;
    match &request.version {
        Some(version) => {
            let body: Vec<u8> = encode_protocol_version(version);
            put_message_field(&mut out, 13, body.as_slice());
        },
        None => {
            assert(out@ =~= before + message_field(13, version_encoding(request.version)));
        },
    }
    assert(out@ =~= request.encoding_with(signature@));
    out
}

fn encode_accept_with(accept: &SessionAccept, signature: &[u8]) -> (bytes: Vec<u8>)
    ensures
        bytes@ == accept.encoding_with(signature@),
{
    let mut out: Vec<u8> = Vec::new();
    put_string_field(&mut out, 1, accept.session_id.as_str());
    put_int_field(&mut out, 2, accept.selected_codec as i64);
    put_uint_field(&mut out, 3, accept.selected_fps as u64);
    put_uint_field(&mut out, 4, accept.selected_width as u64);
    put_uint_field(&mut out, 5, accept.selected_height as u64);
    put_bool_field(&mut out, 6, accept.using_relay);
    put_string_field(&mut out, 7, accept.path_id.as_str());
    put_identity(&mut out, 8, &accept.from);
    put_bytes_field(&mut out, 9, accept.nonce.as_slice());
    put_int_field(&mut out, 10, accept.unix_ms);
    put_bytes_field(&mut out, 11, signature);
    put_bytes_field(&mut out, 12, accept.request_nonce.as_slice());
    assert(out@ =~= accept.encoding_with(signature@));
    out
}

/// The bytes of a request as it travels.
pub fn encode_session_request(request: &SessionRequest) -> (bytes: Vec<u8>)
    ensures
        bytes@ == request.encoding(),
{
    encode_request_with(request, request.signature.as_slice())
}

/// The bytes that a signature of the request is made over.
pub fn canonical_session_request_payload(request: &SessionRequest) -> (bytes: Vec<u8>)
    ensures
        bytes@ == request.signing_payload(),
{
    let empty: Vec<u8> = Vec::new();
    encode_request_with(request, empty.as_slice())
}

/// The bytes of an accept as it travels.
pub fn encode_session_accept(accept: &SessionAccept) -> (bytes: Vec<u8>)
    ensures
        bytes@ == accept.encoding(),
{
    encode_accept_with(accept, accept.signature.as_slice())
}

/// The bytes that a signature of the accept is made over.
pub fn canonical_session_accept_payload(accept: &SessionAccept) -> (bytes: Vec<u8>)
    ensures
        bytes@ == accept.signing_payload(),
{
    let empty: Vec<u8> = Vec::new();
    encode_accept_with(accept, empty.as_slice())
}

/// The wire form of a reject.
pub fn encode_session_reject(reject: &SessionReject) -> (bytes: Vec<u8>)
    ensures
        bytes@ == reject.encoding(),
{
    let mut out: Vec<u8> = Vec::new();
    put_string_field(&mut out, 1, reject.session_id.as_str());
    put_int_field(&mut out, 2, reject.reason as i64);
    put_string_field(&mut out, 3, reject.detail.as_str());
    assert(out@ =~= reject.encoding());
    out
}

/// The wire form of a ping.
pub fn encode_ping(ping: &Ping) -> (bytes: Vec<u8>)
    ensures
        bytes@ == ping.encoding(),
{
    let mut out: Vec<u8> = Vec::new();
    put_string_field(&mut out, 1, ping.session_id.as_str());
    put_uint_field(&mut out, 2, ping.seq);
    put_uint_field(&mut out, 3, ping.send_unix_ms);
    assert(out@ =~= ping.encoding());
    out
}

/// The wire form of a pong.
pub fn encode_pong(pong: &Pong) -> (bytes: Vec<u8>)
    ensures
        bytes@ == pong.encoding(),
{
    let mut out: Vec<u8> = Vec::new();
    put_string_field(&mut out, 1, pong.session_id.as_str());
    put_uint_field(&mut out, 2, pong.seq);
    put_uint_field(&mut out, 3, pong.echo_send_unix_ms);
    put_uint_field(&mut out, 4, pong.recv_unix_ms);
    assert(out@ =~= pong.encoding());
    out
}

/// The bytes of an envelope as it travels.
pub fn encode_envelope(envelope: &ControlEnvelope) -> (bytes: Vec<u8>)
    ensures
        bytes@ == envelope.encoding(),
{
    let mut out: Vec<u8> = Vec::new();
    put_uint_field(&mut out, 1, envelope.seq);
    put_string_field(&mut out, 2, envelope.request_id.as_str());
    let ghost before = out@;
    match &envelope.message {
        Some(ControlMessage::SessionRequest(m)) => {
            let body: Vec<u8> = encode_session_request(m);
            put_message_field(&mut out, 3, body.as_slice());
        },
        Some(ControlMessage::SessionAccept(m)) => {
            let body: Vec<u8> = encode_session_accept(m);
            put_message_field(&mut out, 4, body.as_slice());
        },
        Some(ControlMessage::SessionReject(m)) => {
            let body: Vec<u8> = encode_session_reject(m);
            put_message_field(&mut out, 5, body.as_slice());
        },
        Some(ControlMessage::Ping(m)) => {
            let body: Vec<u8> = encode_ping(m);
            put_message_field(&mut out, 6, body.as_slice());
        },
        Some(ControlMessage::Pong(m)) => {
            let body: Vec<u8> = encode_pong(m);
            put_message_field(&mut out, 7, body.as_slice());
        },
        None => {
            assert(out@ =~= before + Seq::<u8>::empty());
        },
    }
    assert(out@ =~= envelope.encoding());
    out
}

/// A signature is made over everything in a request but the signature:
/// requests that differ in nothing but their signatures share one signing
/// payload.
pub proof fn lemma_signing_payload_ignores_signature(a: SessionRequestView, b: SessionRequestView)
    requires
        b == (SessionRequestView { signature: b.signature, ..a }),
    ensures
        a.signing_payload() == b.signing_payload(),
{
}

/// The same for accepts.
pub proof fn lemma_accept_payload_ignores_signature(a: SessionAcceptView, b: SessionAcceptView)
    requires
        b == (SessionAcceptView { signature: b.signature, ..a }),
    ensures
        a.signing_payload() == b.signing_payload(),
{
}

} // verus!

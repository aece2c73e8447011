//! Reading undoes writing: what the wire form of a message is read back as
//! is the message.

use crate::decode::{
    as_i64, bytes_of, cap, low_i32, low_u32, number_of, parse_varint, read_field, read_varint,
    text_of, unpacked_onto, WireField, WireValue,
};
use crate::wire::{
    bool_field, bytes_field, identity_encoding, int_field, message_field, packed_ints,
    string_field, tag, twos_complement, uint_field, varint, version_encoding,
    ControlEnvelopeView, ControlMessageView, DeviceIdentityView, PingView, PongView,
    ProtocolVersion, SessionAcceptView, SessionRejectView, SessionRequestView,
};
use vstd::prelude::*;
use vstd::utf8::{decode_utf8, encode_utf8, encode_utf8_decode_utf8, encode_utf8_valid_utf8, valid_utf8};

verus! {

/// A number below `128` to the power of `bytes` is written in no more
/// than `bytes` bytes.
pub proof fn lemma_varint_length(value: nat, bytes: nat)
    requires
        bytes >= 1,
        value < cap(bytes),
    ensures
        1 <= varint(value).len() <= bytes,
    decreases bytes,
{
    reveal_with_fuel(cap, 2);
    if value >= 128 {
        assert(cap(bytes) == 128 * cap((bytes - 1) as nat));
        if bytes == 1 {
            assert(cap(1) == 128);
        } else {
            assert(value / 128 < cap((bytes - 1) as nat)) by (nonlinear_arith)
                requires
                    value < 128 * cap((bytes - 1) as nat),
            ;
            lemma_varint_length(value / 128, (bytes - 1) as nat);
        }
    }
}

/// A varint is read back as the number it was written for, whatever
/// follows it.
pub proof fn lemma_parse_varint(value: nat, rest: Seq<u8>, limit: nat)
    requires
        limit >= varint(value).len(),
    ensures
        parse_varint(varint(value) + rest, limit) == Some((value, varint(value).len())),
    decreases value,
{
    let bytes = varint(value) + rest;
    if value < 128 {
        assert(bytes[0] == value as u8);
    } else {
        let tail = varint(value / 128);
        assert(varint(value) == seq![(value % 128 + 128) as u8] + tail);
        assert(bytes[0] == (value % 128 + 128) as u8);
        assert(bytes.drop_first() =~= tail + rest);
        lemma_parse_varint(value / 128, rest, (limit - 1) as nat);
        assert((bytes[0] - 128) + 128 * (value / 128) == value);
    }
}

/// A number of 64 bits is written in ten bytes at most and read back as
/// itself.
pub proof fn lemma_read_varint(value: u64, rest: Seq<u8>)
    ensures
        1 <= varint(value as nat).len() <= 10,
        read_varint(varint(value as nat) + rest) == Some((value, varint(value as nat).len())),
{
    reveal_with_fuel(cap, 11);
    assert(cap(10) == 0x40_0000_0000_0000_0000);
    lemma_varint_length(value as nat, 10);
    lemma_parse_varint(value as nat, rest, 10);
}

/// Field numbers as this wire format uses them.
pub open spec fn is_field_number(number: nat) -> bool {
    1 <= number < 0x2000_0000
}

proof fn lemma_read_key(number: nat, wire_type: nat, rest: Seq<u8>)
    requires
        is_field_number(number),
        wire_type < 8,
    ensures
        1 <= tag(number, wire_type).len() <= 10,
        read_varint(tag(number, wire_type) + rest) == Some(
            ((number * 8 + wire_type) as u64, tag(number, wire_type).len()),
        ),
        (number * 8 + wire_type) / 8 == number,
        (number * 8 + wire_type) % 8 == wire_type,
        number * 8 + wire_type <= u32::MAX,
{
    lemma_read_varint((number * 8 + wire_type) as u64, rest);
}

/// A numeric field that is written is read back as itself.
pub proof fn lemma_read_uint_field(number: nat, value: u64, rest: Seq<u8>)
    requires
        is_field_number(number),
        value != 0,
    ensures
        uint_field(number, value as nat).len() >= 1,
        read_field(uint_field(number, value as nat) + rest) == Some(
            WireField {
                number,
                value: WireValue::Varint(value),
                length: uint_field(number, value as nat).len(),
            },
        ),
        (uint_field(number, value as nat) + rest).skip(
            uint_field(number, value as nat).len() as int,
        ) == rest,
{
    let key = tag(number, 0);
    let body = varint(value as nat);
    let all = uint_field(number, value as nat) + rest;
    assert(all =~= key + (body + rest));
    lemma_read_key(number, 0, body + rest);
    assert(all.skip(key.len() as int) =~= body + rest);
    lemma_read_varint(value, rest);
    assert(all.skip((key.len() + body.len()) as int) =~= rest);
}

/// A field of bytes that is written is read back as itself.
pub proof fn lemma_read_bytes_field(number: nat, value: Seq<u8>, rest: Seq<u8>)
    requires
        is_field_number(number),
        value.len() <= u64::MAX,
    ensures
        message_field(number, Some(value)).len() >= 1,
        read_field(message_field(number, Some(value)) + rest) == Some(
            WireField {
                number,
                value: WireValue::Bytes(value),
                length: message_field(number, Some(value)).len(),
            },
        ),
        (message_field(number, Some(value)) + rest).skip(
            message_field(number, Some(value)).len() as int,
        ) == rest,
{
    let key = tag(number, 2);
    let size = varint(value.len());
    let field = message_field(number, Some(value));
    let all = field + rest;
    assert(all =~= key + (size + (value + rest)));
    lemma_read_key(number, 2, size + (value + rest));
    let after_key = all.skip(key.len() as int);
    assert(after_key =~= size + (value + rest));
    lemma_read_varint(value.len() as u64, value + rest);
    assert(after_key.subrange(size.len() as int, (size.len() + value.len()) as int) =~= value);
    assert(all.skip(field.len() as int) =~= rest);
}

/// Text is read back from its bytes as itself, and only the empty text has
/// no bytes.
pub proof fn lemma_text_round_trip(text: Seq<char>)
    ensures
        text_of(WireValue::Bytes(encode_utf8(text))) == Some(text),
        encode_utf8(text).len() == 0 <==> text.len() == 0,
{
    encode_utf8_valid_utf8(text);
    encode_utf8_decode_utf8(text);
    if encode_utf8(text).len() == 0 {
        assert(decode_utf8(encode_utf8(text)).len() == 0);
    }
}

/// The three kinds of number are read back from the wire as themselves.
pub proof fn lemma_numbers_round_trip(small: u32, signed: i32, long: i64)
    ensures
        low_u32(small as u64) == small,
        twos_complement(signed as int) <= u64::MAX,
        low_i32(twos_complement(signed as int) as u64) == signed,
        twos_complement(signed as int) == 0 <==> signed == 0,
        twos_complement(long as int) <= u64::MAX,
        as_i64(twos_complement(long as int) as u64) == long,
        twos_complement(long as int) == 0 <==> long == 0,
{
    if signed < 0 {
        let coded = (signed + 0x1_0000_0000_0000_0000) as int;
        assert(coded % 0x1_0000_0000 == signed + 0x1_0000_0000) by (nonlinear_arith)
            requires
                coded == signed + 0x1_0000_0000_0000_0000,
                -0x8000_0000 <= signed < 0,
        ;
    }
}

/// What the state of reading is after one field: nothing changes where the
/// field is left out, and the field is read where it is written.
pub open spec fn is_step(field: Seq<u8>, rest: Seq<u8>, read: Option<WireField>) -> bool {
    if field.len() == 0 {
        read is None
    } else {
        &&& read matches Some(found)
        &&& read_field(field + rest) == Some(found)
        &&& found.length == field.len()
        &&& (field + rest).skip(field.len() as int) == rest
    }
}

/// Reading a numeric field.
pub proof fn lemma_step_uint(number: nat, value: u64, rest: Seq<u8>) -> (read: Option<WireField>)
    requires
        is_field_number(number),
    ensures
        is_step(uint_field(number, value as nat), rest, read),
        read matches Some(found) ==> found.number == number && found.value == WireValue::Varint(
            value,
        ),
        read is None <==> value == 0,
{
    if value == 0 {
        None
    } else {
        lemma_read_uint_field(number, value, rest);
        Some(
            WireField {
                number,
                value: WireValue::Varint(value),
                length: uint_field(number, value as nat).len(),
            },
        )
    }
}

/// Reading a field of bytes.
pub proof fn lemma_step_bytes(number: nat, value: Seq<u8>, rest: Seq<u8>) -> (read: Option<WireField>)
    requires
        is_field_number(number),
        value.len() <= u64::MAX,
    ensures
        is_step(bytes_field(number, value), rest, read),
        read matches Some(found) ==> found.number == number && found.value == WireValue::Bytes(
            value,
        ),
        read is None <==> value.len() == 0,
        read is None ==> value == Seq::<u8>::empty(),
{
    if value.len() == 0 {
        assert(value =~= Seq::<u8>::empty());
        None
    } else {
        lemma_read_bytes_field(number, value, rest);
        Some(
            WireField {
                number,
                value: WireValue::Bytes(value),
                length: bytes_field(number, value).len(),
            },
        )
    }
}

/// Reading a field of text.
pub proof fn lemma_step_string(number: nat, value: Seq<char>, rest: Seq<u8>) -> (read: Option<
    WireField,
>)
    requires
        is_field_number(number),
        encode_utf8(value).len() <= u64::MAX,
    ensures
        is_step(string_field(number, value), rest, read),
        read matches Some(found) ==> found.number == number && text_of(found.value) == Some(value),
        read is None <==> value.len() == 0,
        read is None ==> value == Seq::<char>::empty(),
{
    lemma_text_round_trip(value);
    if value.len() == 0 {
        assert(value =~= Seq::<char>::empty());
    }
    lemma_step_bytes(number, encode_utf8(value), rest)
}

/// Reading a signed field.
pub proof fn lemma_step_int(number: nat, value: int, rest: Seq<u8>) -> (read: Option<WireField>)
    requires
        is_field_number(number),
        i64::MIN <= value <= i64::MAX,
    ensures
        is_step(int_field(number, value), rest, read),
        read matches Some(found) ==> found.number == number && found.value == WireValue::Varint(
            twos_complement(value) as u64,
        ),
        read is None <==> value == 0,
{
    lemma_numbers_round_trip(0, 0, value as i64);
    lemma_step_uint(number, twos_complement(value) as u64, rest)
}

/// Reading a boolean field.
pub proof fn lemma_step_bool(number: nat, value: bool, rest: Seq<u8>) -> (read: Option<WireField>)
    requires
        is_field_number(number),
    ensures
        is_step(bool_field(number, value), rest, read),
        read matches Some(found) ==> found.number == number && found.value == WireValue::Varint(
            1,
        ),
        read is None <==> !value,
{
    lemma_step_uint(
        number,
        if value {
            1
        } else {
            0
        },
        rest,
    )
}

/// Reading an embedded message.
pub proof fn lemma_step_message(number: nat, body: Option<Seq<u8>>, rest: Seq<u8>) -> (read: Option<
    WireField,
>)
    requires
        is_field_number(number),
        body matches Some(b) ==> b.len() <= u64::MAX,
    ensures
        is_step(message_field(number, body), rest, read),
        read matches Some(found) ==> found.number == number && bytes_of(found.value) == body,
        read is None <==> body is None,
{
    match body {
        None => None,
        Some(b) => {
            lemma_read_bytes_field(number, b, rest);
            Some(
                WireField {
                    number,
                    value: WireValue::Bytes(b),
                    length: message_field(number, body).len(),
                },
            )
        },
    }
}

/// A packed list of signed values is read back as the list, on top of
/// whatever was held.
pub proof fn lemma_unpack(base: Seq<i32>, values: Seq<i32>)
    ensures
        unpacked_onto(base, packed_ints(values)) == Some(base + values),
        packed_ints(values).len() == 0 <==> values.len() == 0,
    decreases values.len(),
{
    if values.len() == 0 {
        assert(base + values =~= base);
    } else {
        lemma_unpack_front(base, values);
    }
}

/// The packed form of a list, written from the front: the first value,
/// then the rest.
proof fn lemma_packed_front(values: Seq<i32>)
    requires
        values.len() > 0,
    ensures
        packed_ints(values) == varint(twos_complement(values[0] as int)) + packed_ints(
            values.drop_first(),
        ),
    decreases values.len(),
{
    if values.len() == 1 {
        assert(values.drop_last() =~= Seq::<i32>::empty());
        assert(values.drop_first() =~= Seq::<i32>::empty());
        assert(packed_ints(values.drop_last()) =~= Seq::<u8>::empty());
        assert(packed_ints(values) =~= varint(twos_complement(values[0] as int)) + packed_ints(
            values.drop_first(),
        ));
    } else {
        let front = values.drop_last();
        lemma_packed_front(front);
        assert(front.drop_first() =~= values.drop_first().drop_last());
        assert(front[0] == values[0]);
        assert(values.drop_first().last() == values.last());
        assert(packed_ints(values) =~= varint(twos_complement(values[0] as int)) + packed_ints(
            values.drop_first(),
        ));
    }
}

proof fn lemma_unpack_front(base: Seq<i32>, values: Seq<i32>)
    requires
        values.len() > 0,
    ensures
        unpacked_onto(base, packed_ints(values)) == Some(base + values),
        packed_ints(values).len() > 0,
    decreases values.len(),
{
    let first = values[0];
    let rest = values.drop_first();
    lemma_packed_front(values);
    lemma_numbers_round_trip(0, first, 0);
    let coded = twos_complement(first as int) as u64;
    lemma_read_varint(coded, packed_ints(rest));
    let bytes = packed_ints(values);
    let head = varint(coded as nat);
    assert(bytes.skip(head.len() as int) =~= packed_ints(rest));
    if rest.len() == 0 {
        assert(packed_ints(rest) =~= Seq::<u8>::empty());
        assert(base.push(first) =~= base + values);
    } else {
        lemma_unpack_front(base.push(first), rest);
        assert(base.push(first) + rest =~= base + values);
    }
}

impl PingView {
    /// Whether the ping fits the wire: its text is not longer than a length
    /// can say.
    pub open spec fn fits(self) -> bool {
        encode_utf8(self.session_id).len() <= u64::MAX
    }
}

proof fn lemma_ping_step(
    acc: PingView,
    field: Seq<u8>,
    rest: Seq<u8>,
    read: Option<WireField>,
    next: PingView,
)
    requires
        is_step(field, rest, read),
        match read {
            Some(found) => acc.with_field(found.number, found.value) == Some(next),
            None => next == acc,
        },
    ensures
        acc.read_onto(field + rest) == next.read_onto(rest),
{
    if field.len() == 0 {
        assert(field + rest =~= rest);
    }
}

/// A ping is read back from its wire form as itself.
pub proof fn lemma_ping_round_trip(ping: PingView)
    requires
        ping.fits(),
    ensures
        PingView::empty().read_onto(ping.encoding()) == Some(ping),
{
    let f1 = string_field(1, ping.session_id);
    let f2 = uint_field(2, ping.seq as nat);
    let f3 = uint_field(3, ping.send_unix_ms as nat);
    let none = Seq::<u8>::empty();
    let r2 = f3 + none;
    let r1 = f2 + r2;
    assert(ping.encoding() =~= f1 + r1);
    let a0 = PingView::empty();
    let a1 = PingView { session_id: ping.session_id, ..a0 };
    let a2 = PingView { seq: ping.seq, ..a1 };
    let a3 = PingView { send_unix_ms: ping.send_unix_ms, ..a2 };
    let s1 = lemma_step_string(1, ping.session_id, r1);
    lemma_ping_step(a0, f1, r1, s1, a1);
    let s2 = lemma_step_uint(2, ping.seq, r2);
    lemma_ping_step(a1, f2, r2, s2, a2);
    let s3 = lemma_step_uint(3, ping.send_unix_ms, none);
    lemma_ping_step(a2, f3, none, s3, a3);
    assert(a3 == ping);
}

impl PongView {
    /// Whether the pong fits the wire.
    pub open spec fn fits(self) -> bool {
        encode_utf8(self.session_id).len() <= u64::MAX
    }
}

proof fn lemma_pong_step(
    acc: PongView,
    field: Seq<u8>,
    rest: Seq<u8>,
    read: Option<WireField>,
    next: PongView,
)
    requires
        is_step(field, rest, read),
        match read {
            Some(found) => acc.with_field(found.number, found.value) == Some(next),
            None => next == acc,
        },
    ensures
        acc.read_onto(field + rest) == next.read_onto(rest),
{
    if field.len() == 0 {
        assert(field + rest =~= rest);
    }
}

/// A pong is read back from its wire form as itself.
pub proof fn lemma_pong_round_trip(pong: PongView)
    requires
        pong.fits(),
    ensures
        PongView::empty().read_onto(pong.encoding()) == Some(pong),
{
    let f1 = string_field(1, pong.session_id);
    let f2 = uint_field(2, pong.seq as nat);
    let f3 = uint_field(3, pong.echo_send_unix_ms as nat);
    let f4 = uint_field(4, pong.recv_unix_ms as nat);
    let none = Seq::<u8>::empty();
    let r3 = f4 + none;
    let r2 = f3 + r3;
    let r1 = f2 + r2;
    assert(pong.encoding() =~= f1 + r1);
    let a0 = PongView::empty();
    let a1 = PongView { session_id: pong.session_id, ..a0 };
    let a2 = PongView { seq: pong.seq, ..a1 };
    let a3 = PongView { echo_send_unix_ms: pong.echo_send_unix_ms, ..a2 };
    let a4 = PongView { recv_unix_ms: pong.recv_unix_ms, ..a3 };
    let s1 = lemma_step_string(1, pong.session_id, r1);
    lemma_pong_step(a0, f1, r1, s1, a1);
    let s2 = lemma_step_uint(2, pong.seq, r2);
    lemma_pong_step(a1, f2, r2, s2, a2);
    let s3 = lemma_step_uint(3, pong.echo_send_unix_ms, r3);
    lemma_pong_step(a2, f3, r3, s3, a3);
    let s4 = lemma_step_uint(4, pong.recv_unix_ms, none);
    lemma_pong_step(a3, f4, none, s4, a4);
    assert(a4 == pong);
}

impl SessionRejectView {
    /// Whether the reject fits the wire.
    pub open spec fn fits(self) -> bool {
        encode_utf8(self.session_id).len() <= u64::MAX && encode_utf8(self.detail).len()
            <= u64::MAX
    }
}

proof fn lemma_reject_step(
    acc: SessionRejectView,
    field: Seq<u8>,
    rest: Seq<u8>,
    read: Option<WireField>,
    next: SessionRejectView,
)
    requires
        is_step(field, rest, read),
        match read {
            Some(found) => acc.with_field(found.number, found.value) == Some(next),
            None => next == acc,
        },
    ensures
        acc.read_onto(field + rest) == next.read_onto(rest),
{
    if field.len() == 0 {
        assert(field + rest =~= rest);
    }
}

/// A reject is read back from its wire form as itself.
pub proof fn lemma_reject_round_trip(reject: SessionRejectView)
    requires
        reject.fits(),
    ensures
        SessionRejectView::empty().read_onto(reject.encoding()) == Some(reject),
{
    let f1 = string_field(1, reject.session_id);
    let f2 = int_field(2, reject.reason as int);
    let f3 = string_field(3, reject.detail);
    let none = Seq::<u8>::empty();
    let r2 = f3 + none;
    let r1 = f2 + r2;
    assert(reject.encoding() =~= f1 + r1);
    lemma_numbers_round_trip(0, reject.reason, 0);
    let a0 = SessionRejectView::empty();
    let a1 = SessionRejectView { session_id: reject.session_id, ..a0 };
    let a2 = SessionRejectView { reason: reject.reason, ..a1 };
    let a3 = SessionRejectView { detail: reject.detail, ..a2 };
    let s1 = lemma_step_string(1, reject.session_id, r1);
    lemma_reject_step(a0, f1, r1, s1, a1);
    let s2 = lemma_step_int(2, reject.reason as int, r2);
    lemma_reject_step(a1, f2, r2, s2, a2);
    let s3 = lemma_step_string(3, reject.detail, none);
    lemma_reject_step(a2, f3, none, s3, a3);
    assert(a3 == reject);
}

impl DeviceIdentityView {
    /// Whether the identity fits the wire: none of its fields is longer
    /// than a length can say.
    pub open spec fn fits(self) -> bool {
        &&& self.peer_id.len() <= u64::MAX
        &&& self.identity_pubkey.len() <= u64::MAX
        &&& encode_utf8(self.device_code).len() <= u64::MAX
    }

    /// Whether the identity fits the wire as a part of a message.
    pub open spec fn fits_within(self) -> bool {
        self.fits() && self.encoding().len() <= u64::MAX
    }
}

proof fn lemma_identity_step(
    acc: DeviceIdentityView,
    field: Seq<u8>,
    rest: Seq<u8>,
    read: Option<WireField>,
    next: DeviceIdentityView,
)
    requires
        is_step(field, rest, read),
        match read {
            Some(found) => acc.with_field(found.number, found.value) == Some(next),
            None => next == acc,
        },
    ensures
        acc.read_onto(field + rest) == next.read_onto(rest),
{
    if field.len() == 0 {
        assert(field + rest =~= rest);
    }
}

/// An identity is read back from its wire form as itself.
pub proof fn lemma_identity_round_trip(identity: DeviceIdentityView)
    requires
        identity.fits(),
    ensures
        DeviceIdentityView::empty().read_onto(identity.encoding()) == Some(identity),
{
    let f1 = bytes_field(1, identity.peer_id);
    let f2 = bytes_field(2, identity.identity_pubkey);
    let f3 = string_field(3, identity.device_code);
    let none = Seq::<u8>::empty();
    let r2 = f3 + none;
    let r1 = f2 + r2;
    assert(identity.encoding() =~= f1 + r1);
    let a0 = DeviceIdentityView::empty();
    let a1 = DeviceIdentityView { peer_id: identity.peer_id, ..a0 };
    let a2 = DeviceIdentityView { identity_pubkey: identity.identity_pubkey, ..a1 };
    let a3 = DeviceIdentityView { device_code: identity.device_code, ..a2 };
    let s1 = lemma_step_bytes(1, identity.peer_id, r1);
    lemma_identity_step(a0, f1, r1, s1, a1);
    let s2 = lemma_step_bytes(2, identity.identity_pubkey, r2);
    lemma_identity_step(a1, f2, r2, s2, a2);
    let s3 = lemma_step_string(3, identity.device_code, none);
    lemma_identity_step(a2, f3, none, s3, a3);
    assert(a3 == identity);
}

proof fn lemma_version_step(
    acc: ProtocolVersion,
    field: Seq<u8>,
    rest: Seq<u8>,
    read: Option<WireField>,
    next: ProtocolVersion,
)
    requires
        is_step(field, rest, read),
        match read {
            Some(found) => acc.with_field(found.number, found.value) == Some(next),
            None => next == acc,
        },
    ensures
        acc.read_onto(field + rest) == next.read_onto(rest),
{
    if field.len() == 0 {
        assert(field + rest =~= rest);
    }
}

/// A version is read back from its wire form as itself, and its wire form
/// is short.
pub proof fn lemma_version_round_trip(version: ProtocolVersion)
    ensures
        ProtocolVersion::zero().read_onto(version.encoding()) == Some(version),
        version.encoding().len() <= 33,
{
    let f1 = uint_field(1, version.major as nat);
    let f2 = uint_field(2, version.minor as nat);
    let f3 = uint_field(3, version.patch as nat);
    let none = Seq::<u8>::empty();
    let r2 = f3 + none;
    let r1 = f2 + r2;
    assert(version.encoding() =~= f1 + r1);
    lemma_numbers_round_trip(version.major, 0, 0);
    lemma_numbers_round_trip(version.minor, 0, 0);
    lemma_numbers_round_trip(version.patch, 0, 0);
    let a0 = ProtocolVersion::zero();
    let a1 = ProtocolVersion { major: version.major, ..a0 };
    let a2 = ProtocolVersion { minor: version.minor, ..a1 };
    let a3 = ProtocolVersion { patch: version.patch, ..a2 };
    let s1 = lemma_step_uint(1, version.major as u64, r1);
    lemma_version_step(a0, f1, r1, s1, a1);
    let s2 = lemma_step_uint(2, version.minor as u64, r2);
    lemma_version_step(a1, f2, r2, s2, a2);
    let s3 = lemma_step_uint(3, version.patch as u64, none);
    lemma_version_step(a2, f3, none, s3, a3);
    assert(a3 == version);
    lemma_read_varint(version.major as u64, none);
    lemma_read_varint(version.minor as u64, none);
    lemma_read_varint(version.patch as u64, none);
    lemma_read_key(1, 0, none);
    lemma_read_key(2, 0, none);
    lemma_read_key(3, 0, none);
}

/// Joining is associative.
proof fn lemma_join(a: Seq<u8>, b: Seq<u8>, c: Seq<u8>)
    ensures
        (a + b) + c == a + (b + c),
{
    assert((a + b) + c =~= a + (b + c));
}

impl SessionRequestView {
    /// Whether the request fits the wire: no text, byte string or embedded
    /// message of it is longer than a length can say.
    pub open spec fn fits(self) -> bool {
        &&& encode_utf8(self.session_id).len() <= u64::MAX
        &&& encode_utf8(self.target_device_code).len() <= u64::MAX
        &&& packed_ints(self.supported_video_codecs).len() <= u64::MAX
        &&& self.nonce.len() <= u64::MAX
        &&& self.signature.len() <= u64::MAX
        &&& self.from matches Some(from) ==> from.fits_within()
    }

    /// Whether the request fits the wire as a part of an envelope.
    pub open spec fn fits_within(self) -> bool {
        self.fits() && self.encoding().len() <= u64::MAX
    }
}

proof fn lemma_request_step(
    acc: SessionRequestView,
    field: Seq<u8>,
    rest: Seq<u8>,
    read: Option<WireField>,
    next: SessionRequestView,
)
    requires
        is_step(field, rest, read),
        match read {
            Some(found) => acc.with_field(found.number, found.value) == Some(next),
            None => next == acc,
        },
    ensures
        acc.read_onto(field + rest) == next.read_onto(rest),
{
    if field.len() == 0 {
        assert(field + rest =~= rest);
    }
}

proof fn lemma_request_layout(m: SessionRequestView)
    ensures
        m.encoding() == string_field(1, m.session_id)
            + (message_field(2, identity_encoding(m.from))
            + (int_field(3, m.requested_role as int)
            + (string_field(4, m.target_device_code)
            + (bytes_field(5, packed_ints(m.supported_video_codecs))
            + (bool_field(6, m.allow_relay)
            + (uint_field(7, m.preferred_max_fps as nat)
            + (uint_field(8, m.preferred_max_width as nat)
            + (uint_field(9, m.preferred_max_height as nat)
            + (bytes_field(10, m.nonce)
            + (int_field(11, m.unix_ms as int)
            + (bytes_field(12, m.signature)
            + (message_field(13, version_encoding(m.version))
            + Seq::<u8>::empty())))))))))))),
{
    let f1 = string_field(1, m.session_id);
    let f2 = message_field(2, identity_encoding(m.from));
    let f3 = int_field(3, m.requested_role as int);
    let f4 = string_field(4, m.target_device_code);
    let f5 = bytes_field(5, packed_ints(m.supported_video_codecs));
    let f6 = bool_field(6, m.allow_relay);
    let f7 = uint_field(7, m.preferred_max_fps as nat);
    let f8 = uint_field(8, m.preferred_max_width as nat);
    let f9 = uint_field(9, m.preferred_max_height as nat);
    let f10 = bytes_field(10, m.nonce);
    let f11 = int_field(11, m.unix_ms as int);
    let f12 = bytes_field(12, m.signature);
    let f13 = message_field(13, version_encoding(m.version));
    let none = Seq::<u8>::empty();
    let r12 = f13 + none;
    let r11 = f12 + r12;
    let r10 = f11 + r11;
    let r9 = f10 + r10;
    let r8 = f9 + r9;
    let r7 = f8 + r8;
    let r6 = f7 + r7;
    let r5 = f6 + r6;
    let r4 = f5 + r5;
    let r3 = f4 + r4;
    let r2 = f3 + r3;
    let r1 = f2 + r2;
    assert(f13 + none =~= f13);
    let front1 = f1;
    let front2 = front1 + f2;
    let front3 = front2 + f3;
    let front4 = front3 + f4;
    let front5 = front4 + f5;
    let front6 = front5 + f6;
    let front7 = front6 + f7;
    let front8 = front7 + f8;
    let front9 = front8 + f9;
    let front10 = front9 + f10;
    let front11 = front10 + f11;
    let front12 = front11 + f12;
    lemma_join(front11, f12, r12);
    lemma_join(front10, f11, r11);
    lemma_join(front9, f10, r10);
    lemma_join(front8, f9, r9);
    lemma_join(front7, f8, r8);
    lemma_join(front6, f7, r7);
    lemma_join(front5, f6, r6);
    lemma_join(front4, f5, r5);
    lemma_join(front3, f4, r4);
    lemma_join(front2, f3, r3);
    lemma_join(front1, f2, r2);
}

/// Reading the front fields of a session request, whatever follows them.
proof fn lemma_request_front(acc: SessionRequestView, m: SessionRequestView, rest: Seq<u8>)
    requires
        m.fits(),
        acc.session_id == Seq::<char>::empty(),
        acc.from is None,
        acc.requested_role == 0,
        acc.target_device_code == Seq::<char>::empty(),
    ensures
        acc.read_onto(
            string_field(1, m.session_id)
                + (message_field(2, identity_encoding(m.from))
                + (int_field(3, m.requested_role as int)
                + (string_field(4, m.target_device_code)
                + rest))),
        ) == (SessionRequestView {
            session_id: m.session_id,
            from: m.from,
            requested_role: m.requested_role,
            target_device_code: m.target_device_code,
            ..acc
        }).read_onto(rest),
{
    let f1 = string_field(1, m.session_id);
    let f2 = message_field(2, identity_encoding(m.from));
    let f3 = int_field(3, m.requested_role as int);
    let f4 = string_field(4, m.target_device_code);
    let r4 = f4 + rest;
    let r3 = f3 + r4;
    let r2 = f2 + r3;
    let a1 = SessionRequestView { session_id: m.session_id, ..acc };
    let a2 = SessionRequestView { from: m.from, ..a1 };
    let a3 = SessionRequestView { requested_role: m.requested_role, ..a2 };
    let a4 = SessionRequestView { target_device_code: m.target_device_code, ..a3 };
    assert(acc.read_onto(f1 + r2) == a1.read_onto(r2)) by {
        let read = lemma_step_string(1, m.session_id, r2);
        lemma_request_step(acc, f1, r2, read, a1);
    }
    assert(a1.read_onto(f2 + r3) == a2.read_onto(r3)) by {
        match m.from {
            Some(identity) => {
                lemma_identity_round_trip(identity);
            },
            None => {},
        }
        let read = lemma_step_message(2, identity_encoding(m.from), r3);
        lemma_request_step(a1, f2, r3, read, a2);
    }
    assert(a2.read_onto(f3 + r4) == a3.read_onto(r4)) by {
        lemma_numbers_round_trip(0, m.requested_role, 0);
        let read = lemma_step_int(3, m.requested_role as int, r4);
        lemma_request_step(a2, f3, r4, read, a3);
    }
    assert(a3.read_onto(f4 + rest) == a4.read_onto(rest)) by {
        let read = lemma_step_string(4, m.target_device_code, rest);
        lemma_request_step(a3, f4, rest, read, a4);
    }
}

/// Reading the middle fields of a session request, whatever follows them.
proof fn lemma_request_middle(acc: SessionRequestView, m: SessionRequestView, rest: Seq<u8>)
    requires
        m.fits(),
        acc.supported_video_codecs == Seq::<i32>::empty(),
        !acc.allow_relay,
        acc.preferred_max_fps == 0,
        acc.preferred_max_width == 0,
        acc.preferred_max_height == 0,
    ensures
        acc.read_onto(
            bytes_field(5, packed_ints(m.supported_video_codecs))
                + (bool_field(6, m.allow_relay)
                + (uint_field(7, m.preferred_max_fps as nat)
                + (uint_field(8, m.preferred_max_width as nat)
                + (uint_field(9, m.preferred_max_height as nat)
                + rest)))),
        ) == (SessionRequestView {
            supported_video_codecs: m.supported_video_codecs,
            allow_relay: m.allow_relay,
            preferred_max_fps: m.preferred_max_fps,
            preferred_max_width: m.preferred_max_width,
            preferred_max_height: m.preferred_max_height,
            ..acc
        }).read_onto(rest),
{
    let f5 = bytes_field(5, packed_ints(m.supported_video_codecs));
    let f6 = bool_field(6, m.allow_relay);
    let f7 = uint_field(7, m.preferred_max_fps as nat);
    let f8 = uint_field(8, m.preferred_max_width as nat);
    let f9 = uint_field(9, m.preferred_max_height as nat);
    let r9 = f9 + rest;
    let r8 = f8 + r9;
    let r7 = f7 + r8;
    let r6 = f6 + r7;
    let a5 = SessionRequestView { supported_video_codecs: m.supported_video_codecs, ..acc };
    let a6 = SessionRequestView { allow_relay: m.allow_relay, ..a5 };
    let a7 = SessionRequestView { preferred_max_fps: m.preferred_max_fps, ..a6 };
    let a8 = SessionRequestView { preferred_max_width: m.preferred_max_width, ..a7 };
    let a9 = SessionRequestView { preferred_max_height: m.preferred_max_height, ..a8 };
    assert(acc.read_onto(f5 + r6) == a5.read_onto(r6)) by {
        lemma_unpack(Seq::<i32>::empty(), m.supported_video_codecs);
        assert(Seq::<i32>::empty() + m.supported_video_codecs =~= m.supported_video_codecs);
        let read = lemma_step_bytes(5, packed_ints(m.supported_video_codecs), r6);
        if read is None {
            assert(m.supported_video_codecs =~= Seq::<i32>::empty());
        }
        lemma_request_step(acc, f5, r6, read, a5);
    }
    assert(a5.read_onto(f6 + r7) == a6.read_onto(r7)) by {
        let read = lemma_step_bool(6, m.allow_relay, r7);
        lemma_request_step(a5, f6, r7, read, a6);
    }
    assert(a6.read_onto(f7 + r8) == a7.read_onto(r8)) by {
        lemma_numbers_round_trip(m.preferred_max_fps, 0, 0);
        let read = lemma_step_uint(7, m.preferred_max_fps as u64, r8);
        lemma_request_step(a6, f7, r8, read, a7);
    }
    assert(a7.read_onto(f8 + r9) == a8.read_onto(r9)) by {
        lemma_numbers_round_trip(m.preferred_max_width, 0, 0);
        let read = lemma_step_uint(8, m.preferred_max_width as u64, r9);
        lemma_request_step(a7, f8, r9, read, a8);
    }
    assert(a8.read_onto(f9 + rest) == a9.read_onto(rest)) by {
        lemma_numbers_round_trip(m.preferred_max_height, 0, 0);
        let read = lemma_step_uint(9, m.preferred_max_height as u64, rest);
        lemma_request_step(a8, f9, rest, read, a9);
    }
}

/// Reading the back fields of a session request, whatever follows them.
proof fn lemma_request_back(acc: SessionRequestView, m: SessionRequestView, rest: Seq<u8>)
    requires
        m.fits(),
        acc.nonce == Seq::<u8>::empty(),
        acc.unix_ms == 0,
        acc.signature == Seq::<u8>::empty(),
        acc.version is None,
    ensures
        acc.read_onto(
            bytes_field(10, m.nonce)
                + (int_field(11, m.unix_ms as int)
                + (bytes_field(12, m.signature)
                + (message_field(13, version_encoding(m.version))
                + rest))),
        ) == (SessionRequestView {
            nonce: m.nonce,
            unix_ms: m.unix_ms,
            signature: m.signature,
            version: m.version,
            ..acc
        }).read_onto(rest),
{
    let f10 = bytes_field(10, m.nonce);
    let f11 = int_field(11, m.unix_ms as int);
    let f12 = bytes_field(12, m.signature);
    let f13 = message_field(13, version_encoding(m.version));
    let r13 = f13 + rest;
    let r12 = f12 + r13;
    let r11 = f11 + r12;
    let a10 = SessionRequestView { nonce: m.nonce, ..acc };
    let a11 = SessionRequestView { unix_ms: m.unix_ms, ..a10 };
    let a12 = SessionRequestView { signature: m.signature, ..a11 };
    let a13 = SessionRequestView { version: m.version, ..a12 };
    assert(acc.read_onto(f10 + r11) == a10.read_onto(r11)) by {
        let read = lemma_step_bytes(10, m.nonce, r11);
        lemma_request_step(acc, f10, r11, read, a10);
    }
    assert(a10.read_onto(f11 + r12) == a11.read_onto(r12)) by {
        lemma_numbers_round_trip(0, 0, m.unix_ms);
        let read = lemma_step_int(11, m.unix_ms as int, r12);
        lemma_request_step(a10, f11, r12, read, a11);
    }
    assert(a11.read_onto(f12 + r13) == a12.read_onto(r13)) by {
        let read = lemma_step_bytes(12, m.signature, r13);
        lemma_request_step(a11, f12, r13, read, a12);
    }
    assert(a12.read_onto(f13 + rest) == a13.read_onto(rest)) by {
        match m.version {
            Some(version) => {
                lemma_version_round_trip(version);
            },
            None => {},
        }
        let read = lemma_step_message(13, version_encoding(m.version), rest);
        lemma_request_step(a12, f13, rest, read, a13);
    }
}

/// A session request is read back from its wire form as itself.
pub proof fn lemma_request_round_trip(request: SessionRequestView)
    requires
        request.fits(),
    ensures
        SessionRequestView::empty().read_onto(request.encoding()) == Some(request),
{
    let m = request;
    let none = Seq::<u8>::empty();
    let back_part = bytes_field(10, m.nonce)
        + (int_field(11, m.unix_ms as int)
        + (bytes_field(12, m.signature)
        + (message_field(13, version_encoding(m.version))
        + none)));
    let middle_part = bytes_field(5, packed_ints(m.supported_video_codecs))
        + (bool_field(6, m.allow_relay)
        + (uint_field(7, m.preferred_max_fps as nat)
        + (uint_field(8, m.preferred_max_width as nat)
        + (uint_field(9, m.preferred_max_height as nat)
        + back_part))));
    lemma_request_layout(m);
    let a0 = SessionRequestView::empty();
    let a1 = SessionRequestView {
        session_id: m.session_id,
        from: m.from,
        requested_role: m.requested_role,
        target_device_code: m.target_device_code,
        ..a0
    };
    lemma_request_front(a0, m, middle_part);
    let a2 = SessionRequestView {
        supported_video_codecs: m.supported_video_codecs,
        allow_relay: m.allow_relay,
        preferred_max_fps: m.preferred_max_fps,
        preferred_max_width: m.preferred_max_width,
        preferred_max_height: m.preferred_max_height,
        ..a1
    };
    lemma_request_middle(a1, m, back_part);
    let a3 = SessionRequestView {
        nonce: m.nonce,
        unix_ms: m.unix_ms,
        signature: m.signature,
        version: m.version,
        ..a2
    };
    lemma_request_back(a2, m, none);
    assert(a3 == m);
}

impl SessionAcceptView {
    /// Whether the accept fits the wire.
    pub open spec fn fits(self) -> bool {
        &&& encode_utf8(self.session_id).len() <= u64::MAX
        &&& encode_utf8(self.path_id).len() <= u64::MAX
        &&& self.nonce.len() <= u64::MAX
        &&& self.signature.len() <= u64::MAX
        &&& self.request_nonce.len() <= u64::MAX
        &&& self.from matches Some(from) ==> from.fits_within()
    }

    /// Whether the accept fits the wire as a part of an envelope.
    pub open spec fn fits_within(self) -> bool {
        self.fits() && self.encoding().len() <= u64::MAX
    }
}

proof fn lemma_accept_step(
    acc: SessionAcceptView,
    field: Seq<u8>,
    rest: Seq<u8>,
    read: Option<WireField>,
    next: SessionAcceptView,
)
    requires
        is_step(field, rest, read),
        match read {
            Some(found) => acc.with_field(found.number, found.value) == Some(next),
            None => next == acc,
        },
    ensures
        acc.read_onto(field + rest) == next.read_onto(rest),
{
    if field.len() == 0 {
        assert(field + rest =~= rest);
    }
}

proof fn lemma_accept_layout(m: SessionAcceptView)
    ensures
        m.encoding() == string_field(1, m.session_id)
            + (int_field(2, m.selected_codec as int)
            + (uint_field(3, m.selected_fps as nat)
            + (uint_field(4, m.selected_width as nat)
            + (uint_field(5, m.selected_height as nat)
            + (bool_field(6, m.using_relay)
            + (string_field(7, m.path_id)
            + (message_field(8, identity_encoding(m.from))
            + (bytes_field(9, m.nonce)
            + (int_field(10, m.unix_ms as int)
            + (bytes_field(11, m.signature)
            + (bytes_field(12, m.request_nonce)
            + Seq::<u8>::empty()))))))))))),
{
    let f1 = string_field(1, m.session_id);
    let f2 = int_field(2, m.selected_codec as int);
    let f3 = uint_field(3, m.selected_fps as nat);
    let f4 = uint_field(4, m.selected_width as nat);
    let f5 = uint_field(5, m.selected_height as nat);
    let f6 = bool_field(6, m.using_relay);
    let f7 = string_field(7, m.path_id);
    let f8 = message_field(8, identity_encoding(m.from));
    let f9 = bytes_field(9, m.nonce);
    let f10 = int_field(10, m.unix_ms as int);
    let f11 = bytes_field(11, m.signature);
    let f12 = bytes_field(12, m.request_nonce);
    let none = Seq::<u8>::empty();
    let r11 = f12 + none;
    let r10 = f11 + r11;
    let r9 = f10 + r10;
    let r8 = f9 + r9;
    let r7 = f8 + r8;
    let r6 = f7 + r7;
    let r5 = f6 + r6;
    let r4 = f5 + r5;
    let r3 = f4 + r4;
    let r2 = f3 + r3;
    let r1 = f2 + r2;
    assert(f12 + none =~= f12);
    let front1 = f1;
    let front2 = front1 + f2;
    let front3 = front2 + f3;
    let front4 = front3 + f4;
    let front5 = front4 + f5;
    let front6 = front5 + f6;
    let front7 = front6 + f7;
    let front8 = front7 + f8;
    let front9 = front8 + f9;
    let front10 = front9 + f10;
    let front11 = front10 + f11;
    lemma_join(front10, f11, r11);
    lemma_join(front9, f10, r10);
    lemma_join(front8, f9, r9);
    lemma_join(front7, f8, r8);
    lemma_join(front6, f7, r7);
    lemma_join(front5, f6, r6);
    lemma_join(front4, f5, r5);
    lemma_join(front3, f4, r4);
    lemma_join(front2, f3, r3);
    lemma_join(front1, f2, r2);
}

/// Reading the front fields of a session accept, whatever follows them.
proof fn lemma_accept_front(acc: SessionAcceptView, m: SessionAcceptView, rest: Seq<u8>)
    requires
        m.fits(),
        acc.session_id == Seq::<char>::empty(),
        acc.selected_codec == 0,
        acc.selected_fps == 0,
        acc.selected_width == 0,
    ensures
        acc.read_onto(
            string_field(1, m.session_id)
                + (int_field(2, m.selected_codec as int)
                + (uint_field(3, m.selected_fps as nat)
                + (uint_field(4, m.selected_width as nat)
                + rest))),
        ) == (SessionAcceptView {
            session_id: m.session_id,
            selected_codec: m.selected_codec,
            selected_fps: m.selected_fps,
            selected_width: m.selected_width,
            ..acc
        }).read_onto(rest),
{
    let f1 = string_field(1, m.session_id);
    let f2 = int_field(2, m.selected_codec as int);
    let f3 = uint_field(3, m.selected_fps as nat);
    let f4 = uint_field(4, m.selected_width as nat);
    let r4 = f4 + rest;
    let r3 = f3 + r4;
    let r2 = f2 + r3;
    let a1 = SessionAcceptView { session_id: m.session_id, ..acc };
    let a2 = SessionAcceptView { selected_codec: m.selected_codec, ..a1 };
    let a3 = SessionAcceptView { selected_fps: m.selected_fps, ..a2 };
    let a4 = SessionAcceptView { selected_width: m.selected_width, ..a3 };
    assert(acc.read_onto(f1 + r2) == a1.read_onto(r2)) by {
        let read = lemma_step_string(1, m.session_id, r2);
        lemma_accept_step(acc, f1, r2, read, a1);
    }
    assert(a1.read_onto(f2 + r3) == a2.read_onto(r3)) by {
        lemma_numbers_round_trip(0, m.selected_codec, 0);
        let read = lemma_step_int(2, m.selected_codec as int, r3);
        lemma_accept_step(a1, f2, r3, read, a2);
    }
    assert(a2.read_onto(f3 + r4) == a3.read_onto(r4)) by {
        lemma_numbers_round_trip(m.selected_fps, 0, 0);
        let read = lemma_step_uint(3, m.selected_fps as u64, r4);
        lemma_accept_step(a2, f3, r4, read, a3);
    }
    assert(a3.read_onto(f4 + rest) == a4.read_onto(rest)) by {
        lemma_numbers_round_trip(m.selected_width, 0, 0);
        let read = lemma_step_uint(4, m.selected_width as u64, rest);
        lemma_accept_step(a3, f4, rest, read, a4);
    }
}

/// Reading the middle fields of a session accept, whatever follows them.
proof fn lemma_accept_middle(acc: SessionAcceptView, m: SessionAcceptView, rest: Seq<u8>)
    requires
        m.fits(),
        acc.selected_height == 0,
        !acc.using_relay,
        acc.path_id == Seq::<char>::empty(),
        acc.from is None,
    ensures
        acc.read_onto(
            uint_field(5, m.selected_height as nat)
                + (bool_field(6, m.using_relay)
                + (string_field(7, m.path_id)
                + (message_field(8, identity_encoding(m.from))
                + rest))),
        ) == (SessionAcceptView {
            selected_height: m.selected_height,
            using_relay: m.using_relay,
            path_id: m.path_id,
            from: m.from,
            ..acc
        }).read_onto(rest),
{
    let f5 = uint_field(5, m.selected_height as nat);
    let f6 = bool_field(6, m.using_relay);
    let f7 = string_field(7, m.path_id);
    let f8 = message_field(8, identity_encoding(m.from));
    let r8 = f8 + rest;
    let r7 = f7 + r8;
    let r6 = f6 + r7;
    let a5 = SessionAcceptView { selected_height: m.selected_height, ..acc };
    let a6 = SessionAcceptView { using_relay: m.using_relay, ..a5 };
    let a7 = SessionAcceptView { path_id: m.path_id, ..a6 };
    let a8 = SessionAcceptView { from: m.from, ..a7 };
    assert(acc.read_onto(f5 + r6) == a5.read_onto(r6)) by {
        lemma_numbers_round_trip(m.selected_height, 0, 0);
        let read = lemma_step_uint(5, m.selected_height as u64, r6);
        lemma_accept_step(acc, f5, r6, read, a5);
    }
    assert(a5.read_onto(f6 + r7) == a6.read_onto(r7)) by {
        let read = lemma_step_bool(6, m.using_relay, r7);
        lemma_accept_step(a5, f6, r7, read, a6);
    }
    assert(a6.read_onto(f7 + r8) == a7.read_onto(r8)) by {
        let read = lemma_step_string(7, m.path_id, r8);
        lemma_accept_step(a6, f7, r8, read, a7);
    }
    assert(a7.read_onto(f8 + rest) == a8.read_onto(rest)) by {
        match m.from {
            Some(identity) => {
                lemma_identity_round_trip(identity);
            },
            None => {},
        }
        let read = lemma_step_message(8, identity_encoding(m.from), rest);
        lemma_accept_step(a7, f8, rest, read, a8);
    }
}

/// Reading the back fields of a session accept, whatever follows them.
proof fn lemma_accept_back(acc: SessionAcceptView, m: SessionAcceptView, rest: Seq<u8>)
    requires
        m.fits(),
        acc.nonce == Seq::<u8>::empty(),
        acc.unix_ms == 0,
        acc.signature == Seq::<u8>::empty(),
        acc.request_nonce == Seq::<u8>::empty(),
    ensures
        acc.read_onto(
            bytes_field(9, m.nonce)
                + (int_field(10, m.unix_ms as int)
                + (bytes_field(11, m.signature)
                + (bytes_field(12, m.request_nonce)
                + rest))),
        ) == (SessionAcceptView {
            nonce: m.nonce,
            unix_ms: m.unix_ms,
            signature: m.signature,
            request_nonce: m.request_nonce,
            ..acc
        }).read_onto(rest),
{
    let f9 = bytes_field(9, m.nonce);
    let f10 = int_field(10, m.unix_ms as int);
    let f11 = bytes_field(11, m.signature);
    let f12 = bytes_field(12, m.request_nonce);
    let r12 = f12 + rest;
    let r11 = f11 + r12;
    let r10 = f10 + r11;
    let a9 = SessionAcceptView { nonce: m.nonce, ..acc };
    let a10 = SessionAcceptView { unix_ms: m.unix_ms, ..a9 };
    let a11 = SessionAcceptView { signature: m.signature, ..a10 };
    let a12 = SessionAcceptView { request_nonce: m.request_nonce, ..a11 };
    assert(acc.read_onto(f9 + r10) == a9.read_onto(r10)) by {
        let read = lemma_step_bytes(9, m.nonce, r10);
        lemma_accept_step(acc, f9, r10, read, a9);
    }
    assert(a9.read_onto(f10 + r11) == a10.read_onto(r11)) by {
        lemma_numbers_round_trip(0, 0, m.unix_ms);
        let read = lemma_step_int(10, m.unix_ms as int, r11);
        lemma_accept_step(a9, f10, r11, read, a10);
    }
    assert(a10.read_onto(f11 + r12) == a11.read_onto(r12)) by {
        let read = lemma_step_bytes(11, m.signature, r12);
        lemma_accept_step(a10, f11, r12, read, a11);
    }
    assert(a11.read_onto(f12 + rest) == a12.read_onto(rest)) by {
        let read = lemma_step_bytes(12, m.request_nonce, rest);
        lemma_accept_step(a11, f12, rest, read, a12);
    }
}

/// A session accept is read back from its wire form as itself.
pub proof fn lemma_accept_round_trip(accept: SessionAcceptView)
    requires
        accept.fits(),
    ensures
        SessionAcceptView::empty().read_onto(accept.encoding()) == Some(accept),
{
    let m = accept;
    let none = Seq::<u8>::empty();
    let back_part = bytes_field(9, m.nonce)
        + (int_field(10, m.unix_ms as int)
        + (bytes_field(11, m.signature)
        + (bytes_field(12, m.request_nonce)
        + none)));
    let middle_part = uint_field(5, m.selected_height as nat)
        + (bool_field(6, m.using_relay)
        + (string_field(7, m.path_id)
        + (message_field(8, identity_encoding(m.from))
        + back_part)));
    lemma_accept_layout(m);
    let a0 = SessionAcceptView::empty();
    let a1 = SessionAcceptView {
        session_id: m.session_id,
        selected_codec: m.selected_codec,
        selected_fps: m.selected_fps,
        selected_width: m.selected_width,
        ..a0
    };
    lemma_accept_front(a0, m, middle_part);
    let a2 = SessionAcceptView {
        selected_height: m.selected_height,
        using_relay: m.using_relay,
        path_id: m.path_id,
        from: m.from,
        ..a1
    };
    lemma_accept_middle(a1, m, back_part);
    let a3 = SessionAcceptView {
        nonce: m.nonce,
        unix_ms: m.unix_ms,
        signature: m.signature,
        request_nonce: m.request_nonce,
        ..a2
    };
    lemma_accept_back(a2, m, none);
    assert(a3 == m);
}

impl ControlMessageView {
    /// Whether the message fits the wire.
    pub open spec fn fits(self) -> bool {
        match self {
            ControlMessageView::SessionRequest(m) => m.fits_within(),
            ControlMessageView::SessionAccept(m) => m.fits_within(),
            ControlMessageView::SessionReject(m) => m.fits() && m.encoding().len() <= u64::MAX,
            ControlMessageView::Ping(m) => m.fits() && m.encoding().len() <= u64::MAX,
            ControlMessageView::Pong(m) => m.fits() && m.encoding().len() <= u64::MAX,
        }
    }
}

impl ControlEnvelopeView {
    /// Whether the envelope fits the wire.
    pub open spec fn fits(self) -> bool {
        &&& encode_utf8(self.request_id).len() <= u64::MAX
        &&& self.message matches Some(message) ==> message.fits()
    }
}

proof fn lemma_envelope_step(
    acc: ControlEnvelopeView,
    field: Seq<u8>,
    rest: Seq<u8>,
    read: Option<WireField>,
    next: ControlEnvelopeView,
)
    requires
        is_step(field, rest, read),
        match read {
            Some(found) => acc.with_field(found.number, found.value) == Some(next),
            None => next == acc,
        },
    ensures
        acc.read_onto(field + rest) == next.read_onto(rest),
{
    if field.len() == 0 {
        assert(field + rest =~= rest);
    }
}

/// Reading undoes writing: an envelope is read back from its wire form as
/// itself.
pub proof fn lemma_envelope_round_trip(envelope: ControlEnvelopeView)
    requires
        envelope.fits(),
    ensures
        ControlEnvelopeView::decoding(envelope.encoding()) == Some(envelope),
{
    let m = envelope;
    let f1 = uint_field(1, m.seq as nat);
    let f2 = string_field(2, m.request_id);
    let f3 = match m.message {
        Some(message) => message.encoding(),
        None => Seq::<u8>::empty(),
    };
    let none = Seq::<u8>::empty();
    let r2 = f3 + none;
    let r1 = f2 + r2;
    assert(m.encoding() =~= f1 + r1);
    let a0 = ControlEnvelopeView::empty();
    let a1 = ControlEnvelopeView { seq: m.seq, ..a0 };
    let a2 = ControlEnvelopeView { request_id: m.request_id, ..a1 };
    let a3 = ControlEnvelopeView { message: m.message, ..a2 };
    let s1 = lemma_step_uint(1, m.seq, r1);
    lemma_envelope_step(a0, f1, r1, s1, a1);
    let s2 = lemma_step_string(2, m.request_id, r2);
    lemma_envelope_step(a1, f2, r2, s2, a2);
    match m.message {
        None => {
            lemma_envelope_step(a2, f3, none, None, a3);
        },
        Some(ControlMessageView::SessionRequest(inner)) => {
            lemma_request_round_trip(inner);
            let s3 = lemma_step_message(3, Some(inner.encoding()), none);
            lemma_envelope_step(a2, f3, none, s3, a3);
        },
        Some(ControlMessageView::SessionAccept(inner)) => {
            lemma_accept_round_trip(inner);
            let s3 = lemma_step_message(4, Some(inner.encoding()), none);
            lemma_envelope_step(a2, f3, none, s3, a3);
        },
        Some(ControlMessageView::SessionReject(inner)) => {
            lemma_reject_round_trip(inner);
            let s3 = lemma_step_message(5, Some(inner.encoding()), none);
            lemma_envelope_step(a2, f3, none, s3, a3);
        },
        Some(ControlMessageView::Ping(inner)) => {
            lemma_ping_round_trip(inner);
            let s3 = lemma_step_message(6, Some(inner.encoding()), none);
            lemma_envelope_step(a2, f3, none, s3, a3);
        },
        Some(ControlMessageView::Pong(inner)) => {
            lemma_pong_round_trip(inner);
            let s3 = lemma_step_message(7, Some(inner.encoding()), none);
            lemma_envelope_step(a2, f3, none, s3, a3);
        },
    }
    assert(a3 == m);
}

} // verus!

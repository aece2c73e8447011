//! Reading the control messages from their wire form.
//!
//! A message is read field by field. A field whose number the message does
//! not know is passed over, whatever it holds; a known field of another
//! wire type than its own, text that is no UTF-8, a length that reaches
//! past the end, a varint of more than ten bytes or beyond 64 bits, and the
//! group wire types make the whole message unreadable. Where a number
//! occurs again the later value stands; an embedded message that occurs
//! again is read on top of what was read before, and a repeated field grows.

use crate::wire::{
    ControlEnvelope, ControlEnvelopeView, ControlMessage, ControlMessageView, DeviceIdentity,
    DeviceIdentityView, Ping, PingView, Pong, PongView, ProtocolVersion, SessionAccept,
    SessionAcceptView, SessionReject, SessionRejectView, SessionRequest, SessionRequestView,
};
use vstd::prelude::*;
use vstd::slice::{slice_subrange, slice_to_vec};
use vstd::utf8::{decode_utf8, encode_utf8, encode_utf8_decode_utf8, valid_utf8};

verus! {

/// The varint at the front of `bytes`, read over `limit` bytes at most: its
/// value and the number of bytes it takes.
pub open spec fn parse_varint(bytes: Seq<u8>, limit: nat) -> Option<(nat, nat)>
    decreases limit,
{
    if limit == 0 || bytes.len() == 0 {
        None
    } else if bytes[0] < 128 {
        Some((bytes[0] as nat, 1nat))
    } else {
        match parse_varint(bytes.drop_first(), (limit - 1) as nat) {
            Some((value, length)) => Some((((bytes[0] - 128) + 128 * value) as nat, length + 1)),
            None => None,
        }
    }
}

/// The varint at the front of `bytes`: at most ten bytes, and a value
/// within 64 bits.
pub open spec fn read_varint(bytes: Seq<u8>) -> Option<(u64, nat)> {
    match parse_varint(bytes, 10) {
        Some((value, length)) => if value <= u64::MAX {
            Some((value as u64, length))
        } else {
            None
        },
        None => None,
    }
}

/// `128` to the power of `limit`.
pub open spec fn cap(limit: nat) -> nat
    decreases limit,
{
    if limit == 0 {
        1
    } else {
        128 * cap((limit - 1) as nat)
    }
}

proof fn lemma_cap(limit: nat)
    requires
        limit <= 10,
    ensures
        1 <= cap(limit) <= 0x40_0000_0000_0000_0000,
        limit > 0 ==> cap(limit) == 128 * cap((limit - 1) as nat),
    decreases limit,
{
    if limit > 0 {
        lemma_cap((limit - 1) as nat);
        reveal_with_fuel(cap, 11);
    }
}

/// A varint takes at least one byte and no more than there are, and its
/// value stays below what its bytes can hold.
pub proof fn lemma_parse_varint_bounds(bytes: Seq<u8>, limit: nat)
    ensures
        parse_varint(bytes, limit) matches Some((value, length)) ==> 1 <= length <= limit
            && length <= bytes.len() && value < cap(length),
    decreases limit,
{
    if limit > 0 && bytes.len() > 0 && bytes[0] >= 128 {
        lemma_parse_varint_bounds(bytes.drop_first(), (limit - 1) as nat);
        match parse_varint(bytes.drop_first(), (limit - 1) as nat) {
            Some((value, length)) => {
                assert(cap(length + 1) == 128 * cap(length));
                assert((bytes[0] - 128) + 128 * value < 128 * cap(length)) by (nonlinear_arith)
                    requires
                        0 <= bytes[0] - 128 < 128,
                        0 <= value < cap(length),
                ;
            },
            None => {},
        }
    } else if limit > 0 && bytes.len() > 0 {
        assert(cap(1) == 128 * cap(0));
    }
}

fn take_varint_within(bytes: &[u8], pos: usize, limit: u8) -> (result: Option<(u128, usize)>)
    requires
        pos <= bytes@.len(),
        limit <= 10,
    ensures
        match parse_varint(bytes@.skip(pos as int), limit as nat) {
            Some((value, length)) => {
                &&& result matches Some((read, next))
                &&& read == value
                &&& next == pos + length
                &&& next <= bytes@.len()
                &&& value < cap(length)
                &&& length <= limit
            },
            None => result is None,
        },
    decreases limit,
{
    let ghost rest = bytes@.skip(pos as int);
    proof {
        lemma_parse_varint_bounds(rest, limit as nat);
    }
    if limit == 0 || pos >= bytes.len() {
        return None;
    }
    let first: u8 = bytes[pos];
    assert(rest[0] == first);
    if first < 128 {
        return Some((first as u128, pos + 1));
    }
    assert(rest.drop_first() =~= bytes@.skip(pos + 1));
    match take_varint_within(bytes, pos + 1, limit - 1) {
        Some((value, next)) => {
            proof {
                let length = (next - pos - 1) as nat;
                lemma_cap(length);
                assert(128 * value < 128 * cap(length)) by (nonlinear_arith)
                    requires
                        0 <= value < cap(length),
                ;
            }
            Some(((first - 128) as u128 + 128 * value, next))
        },
        None => None,
    }
}

/// Reads the varint at `pos`, and gives its value and the place after it.
pub fn take_varint(bytes: &[u8], pos: usize) -> (result: Option<(u64, usize)>)
    requires
        pos <= bytes@.len(),
    ensures
        match read_varint(bytes@.skip(pos as int)) {
            Some((value, length)) => {
                &&& result matches Some((read, next))
                &&& read == value
                &&& next == pos + length
                &&& pos < next <= bytes@.len()
            },
            None => result is None,
        },
{
    proof {
        lemma_parse_varint_bounds(bytes@.skip(pos as int), 10);
        match parse_varint(bytes@.skip(pos as int), 10) {
            Some((value, length)) => {
                lemma_cap(length);
            },
            None => {},
        }
    }
    match take_varint_within(bytes, pos, 10) {
        Some((value, next)) => {
            if value > u64::MAX as u128 {
                None
            } else {
                Some((value as u64, next))
            }
        },
        None => None,
    }
}

/// What a field holds, by its wire type.
pub enum WireValue {
    Varint(u64),
    Fixed64,
    Bytes(Seq<u8>),
    Fixed32,
}

/// A field as it is found on the wire: its number, what it holds, and how
/// many bytes it takes in all.
pub struct WireField {
    pub number: nat,
    pub value: WireValue,
    pub length: nat,
}

/// The field at the front of `bytes`.
pub open spec fn read_field(bytes: Seq<u8>) -> Option<WireField> {
    match read_varint(bytes) {
        None => None,
        Some((key, taken)) => {
            let number = (key / 8) as nat;
            let wire_type = key % 8;
            let rest = bytes.skip(taken as int);
            if number == 0 || key > u32::MAX {
                None
            } else if wire_type == 0 {
                match read_varint(rest) {
                    Some((value, more)) => Some(
                        WireField { number, value: WireValue::Varint(value), length: taken + more },
                    ),
                    None => None,
                }
            } else if wire_type == 1 {
                if rest.len() >= 8 {
                    Some(WireField { number, value: WireValue::Fixed64, length: taken + 8 })
                } else {
                    None
                }
            } else if wire_type == 2 {
                match read_varint(rest) {
                    Some((size, more)) => if more + size <= rest.len() {
                        Some(
                            WireField {
                                number,
                                value: WireValue::Bytes(
                                    rest.subrange(more as int, more + size as int),
                                ),
                                length: taken + more + size as nat,
                            },
                        )
                    } else {
                        None
                    },
                    None => None,
                }
            } else if wire_type == 5 {
                if rest.len() >= 4 {
                    Some(WireField { number, value: WireValue::Fixed32, length: taken + 4 })
                } else {
                    None
                }
            } else {
                None
            }
        },
    }
}

/// A field always takes bytes, and never more than there are.
pub proof fn lemma_read_field_bounds(bytes: Seq<u8>)
    ensures
        read_field(bytes) matches Some(field) ==> 1 <= field.length <= bytes.len(),
{
    lemma_parse_varint_bounds(bytes, 10);
    match read_varint(bytes) {
        Some((key, taken)) => {
            lemma_parse_varint_bounds(bytes.skip(taken as int), 10);
        },
        None => {},
    }
}

/// What a field holds, as the reader hands it out: a number, or the place
/// of its bytes.
#[derive(Debug, Clone, Copy, PartialEq, Eq)]
pub enum FieldValue {
    Varint(u64),
    Fixed64,
    Bytes { start: usize, end: usize },
    Fixed32,
}

#[derive(Debug, Clone, Copy, PartialEq, Eq)]
pub struct FieldAt {
    pub number: u32,
    pub value: FieldValue,
    pub next: usize,
}

/// Whether the field handed out at `pos` is the field found there.
pub open spec fn is_field_at(bytes: Seq<u8>, pos: int, found: FieldAt, field: WireField) -> bool {
    &&& found.number == field.number
    &&& found.next == pos + field.length
    &&& pos < found.next <= bytes.len()
    &&& match found.value {
        FieldValue::Varint(value) => field.value == WireValue::Varint(value),
        FieldValue::Fixed64 => field.value == WireValue::Fixed64,
        FieldValue::Fixed32 => field.value == WireValue::Fixed32,
        FieldValue::Bytes { start, end } => pos <= start <= end <= found.next && field.value
            == WireValue::Bytes(bytes.subrange(start as int, end as int)),
    }
}

/// Reads the field at `pos`.
pub fn take_field(bytes: &[u8], pos: usize) -> (result: Option<FieldAt>)
    requires
        pos <= bytes@.len(),
    ensures
        match read_field(bytes@.skip(pos as int)) {
            Some(field) => result matches Some(found) && is_field_at(
                bytes@,
                pos as int,
                found,
                field,
            ),
            None => result is None,
        },
{
    let ghost here = bytes@.skip(pos as int);
    let read: (u64, usize) = match take_varint(bytes, pos) {
        Some(read) => read,
        None => {
            return None;
        },
    };
    let key: u64 = read.0;
    let after_key: usize = read.1;
    if key > u32::MAX as u64 || key / 8 == 0 {
        return None;
    }
    let number: u32 = (key / 8) as u32;
    let wire_type: u64 = key % 8;
    let ghost taken = (after_key - pos) as int;
    let ghost rest = here.skip(taken);
    assert(rest =~= bytes@.skip(after_key as int));
    if wire_type == 0 {
        match take_varint(bytes, after_key) {
            Some((value, next)) => Some(FieldAt { number, value: FieldValue::Varint(value), next }),
            None => None,
        }
    } else if wire_type == 1 {
        if bytes.len() - after_key >= 8 {
            Some(FieldAt { number, value: FieldValue::Fixed64, next: after_key + 8 })
        } else {
            None
        }
    } else if wire_type == 2 {
        match take_varint(bytes, after_key) {
            Some((size, start)) => {
                if size <= (bytes.len() - start) as u64 {
                    let end: usize = start + size as usize;
                    proof {
                        let more = (start - after_key) as int;
                        assert(rest.subrange(more, more + size as int) =~= bytes@.subrange(
                            start as int,
                            end as int,
                        ));
                    }
                    Some(FieldAt { number, value: FieldValue::Bytes { start, end }, next: end })
                } else {
                    None
                }
            },
            None => None,
        }
    } else if wire_type == 5 {
        if bytes.len() - after_key >= 4 {
            Some(FieldAt { number, value: FieldValue::Fixed32, next: after_key + 4 })
        } else {
            None
        }
    } else {
        None
    }
}

/// The low 32 bits of a number.
pub open spec fn low_u32(value: u64) -> u32 {
    (value % 0x1_0000_0000) as u32
}

/// The low 32 bits of a number, read as a signed value.
pub open spec fn low_i32(value: u64) -> i32 {
    if value % 0x1_0000_0000 < 0x8000_0000 {
        (value % 0x1_0000_0000) as i32
    } else {
        (value % 0x1_0000_0000 - 0x1_0000_0000) as i32
    }
}

/// A number read as a signed value of 64 bits.
pub open spec fn as_i64(value: u64) -> i64 {
    if value < 0x8000_0000_0000_0000 {
        value as i64
    } else {
        (value - 0x1_0000_0000_0000_0000) as i64
    }
}

fn to_u32(value: u64) -> (low: u32)
    ensures
        low == low_u32(value),
{
    (value % 0x1_0000_0000) as u32
}

fn to_i32(value: u64) -> (low: i32)
    ensures
        low == low_i32(value),
{
    let low: u64 = value % 0x1_0000_0000;
    if low < 0x8000_0000 {
        low as i32
    } else {
        (low as i64 - 0x1_0000_0000) as i32
    }
}

fn to_i64(value: u64) -> (signed: i64)
    ensures
        signed == as_i64(value),
{
    if value < 0x8000_0000_0000_0000 {
        value as i64
    } else {
        (value as i128 - 0x1_0000_0000_0000_0000) as i64
    }
}

/// Reads text from its UTF-8 bytes with `std::str::from_utf8`: there is
/// text exactly where the bytes are valid UTF-8, and its bytes are those
/// given.
#[verifier::external_body]
fn text_from_utf8(bytes: &[u8]) -> (text: Option<String>)
    ensures
        match text {
            Some(t) => valid_utf8(bytes@) && encode_utf8(t@) == bytes@,
            None => !valid_utf8(bytes@),
        },
{
    match std::str::from_utf8(bytes) {
        Ok(text) => Some(text.to_owned()),
        Err(_) => None,
    }
}

/// The number a field holds, if it holds one.
pub open spec fn number_of(value: WireValue) -> Option<u64> {
    match value {
        WireValue::Varint(v) => Some(v),
        _ => None,
    }
}

/// The bytes a field holds, if it holds bytes.
pub open spec fn bytes_of(value: WireValue) -> Option<Seq<u8>> {
    match value {
        WireValue::Bytes(b) => Some(b),
        _ => None,
    }
}

/// The text a field holds, if it holds bytes that are UTF-8.
pub open spec fn text_of(value: WireValue) -> Option<Seq<char>> {
    match value {
        WireValue::Bytes(b) => if valid_utf8(b) {
            Some(decode_utf8(b))
        } else {
            None
        },
        _ => None,
    }
}

fn field_number(value: FieldValue) -> (number: Option<u64>)
    ensures
        forall|bytes: Seq<u8>, pos: int, found: FieldAt, field: WireField|
            found.value == value && #[trigger] is_field_at(bytes, pos, found, field) ==> number
                == number_of(field.value),
{
    match value {
        FieldValue::Varint(v) => Some(v),
        _ => None,
    }
}

fn field_bytes(bytes: &[u8], found: FieldAt) -> (held: Option<Vec<u8>>)
    requires
        found.next <= bytes@.len(),
        found.value matches FieldValue::Bytes { start, end } ==> start <= end <= found.next,
    ensures
        forall|pos: int, field: WireField| #[trigger]
            is_field_at(bytes@, pos, found, field) ==> match bytes_of(field.value) {
                Some(b) => held matches Some(v) && v@ == b,
                None => held is None,
            },
{
    match found.value {
        FieldValue::Bytes { start, end } => Some(slice_to_vec(slice_subrange(bytes, start, end))),
        _ => None,
    }
}

fn field_text(bytes: &[u8], found: FieldAt) -> (held: Option<String>)
    requires
        found.next <= bytes@.len(),
        found.value matches FieldValue::Bytes { start, end } ==> start <= end <= found.next,
    ensures
        forall|pos: int, field: WireField| #[trigger]
            is_field_at(bytes@, pos, found, field) ==> match text_of(field.value) {
                Some(t) => held matches Some(s) && s@ == t,
                None => held is None,
            },
{
    match found.value {
        FieldValue::Bytes { start, end } => {
            let part: &[u8] = slice_subrange(bytes, start, end);
            match text_from_utf8(part) {
                Some(text) => {
                    proof {
                        encode_utf8_decode_utf8(text@);
                    }
                    Some(text)
                },
                None => None,
            }
        },
        _ => None,
    }
}

/// The signed values that `bytes` hold as varints, one after the other,
/// added to `base`.
pub open spec fn unpacked_onto(base: Seq<i32>, bytes: Seq<u8>) -> Option<Seq<i32>>
    decreases bytes.len(),
{
    if bytes.len() == 0 {
        Some(base)
    } else {
        match read_varint(bytes) {
            Some((value, length)) => if 1 <= length <= bytes.len() {
                unpacked_onto(base.push(low_i32(value)), bytes.skip(length as int))
            } else {
                None
            },
            None => None,
        }
    }
}

fn unpack_onto(list: &mut Vec<i32>, bytes: &[u8], start: usize, end: usize) -> (ok: bool)
    requires
        start <= end <= bytes@.len(),
    ensures
        match unpacked_onto(old(list)@, bytes@.subrange(start as int, end as int)) {
            Some(values) => ok && final(list)@ == values,
            None => !ok,
        },
{
    let part: &[u8] = slice_subrange(bytes, start, end);
    let ghost base = list@;
    let mut pos: usize = 0;
    assert(part@.skip(0) =~= part@);
    while pos < part.len()
        invariant
            pos <= part@.len(),
            base == old(list)@,
            part@ == bytes@.subrange(start as int, end as int),
            unpacked_onto(list@, part@.skip(pos as int)) == unpacked_onto(base, part@),
        decreases part@.len() - pos,
    {
        match take_varint(part, pos) {
            Some((value, next)) => {
                proof {
                    assert(part@.skip(pos as int).skip(next - pos) =~= part@.skip(next as int));
                }
                list.push(to_i32(value));
                pos = next;
            },
            None => {
                return false;
            },
        }
    }
    true
}

impl DeviceIdentityView {
    pub open spec fn empty() -> DeviceIdentityView {
        DeviceIdentityView {
            peer_id: Seq::<u8>::empty(),
            identity_pubkey: Seq::<u8>::empty(),
            device_code: Seq::<char>::empty(),
        }
    }

    /// The identity after one more field was read.
    pub open spec fn with_field(self, number: nat, value: WireValue) -> Option<DeviceIdentityView> {
        if number == 1 {
            match bytes_of(value) {
                Some(b) => Some(DeviceIdentityView { peer_id: b, ..self }),
                None => None,
            }
        } else if number == 2 {
            match bytes_of(value) {
                Some(b) => Some(DeviceIdentityView { identity_pubkey: b, ..self }),
                None => None,
            }
        } else if number == 3 {
            match text_of(value) {
                Some(t) => Some(DeviceIdentityView { device_code: t, ..self }),
                None => None,
            }
        } else {
            Some(self)
        }
    }

    /// The identity after the fields of `bytes` were read on top of it.
    pub open spec fn read_onto(self, bytes: Seq<u8>) -> Option<DeviceIdentityView>
        decreases bytes.len(),
    {
        if bytes.len() == 0 {
            Some(self)
        } else {
            match read_field(bytes) {
                Some(field) => if 1 <= field.length <= bytes.len() {
                    match self.with_field(field.number, field.value) {
                        Some(next) => next.read_onto(bytes.skip(field.length as int)),
                        None => None,
                    }
                } else {
                    None
                },
                None => None,
            }
        }
    }
}

/// Reads the fields of an identity on top of `base`.
pub fn decode_identity_onto(base: DeviceIdentity, bytes: &[u8]) -> (result: Option<DeviceIdentity>)
    ensures
        match base@.read_onto(bytes@) {
            Some(view) => result matches Some(identity) && identity@ == view,
            None => result is None,
        },
{
    let ghost start = base@;
    let mut acc: DeviceIdentity = base;
    let mut pos: usize = 0;
    assert(bytes@.skip(0) =~= bytes@);
    while pos < bytes.len()
        invariant
            pos <= bytes@.len(),
            start == base@,
            acc@.read_onto(bytes@.skip(pos as int)) == start.read_onto(bytes@),
        decreases bytes@.len() - pos,
    {
        let found: FieldAt = match take_field(bytes, pos) {
            Some(found) => found,
            None => {
                return None;
            },
        };
        proof {
            lemma_read_field_bounds(bytes@.skip(pos as int));
            assert(bytes@.skip(pos as int).skip(found.next - pos) =~= bytes@.skip(
                found.next as int,
            ));
        }
        if found.number == 1 {
            match field_bytes(bytes, found) {
                Some(held) => {
                    acc.peer_id = held;
                },
                None => {
                    return None;
                },
            }
        } else if found.number == 2 {
            match field_bytes(bytes, found) {
                Some(held) => {
                    acc.identity_pubkey = held;
                },
                None => {
                    return None;
                },
            }
        } else if found.number == 3 {
            match field_text(bytes, found) {
                Some(held) => {
                    acc.device_code = held;
                },
                None => {
                    return None;
                },
            }
        }
        pos = found.next;
    }
    Some(acc)
}

impl ProtocolVersion {
    pub open spec fn zero() -> ProtocolVersion {
        ProtocolVersion { major: 0, minor: 0, patch: 0 }
    }

    /// The version after one more field was read.
    pub open spec fn with_field(self, number: nat, value: WireValue) -> Option<ProtocolVersion> {
        if 1 <= number <= 3 {
            match number_of(value) {
                Some(v) => Some(
                    if number == 1 {
                        ProtocolVersion { major: low_u32(v), ..self }
                    } else if number == 2 {
                        ProtocolVersion { minor: low_u32(v), ..self }
                    } else {
                        ProtocolVersion { patch: low_u32(v), ..self }
                    },
                ),
                None => None,
            }
        } else {
            Some(self)
        }
    }

    /// The version after the fields of `bytes` were read on top of it.
    pub open spec fn read_onto(self, bytes: Seq<u8>) -> Option<ProtocolVersion>
        decreases bytes.len(),
    {
        if bytes.len() == 0 {
            Some(self)
        } else {
            match read_field(bytes) {
                Some(field) => if 1 <= field.length <= bytes.len() {
                    match self.with_field(field.number, field.value) {
                        Some(next) => next.read_onto(bytes.skip(field.length as int)),
                        None => None,
                    }
                } else {
                    None
                },
                None => None,
            }
        }
    }
}

/// Reads the fields of a version on top of `base`.
pub fn decode_version_onto(base: ProtocolVersion, bytes: &[u8]) -> (result: Option<ProtocolVersion>)
    ensures
        result == base.read_onto(bytes@),
{
    let mut acc: ProtocolVersion = base;
    let mut pos: usize = 0;
    assert(bytes@.skip(0) =~= bytes@);
    while pos < bytes.len()
        invariant
            pos <= bytes@.len(),
            acc.read_onto(bytes@.skip(pos as int)) == base.read_onto(bytes@),
        decreases bytes@.len() - pos,
    {
        let found: FieldAt = match take_field(bytes, pos) {
            Some(found) => found,
            None => {
                return None;
            },
        };
        proof {
            lemma_read_field_bounds(bytes@.skip(pos as int));
            assert(bytes@.skip(pos as int).skip(found.next - pos) =~= bytes@.skip(
                found.next as int,
            ));
        }
        if 1 <= found.number && found.number <= 3 {
            match field_number(found.value) {
                Some(v) => {
                    if found.number == 1 {
                        acc.major = to_u32(v);
                    } else if found.number == 2 {
                        acc.minor = to_u32(v);
                    } else {
                        acc.patch = to_u32(v);
                    }
                },
                None => {
                    return None;
                },
            }
        }
        pos = found.next;
    }
    Some(acc)
}

/// The identity that the bytes of a field hold, read on top of the one
/// held before.
pub open spec fn nested_identity(held: Option<DeviceIdentityView>, value: WireValue) -> Option<
    DeviceIdentityView,
> {
    match bytes_of(value) {
        Some(b) => match held {
            Some(identity) => identity.read_onto(b),
            None => DeviceIdentityView::empty().read_onto(b),
        },
        None => None,
    }
}

/// The version that the bytes of a field hold, read on top of the one held
/// before.
pub open spec fn nested_version(held: Option<ProtocolVersion>, value: WireValue) -> Option<
    ProtocolVersion,
> {
    match bytes_of(value) {
        Some(b) => match held {
            Some(version) => version.read_onto(b),
            None => ProtocolVersion::zero().read_onto(b),
        },
        None => None,
    }
}

fn empty_identity() -> (identity: DeviceIdentity)
    ensures
        identity@ == DeviceIdentityView::empty(),
{
    DeviceIdentity { peer_id: Vec::new(), identity_pubkey: Vec::new(), device_code: String::new() }
}

fn take_nested_identity(held: &mut Option<DeviceIdentity>, bytes: &[u8], found: FieldAt) -> (ok: bool)
    requires
        found.next <= bytes@.len(),
        found.value matches FieldValue::Bytes { start, end } ==> start <= end <= found.next,
    ensures
        forall|pos: int, field: WireField| #[trigger]
            is_field_at(bytes@, pos, found, field) ==> match nested_identity(
                crate::wire::identity_view(*old(held)),
                field.value,
            ) {
                Some(view) => ok && crate::wire::identity_view(*final(held)) == Some(view),
                None => !ok,
            },
{
    match found.value {
        FieldValue::Bytes { start, end } => {
            let base: DeviceIdentity = match held.take() {
                Some(identity) => identity,
                None => empty_identity(),
            };
            match decode_identity_onto(base, slice_subrange(bytes, start, end)) {
                Some(identity) => {
                    *held = Some(identity);
                    true
                },
                None => false,
            }
        },
        _ => false,
    }
}

fn take_nested_version(held: &mut Option<ProtocolVersion>, bytes: &[u8], found: FieldAt) -> (ok: bool)
    requires
        found.next <= bytes@.len(),
        found.value matches FieldValue::Bytes { start, end } ==> start <= end <= found.next,
    ensures
        forall|pos: int, field: WireField| #[trigger]
            is_field_at(bytes@, pos, found, field) ==> match nested_version(
                *old(held),
                field.value,
            ) {
                Some(version) => ok && *final(held) == Some(version),
                None => !ok,
            },
{
    match found.value {
        FieldValue::Bytes { start, end } => {
            let base: ProtocolVersion = match *held {
                Some(version) => version,
                None => ProtocolVersion { major: 0, minor: 0, patch: 0 },
            };
            match decode_version_onto(base, slice_subrange(bytes, start, end)) {
                Some(version) => {
                    *held = Some(version);
                    true
                },
                None => false,
            }
        },
        _ => false,
    }
}

impl SessionRequestView {
    pub open spec fn empty() -> SessionRequestView {
        SessionRequestView {
            session_id: Seq::<char>::empty(),
            from: None,
            requested_role: 0,
            target_device_code: Seq::<char>::empty(),
            supported_video_codecs: Seq::<i32>::empty(),
            allow_relay: false,
            preferred_max_fps: 0,
            preferred_max_width: 0,
            preferred_max_height: 0,
            nonce: Seq::<u8>::empty(),
            unix_ms: 0,
            signature: Seq::<u8>::empty(),
            version: None,
        }
    }

    /// The request after one more field was read.
    pub open spec fn with_field(self, number: nat, value: WireValue) -> Option<SessionRequestView> {
        if number == 1 {
            match text_of(value) {
                Some(t) => Some(SessionRequestView { session_id: t, ..self }),
                None => None,
            }
        } else if number == 2 {
            match nested_identity(self.from, value) {
                Some(from) => Some(SessionRequestView { from: Some(from), ..self }),
                None => None,
            }
        } else if number == 3 {
            match number_of(value) {
                Some(v) => Some(SessionRequestView { requested_role: low_i32(v), ..self }),
                None => None,
            }
        } else if number == 4 {
            match text_of(value) {
                Some(t) => Some(SessionRequestView { target_device_code: t, ..self }),
                None => None,
            }
        } else if number == 5 {
            match value {
                WireValue::Varint(v) => Some(
                    SessionRequestView {
                        supported_video_codecs: self.supported_video_codecs.push(low_i32(v)),
                        ..self
                    },
                ),
                WireValue::Bytes(b) => match unpacked_onto(self.supported_video_codecs, b) {
                    Some(codecs) => Some(
                        SessionRequestView { supported_video_codecs: codecs, ..self },
                    ),
                    None => None,
                },
                _ => None,
            }
        } else if number == 6 {
            match number_of(value) {
                Some(v) => Some(SessionRequestView { allow_relay: v != 0, ..self }),
                None => None,
            }
        } else if number == 7 {
            match number_of(value) {
                Some(v) => Some(SessionRequestView { preferred_max_fps: low_u32(v), ..self }),
                None => None,
            }
        } else if number == 8 {
            match number_of(value) {
                Some(v) => Some(SessionRequestView { preferred_max_width: low_u32(v), ..self }),
                None => None,
            }
        } else if number == 9 {
            match number_of(value) {
                Some(v) => Some(SessionRequestView { preferred_max_height: low_u32(v), ..self }),
                None => None,
            }
        } else if number == 10 {
            match bytes_of(value) {
                Some(b) => Some(SessionRequestView { nonce: b, ..self }),
                None => None,
            }
        } else if number == 11 {
            match number_of(value) {
                Some(v) => Some(SessionRequestView { unix_ms: as_i64(v), ..self }),
                None => None,
            }
        } else if number == 12 {
            match bytes_of(value) {
                Some(b) => Some(SessionRequestView { signature: b, ..self }),
                None => None,
            }
        } else if number == 13 {
            match nested_version(self.version, value) {
                Some(version) => Some(SessionRequestView { version: Some(version), ..self }),
                None => None,
            }
        } else {
            Some(self)
        }
    }

    /// The request after the fields of `bytes` were read on top of it.
    pub open spec fn read_onto(self, bytes: Seq<u8>) -> Option<SessionRequestView>
        decreases bytes.len(),
    {
        if bytes.len() == 0 {
            Some(self)
        } else {
            match read_field(bytes) {
                Some(field) => if 1 <= field.length <= bytes.len() {
                    match self.with_field(field.number, field.value) {
                        Some(next) => next.read_onto(bytes.skip(field.length as int)),
                        None => None,
                    }
                } else {
                    None
                },
                None => None,
            }
        }
    }
}

fn empty_request() -> (request: SessionRequest)
    ensures
        request@ == SessionRequestView::empty(),
{
    let request = SessionRequest {
        session_id: String::new(),
        from: None,
        requested_role: 0,
        target_device_code: String::new(),
        supported_video_codecs: Vec::new(),
        allow_relay: false,
        preferred_max_fps: 0,
        preferred_max_width: 0,
        preferred_max_height: 0,
        nonce: Vec::new(),
        unix_ms: 0,
        signature: Vec::new(),
        version: None,
    };
    assert(request@.supported_video_codecs =~= Seq::<i32>::empty());
    request
}

/// Reads the fields of a session request on top of `base`.
pub fn decode_request_onto(base: SessionRequest, bytes: &[u8]) -> (result: Option<SessionRequest>)
    ensures
        match base@.read_onto(bytes@) {
            Some(view) => result matches Some(request) && request@ == view,
            None => result is None,
        },
{
    let ghost start = base@;
    let mut acc: SessionRequest = base;
    let mut pos: usize = 0;
    assert(bytes@.skip(0) =~= bytes@);
    while pos < bytes.len()
        invariant
            pos <= bytes@.len(),
            start == base@,
            acc@.read_onto(bytes@.skip(pos as int)) == start.read_onto(bytes@),
        decreases bytes@.len() - pos,
    {
        let found: FieldAt = match take_field(bytes, pos) {
            Some(found) => found,
            None => {
                return None;
            },
        };
        proof {
            lemma_read_field_bounds(bytes@.skip(pos as int));
            assert(bytes@.skip(pos as int).skip(found.next - pos) =~= bytes@.skip(
                found.next as int,
            ));
        }
        let number: u32 = found.number;
        if number == 1 || number == 4 {
            match field_text(bytes, found) {
                Some(held) => {
                    if number == 1 {
                        acc.session_id = held;
                    } else {
                        acc.target_device_code = held;
                    }
                },
                None => {
                    return None;
                },
            }
        } else if number == 2 {
            if !take_nested_identity(&mut acc.from, bytes, found) {
                return None;
            }
        } else if number == 5 {
            match found.value {
                FieldValue::Varint(v) => {
                    acc.supported_video_codecs.push(to_i32(v));
                },
                FieldValue::Bytes { start, end } => {
                    if !unpack_onto(&mut acc.supported_video_codecs, bytes, start, end) {
                        return None;
                    }
                },
                _ => {
                    return None;
                },
            }
        } else if number == 10 || number == 12 {
            match field_bytes(bytes, found) {
                Some(held) => {
                    if number == 10 {
                        acc.nonce = held;
                    } else {
                        acc.signature = held;
                    }
                },
                None => {
                    return None;
                },
            }
        } else if number == 13 {
            if !take_nested_version(&mut acc.version, bytes, found) {
                return None;
            }
        } else if number == 3 || number == 6 || number == 7 || number == 8 || number == 9
            || number == 11 {
            match field_number(found.value) {
                Some(v) => {
                    if number == 3 {
                        acc.requested_role = to_i32(v);
                    } else if number == 6 {
                        acc.allow_relay = v != 0;
                    } else if number == 7 {
                        acc.preferred_max_fps = to_u32(v);
                    } else if number == 8 {
                        acc.preferred_max_width = to_u32(v);
                    } else if number == 9 {
                        acc.preferred_max_height = to_u32(v);
                    } else {
                        acc.unix_ms = to_i64(v);
                    }
                },
                None => {
                    return None;
                },
            }
        }
        pos = found.next;
    }
    Some(acc)
}

impl SessionAcceptView {
    pub open spec fn empty() -> SessionAcceptView {
        SessionAcceptView {
            session_id: Seq::<char>::empty(),
            selected_codec: 0,
            selected_fps: 0,
            selected_width: 0,
            selected_height: 0,
            using_relay: false,
            path_id: Seq::<char>::empty(),
            from: None,
            nonce: Seq::<u8>::empty(),
            unix_ms: 0,
            signature: Seq::<u8>::empty(),
            request_nonce: Seq::<u8>::empty(),
        }
    }

    /// The accept after one more field was read.
    pub open spec fn with_field(self, number: nat, value: WireValue) -> Option<SessionAcceptView> {
        if number == 1 {
            match text_of(value) {
                Some(t) => Some(SessionAcceptView { session_id: t, ..self }),
                None => None,
            }
        } else if number == 2 {
            match number_of(value) {
                Some(v) => Some(SessionAcceptView { selected_codec: low_i32(v), ..self }),
                None => None,
            }
        } else if number == 3 {
            match number_of(value) {
                Some(v) => Some(SessionAcceptView { selected_fps: low_u32(v), ..self }),
                None => None,
            }
        } else if number == 4 {
            match number_of(value) {
                Some(v) => Some(SessionAcceptView { selected_width: low_u32(v), ..self }),
                None => None,
            }
        } else if number == 5 {
            match number_of(value) {
                Some(v) => Some(SessionAcceptView { selected_height: low_u32(v), ..self }),
                None => None,
            }
        } else if number == 6 {
            match number_of(value) {
                Some(v) => Some(SessionAcceptView { using_relay: v != 0, ..self }),
                None => None,
            }
        } else if number == 7 {
            match text_of(value) {
                Some(t) => Some(SessionAcceptView { path_id: t, ..self }),
                None => None,
            }
        } else if number == 8 {
            match nested_identity(self.from, value) {
                Some(from) => Some(SessionAcceptView { from: Some(from), ..self }),
                None => None,
            }
        } else if number == 9 {
            match bytes_of(value) {
                Some(b) => Some(SessionAcceptView { nonce: b, ..self }),
                None => None,
            }
        } else if number == 10 {
            match number_of(value) {
                Some(v) => Some(SessionAcceptView { unix_ms: as_i64(v), ..self }),
                None => None,
            }
        } else if number == 11 {
            match bytes_of(value) {
                Some(b) => Some(SessionAcceptView { signature: b, ..self }),
                None => None,
            }
        } else if number == 12 {
            match bytes_of(value) {
                Some(b) => Some(SessionAcceptView { request_nonce: b, ..self }),
                None => None,
            }
        } else {
            Some(self)
        }
    }

    /// The accept after the fields of `bytes` were read on top of it.
    pub open spec fn read_onto(self, bytes: Seq<u8>) -> Option<SessionAcceptView>
        decreases bytes.len(),
    {
        if bytes.len() == 0 {
            Some(self)
        } else {
            match read_field(bytes) {
                Some(field) => if 1 <= field.length <= bytes.len() {
                    match self.with_field(field.number, field.value) {
                        Some(next) => next.read_onto(bytes.skip(field.length as int)),
                        None => None,
                    }
                } else {
                    None
                },
                None => None,
            }
        }
    }
}

fn empty_accept() -> (accept: SessionAccept)
    ensures
        accept@ == SessionAcceptView::empty(),
{
    SessionAccept {
        session_id: String::new(),
        selected_codec: 0,
        selected_fps: 0,
        selected_width: 0,
        selected_height: 0,
        using_relay: false,
        path_id: String::new(),
        from: None,
        nonce: Vec::new(),
        unix_ms: 0,
        signature: Vec::new(),
        request_nonce: Vec::new(),
    }
}

/// Reads the fields of a session accept on top of `base`.
pub fn decode_accept_onto(base: SessionAccept, bytes: &[u8]) -> (result: Option<SessionAccept>)
    ensures
        match base@.read_onto(bytes@) {
            Some(view) => result matches Some(accept) && accept@ == view,
            None => result is None,
        },
{
    let ghost start = base@;
    let mut acc: SessionAccept = base;
    let mut pos: usize = 0;
    assert(bytes@.skip(0) =~= bytes@);
    while pos < bytes.len()
        invariant
            pos <= bytes@.len(),
            start == base@,
            acc@.read_onto(bytes@.skip(pos as int)) == start.read_onto(bytes@),
        decreases bytes@.len() - pos,
    {
        let found: FieldAt = match take_field(bytes, pos) {
            Some(found) => found,
            None => {
                return None;
            },
        };
        proof {
            lemma_read_field_bounds(bytes@.skip(pos as int));
            assert(bytes@.skip(pos as int).skip(found.next - pos) =~= bytes@.skip(
                found.next as int,
            ));
        }
        let number: u32 = found.number;
        if number == 1 || number == 7 {
            match field_text(bytes, found) {
                Some(held) => {
                    if number == 1 {
                        acc.session_id = held;
                    } else {
                        acc.path_id = held;
                    }
                },
                None => {
                    return None;
                },
            }
        } else if number == 8 {
            if !take_nested_identity(&mut acc.from, bytes, found) {
                return None;
            }
        } else if number == 9 || number == 11 || number == 12 {
            match field_bytes(bytes, found) {
                Some(held) => {
                    if number == 9 {
                        acc.nonce = held;
                    } else if number == 11 {
                        acc.signature = held;
                    } else {
                        acc.request_nonce = held;
                    }
                },
                None => {
                    return None;
                },
            }
        } else if 2 <= number && number <= 10 {
            match field_number(found.value) {
                Some(v) => {
                    if number == 2 {
                        acc.selected_codec = to_i32(v);
                    } else if number == 3 {
                        acc.selected_fps = to_u32(v);
                    } else if number == 4 {
                        acc.selected_width = to_u32(v);
                    } else if number == 5 {
                        acc.selected_height = to_u32(v);
                    } else if number == 6 {
                        acc.using_relay = v != 0;
                    } else {
                        acc.unix_ms = to_i64(v);
                    }
                },
                None => {
                    return None;
                },
            }
        }
        pos = found.next;
    }
    Some(acc)
}

impl SessionRejectView {
    pub open spec fn empty() -> SessionRejectView {
        SessionRejectView {
            session_id: Seq::<char>::empty(),
            reason: 0,
            detail: Seq::<char>::empty(),
        }
    }

    /// The reject after one more field was read.
    pub open spec fn with_field(self, number: nat, value: WireValue) -> Option<SessionRejectView> {
        if number == 1 {
            match text_of(value) {
                Some(t) => Some(SessionRejectView { session_id: t, ..self }),
                None => None,
            }
        } else if number == 2 {
            match number_of(value) {
                Some(v) => Some(SessionRejectView { reason: low_i32(v), ..self }),
                None => None,
            }
        } else if number == 3 {
            match text_of(value) {
                Some(t) => Some(SessionRejectView { detail: t, ..self }),
                None => None,
            }
        } else {
            Some(self)
        }
    }

    /// The reject after the fields of `bytes` were read on top of it.
    pub open spec fn read_onto(self, bytes: Seq<u8>) -> Option<SessionRejectView>
        decreases bytes.len(),
    {
        if bytes.len() == 0 {
            Some(self)
        } else {
            match read_field(bytes) {
                Some(field) => if 1 <= field.length <= bytes.len() {
                    match self.with_field(field.number, field.value) {
                        Some(next) => next.read_onto(bytes.skip(field.length as int)),
                        None => None,
                    }
                } else {
                    None
                },
                None => None,
            }
        }
    }
}

/// Reads the fields of a session reject on top of `base`.
pub fn decode_reject_onto(base: SessionReject, bytes: &[u8]) -> (result: Option<SessionReject>)
    ensures
        match base@.read_onto(bytes@) {
            Some(view) => result matches Some(reject) && reject@ == view,
            None => result is None,
        },
{
    let ghost start = base@;
    let mut acc: SessionReject = base;
    let mut pos: usize = 0;
    assert(bytes@.skip(0) =~= bytes@);
    while pos < bytes.len()
        invariant
            pos <= bytes@.len(),
            start == base@,
            acc@.read_onto(bytes@.skip(pos as int)) == start.read_onto(bytes@),
        decreases bytes@.len() - pos,
    {
        let found: FieldAt = match take_field(bytes, pos) {
            Some(found) => found,
            None => {
                return None;
            },
        };
        proof {
            lemma_read_field_bounds(bytes@.skip(pos as int));
            assert(bytes@.skip(pos as int).skip(found.next - pos) =~= bytes@.skip(
                found.next as int,
            ));
        }
        let number: u32 = found.number;
        if number == 1 || number == 3 {
            match field_text(bytes, found) {
                Some(held) => {
                    if number == 1 {
                        acc.session_id = held;
                    } else {
                        acc.detail = held;
                    }
                },
                None => {
                    return None;
                },
            }
        } else if number == 2 {
            match field_number(found.value) {
                Some(v) => {
                    acc.reason = to_i32(v);
                },
                None => {
                    return None;
                },
            }
        }
        pos = found.next;
    }
    Some(acc)
}

impl PingView {
    pub open spec fn empty() -> PingView {
        PingView { session_id: Seq::<char>::empty(), seq: 0, send_unix_ms: 0 }
    }

    /// The ping after one more field was read.
    pub open spec fn with_field(self, number: nat, value: WireValue) -> Option<PingView> {
        if number == 1 {
            match text_of(value) {
                Some(t) => Some(PingView { session_id: t, ..self }),
                None => None,
            }
        } else if number == 2 {
            match number_of(value) {
                Some(v) => Some(PingView { seq: v, ..self }),
                None => None,
            }
        } else if number == 3 {
            match number_of(value) {
                Some(v) => Some(PingView { send_unix_ms: v, ..self }),
                None => None,
            }
        } else {
            Some(self)
        }
    }

    /// The ping after the fields of `bytes` were read on top of it.
    pub open spec fn read_onto(self, bytes: Seq<u8>) -> Option<PingView>
        decreases bytes.len(),
    {
        if bytes.len() == 0 {
            Some(self)
        } else {
            match read_field(bytes) {
                Some(field) => if 1 <= field.length <= bytes.len() {
                    match self.with_field(field.number, field.value) {
                        Some(next) => next.read_onto(bytes.skip(field.length as int)),
                        None => None,
                    }
                } else {
                    None
                },
                None => None,
            }
        }
    }
}

/// Reads the fields of a ping on top of `base`.
pub fn decode_ping_onto(base: Ping, bytes: &[u8]) -> (result: Option<Ping>)
    ensures
        match base@.read_onto(bytes@) {
            Some(view) => result matches Some(ping) && ping@ == view,
            None => result is None,
        },
{
    let ghost start = base@;
    let mut acc: Ping = base;
    let mut pos: usize = 0;
    assert(bytes@.skip(0) =~= bytes@);
    while pos < bytes.len()
        invariant
            pos <= bytes@.len(),
            start == base@,
            acc@.read_onto(bytes@.skip(pos as int)) == start.read_onto(bytes@),
        decreases bytes@.len() - pos,
    {
        let found: FieldAt = match take_field(bytes, pos) {
            Some(found) => found,
            None => {
                return None;
            },
        };
        proof {
            lemma_read_field_bounds(bytes@.skip(pos as int));
            assert(bytes@.skip(pos as int).skip(found.next - pos) =~= bytes@.skip(
                found.next as int,
            ));
        }
        let number: u32 = found.number;
        if number == 1 {
            match field_text(bytes, found) {
                Some(held) => {
                    acc.session_id = held;
                },
                None => {
                    return None;
                },
            }
        } else if number == 2 || number == 3 {
            match field_number(found.value) {
                Some(v) => {
                    if number == 2 {
                        acc.seq = v;
                    } else {
                        acc.send_unix_ms = v;
                    }
                },
                None => {
                    return None;
                },
            }
        }
        pos = found.next;
    }
    Some(acc)
}

impl PongView {
    pub open spec fn empty() -> PongView {
        PongView { session_id: Seq::<char>::empty(), seq: 0, echo_send_unix_ms: 0, recv_unix_ms: 0 }
    }

    /// The pong after one more field was read.
    pub open spec fn with_field(self, number: nat, value: WireValue) -> Option<PongView> {
        if number == 1 {
            match text_of(value) {
                Some(t) => Some(PongView { session_id: t, ..self }),
                None => None,
            }
        } else if 2 <= number <= 4 {
            match number_of(value) {
                Some(v) => Some(
                    if number == 2 {
                        PongView { seq: v, ..self }
                    } else if number == 3 {
                        PongView { echo_send_unix_ms: v, ..self }
                    } else {
                        PongView { recv_unix_ms: v, ..self }
                    },
                ),
                None => None,
            }
        } else {
            Some(self)
        }
    }

    /// The pong after the fields of `bytes` were read on top of it.
    pub open spec fn read_onto(self, bytes: Seq<u8>) -> Option<PongView>
        decreases bytes.len(),
    {
        if bytes.len() == 0 {
            Some(self)
        } else {
            match read_field(bytes) {
                Some(field) => if 1 <= field.length <= bytes.len() {
                    match self.with_field(field.number, field.value) {
                        Some(next) => next.read_onto(bytes.skip(field.length as int)),
                        None => None,
                    }
                } else {
                    None
                },
                None => None,
            }
        }
    }
}

/// Reads the fields of a pong on top of `base`.
pub fn decode_pong_onto(base: Pong, bytes: &[u8]) -> (result: Option<Pong>)
    ensures
        match base@.read_onto(bytes@) {
            Some(view) => result matches Some(pong) && pong@ == view,
            None => result is None,
        },
{
    let ghost start = base@;
    let mut acc: Pong = base;
    let mut pos: usize = 0;
    assert(bytes@.skip(0) =~= bytes@);
    while pos < bytes.len()
        invariant
            pos <= bytes@.len(),
            start == base@,
            acc@.read_onto(bytes@.skip(pos as int)) == start.read_onto(bytes@),
        decreases bytes@.len() - pos,
    {
        let found: FieldAt = match take_field(bytes, pos) {
            Some(found) => found,
            None => {
                return None;
            },
        };
        proof {
            lemma_read_field_bounds(bytes@.skip(pos as int));
            assert(bytes@.skip(pos as int).skip(found.next - pos) =~= bytes@.skip(
                found.next as int,
            ));
        }
        let number: u32 = found.number;
        if number == 1 {
            match field_text(bytes, found) {
                Some(held) => {
                    acc.session_id = held;
                },
                None => {
                    return None;
                },
            }
        } else if 2 <= number && number <= 4 {
            match field_number(found.value) {
                Some(v) => {
                    if number == 2 {
                        acc.seq = v;
                    } else if number == 3 {
                        acc.echo_send_unix_ms = v;
                    } else {
                        acc.recv_unix_ms = v;
                    }
                },
                None => {
                    return None;
                },
            }
        }
        pos = found.next;
    }
    Some(acc)
}

/// The message that the bytes of member `number` of an envelope hold. A
/// member that is held already is read on top of; any other takes the
/// place of what was held.
pub open spec fn nested_message(
    held: Option<ControlMessageView>,
    number: nat,
    value: WireValue,
) -> Option<ControlMessageView> {
    match bytes_of(value) {
        None => None,
        Some(b) => if number == 3 {
            match (
                match held {
                    Some(ControlMessageView::SessionRequest(m)) => m,
                    _ => SessionRequestView::empty(),
                }
            ).read_onto(b) {
                Some(m) => Some(ControlMessageView::SessionRequest(m)),
                None => None,
            }
        } else if number == 4 {
            match (
                match held {
                    Some(ControlMessageView::SessionAccept(m)) => m,
                    _ => SessionAcceptView::empty(),
                }
            ).read_onto(b) {
                Some(m) => Some(ControlMessageView::SessionAccept(m)),
                None => None,
            }
        } else if number == 5 {
            match (
                match held {
                    Some(ControlMessageView::SessionReject(m)) => m,
                    _ => SessionRejectView::empty(),
                }
            ).read_onto(b) {
                Some(m) => Some(ControlMessageView::SessionReject(m)),
                None => None,
            }
        } else if number == 6 {
            match (
                match held {
                    Some(ControlMessageView::Ping(m)) => m,
                    _ => PingView::empty(),
                }
            ).read_onto(b) {
                Some(m) => Some(ControlMessageView::Ping(m)),
                None => None,
            }
        } else {
            match (
                match held {
                    Some(ControlMessageView::Pong(m)) => m,
                    _ => PongView::empty(),
                }
            ).read_onto(b) {
                Some(m) => Some(ControlMessageView::Pong(m)),
                None => None,
            }
        },
    }
}

impl ControlEnvelopeView {
    pub open spec fn empty() -> ControlEnvelopeView {
        ControlEnvelopeView { seq: 0, request_id: Seq::<char>::empty(), message: None }
    }

    /// The envelope after one more field was read.
    pub open spec fn with_field(self, number: nat, value: WireValue) -> Option<ControlEnvelopeView> {
        if number == 1 {
            match number_of(value) {
                Some(v) => Some(ControlEnvelopeView { seq: v, ..self }),
                None => None,
            }
        } else if number == 2 {
            match text_of(value) {
                Some(t) => Some(ControlEnvelopeView { request_id: t, ..self }),
                None => None,
            }
        } else if 3 <= number <= 7 {
            match nested_message(self.message, number, value) {
                Some(m) => Some(ControlEnvelopeView { message: Some(m), ..self }),
                None => None,
            }
        } else {
            Some(self)
        }
    }

    /// The envelope after the fields of `bytes` were read on top of it.
    pub open spec fn read_onto(self, bytes: Seq<u8>) -> Option<ControlEnvelopeView>
        decreases bytes.len(),
    {
        if bytes.len() == 0 {
            Some(self)
        } else {
            match read_field(bytes) {
                Some(field) => if 1 <= field.length <= bytes.len() {
                    match self.with_field(field.number, field.value) {
                        Some(next) => next.read_onto(bytes.skip(field.length as int)),
                        None => None,
                    }
                } else {
                    None
                },
                None => None,
            }
        }
    }

    /// The envelope that `bytes` hold, if they hold one.
    pub open spec fn decoding(bytes: Seq<u8>) -> Option<ControlEnvelopeView> {
        ControlEnvelopeView::empty().read_onto(bytes)
    }
}

/// The view of a message that may be absent.
pub open spec fn message_view(message: Option<ControlMessage>) -> Option<ControlMessageView> {
    match message {
        Some(m) => Some(m@),
        None => None,
    }
}

fn take_nested_message(
    held: &mut Option<ControlMessage>,
    bytes: &[u8],
    found: FieldAt,
) -> (ok: bool)
    requires
        found.next <= bytes@.len(),
        3 <= found.number <= 7,
        found.value matches FieldValue::Bytes { start, end } ==> start <= end <= found.next,
    ensures
        forall|pos: int, field: WireField| #[trigger]
            is_field_at(bytes@, pos, found, field) ==> match nested_message(
                message_view(*old(held)),
                field.number,
                field.value,
            ) {
                Some(view) => ok && message_view(*final(held)) == Some(view),
                None => !ok,
            },
{
    let part: &[u8] = match found.value {
        FieldValue::Bytes { start, end } => slice_subrange(bytes, start, end),
        _ => {
            return false;
        },
    };
    let before: Option<ControlMessage> = held.take();
    if found.number == 3 {
        let base: SessionRequest = match before {
            Some(ControlMessage::SessionRequest(m)) => m,
            _ => empty_request(),
        };
        match decode_request_onto(base, part) {
            Some(m) => {
                *held = Some(ControlMessage::SessionRequest(m));
                true
            },
            None => false,
        }
    } else if found.number == 4 {
        let base: SessionAccept = match before {
            Some(ControlMessage::SessionAccept(m)) => m,
            _ => empty_accept(),
        };
        match decode_accept_onto(base, part) {
            Some(m) => {
                *held = Some(ControlMessage::SessionAccept(m));
                true
            },
            None => false,
        }
    } else if found.number == 5 {
        let base: SessionReject = match before {
            Some(ControlMessage::SessionReject(m)) => m,
            _ => SessionReject { session_id: String::new(), reason: 0, detail: String::new() },
        };
        match decode_reject_onto(base, part) {
            Some(m) => {
                *held = Some(ControlMessage::SessionReject(m));
                true
            },
            None => false,
        }
    } else if found.number == 6 {
        let base: Ping = match before {
            Some(ControlMessage::Ping(m)) => m,
            _ => Ping { session_id: String::new(), seq: 0, send_unix_ms: 0 },
        };
        match decode_ping_onto(base, part) {
            Some(m) => {
                *held = Some(ControlMessage::Ping(m));
                true
            },
            None => false,
        }
    } else {
        let base: Pong = match before {
            Some(ControlMessage::Pong(m)) => m,
            _ => Pong { session_id: String::new(), seq: 0, echo_send_unix_ms: 0, recv_unix_ms: 0 },
        };
        match decode_pong_onto(base, part) {
            Some(m) => {
                *held = Some(ControlMessage::Pong(m));
                true
            },
            None => false,
        }
    }
}

/// Reads an envelope from its bytes. There is an envelope exactly where the
/// bytes can be read as one.
pub fn decode_envelope(bytes: &[u8]) -> (result: Option<ControlEnvelope>)
    ensures
        match ControlEnvelopeView::decoding(bytes@) {
            Some(view) => result matches Some(envelope) && envelope@ == view,
            None => result is None,
        },
{
    let mut acc: ControlEnvelope = ControlEnvelope {
        seq: 0,
        request_id: String::new(),
        message: None,
    };
    let mut pos: usize = 0;
    assert(bytes@.skip(0) =~= bytes@);
    while pos < bytes.len()
        invariant
            pos <= bytes@.len(),
            acc@.read_onto(bytes@.skip(pos as int)) == ControlEnvelopeView::decoding(bytes@),
        decreases bytes@.len() - pos,
    {
        let found: FieldAt = match take_field(bytes, pos) {
            Some(found) => found,
            None => {
                return None;
            },
        };
        proof {
            lemma_read_field_bounds(bytes@.skip(pos as int));
            assert(bytes@.skip(pos as int).skip(found.next - pos) =~= bytes@.skip(
                found.next as int,
            ));
        }
        let number: u32 = found.number;
        if number == 1 {
            match field_number(found.value) {
                Some(v) => {
                    acc.seq = v;
                },
                None => {
                    return None;
                },
            }
        } else if number == 2 {
            match field_text(bytes, found) {
                Some(held) => {
                    acc.request_id = held;
                },
                None => {
                    return None;
                },
            }
        } else if 3 <= number && number <= 7 {
            if !take_nested_message(&mut acc.message, bytes, found) {
                return None;
            }
        }
        pos = found.next;
    }
    Some(acc)
}

} // verus!

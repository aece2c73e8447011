//! Lower-case hexadecimal text for byte strings, as the trust store holds
//! public keys.

use crate::error::SessionAuthError;
use crate::text::push_char;
use vstd::prelude::*;
use vstd::string::StringSliceAdditionalSpecFns;
use vstd::utf8::{encode_utf8, is_ascii_chars, is_ascii_chars_encode_utf8};

verus! {

/// The digit for a value below 16; `'0'` for any other value.
pub open spec fn nibble_char(v: u8) -> char {
    if v <= 9 {
        (0x30 + v) as u8 as char
    } else if v <= 15 {
        (0x61 + (v - 10)) as u8 as char
    } else {
        '0'
    }
}

/// The value of a hexadecimal digit, in either case.
pub open spec fn nibble_value(c: char) -> Option<u8> {
    if '0' <= c <= '9' {
        Some((c as u32 - 0x30) as u8)
    } else if 'a' <= c <= 'f' {
        Some((c as u32 - 0x61 + 10) as u8)
    } else if 'A' <= c <= 'F' {
        Some((c as u32 - 0x41 + 10) as u8)
    } else {
        None
    }
}

/// The hexadecimal text of `bytes`: two digits for each byte, the high half
/// first.
pub open spec fn hex_text(bytes: Seq<u8>) -> Seq<char> {
    Seq::new(
        2 * bytes.len(),
        |i: int|
            if i % 2 == 0 {
                nibble_char(bytes[i / 2] / 16)
            } else {
                nibble_char(bytes[i / 2] % 16)
            },
    )
}

/// Whether `text` is hexadecimal: an even number of bytes, each of them a
/// digit.
pub open spec fn is_hex(text: Seq<u8>) -> bool {
    &&& text.len() % 2 == 0
    &&& forall|i: int| 0 <= i < text.len() ==> nibble_value(#[trigger] text[i] as char) is Some
}

/// The bytes that hexadecimal text stands for.
pub open spec fn hex_bytes(text: Seq<u8>) -> Seq<u8> {
    Seq::new(
        text.len() / 2,
        |i: int|
            (nibble_value(text[2 * i] as char).unwrap() * 16 + nibble_value(
                text[2 * i + 1] as char,
            ).unwrap()) as u8,
    )
}

/// The first place in `text` that holds no hexadecimal digit, or the length
/// of `text` where every byte is one.
pub open spec fn first_bad_digit(text: Seq<u8>) -> int
    decreases text.len(),
{
    if text.len() == 0 {
        0
    } else if nibble_value(text[0] as char) is None {
        0
    } else {
        1 + first_bad_digit(text.drop_first())
    }
}

proof fn lemma_first_bad_digit(text: Seq<u8>, k: int)
    requires
        0 <= k <= text.len(),
        forall|i: int| 0 <= i < k ==> nibble_value(#[trigger] text[i] as char) is Some,
        k < text.len() ==> nibble_value(text[k] as char) is None,
    ensures
        first_bad_digit(text) == k,
    decreases text.len(),
{
    if text.len() > 0 && k > 0 {
        let rest = text.drop_first();
        assert forall|i: int| 0 <= i < k - 1 implies nibble_value(
            #[trigger] rest[i] as char,
        ) is Some by {
            assert(rest[i] == text[i + 1]);
        }
        lemma_first_bad_digit(rest, k - 1);
    }
}

/// The lower-case hexadecimal digit for `v`, and `0` for a value above
/// fifteen.
pub fn hex_nibble_to_char(v: u8) -> (c: char)
    ensures
        c == nibble_char(v),
{
    if v <= 9 {
        (0x30 + v) as char
    } else if v <= 15 {
        (0x61 + (v - 10)) as char
    } else {
        '0'
    }
}

/// The value of a hexadecimal digit, in either case. Any other character
/// is refused, and named in the refusal.
pub fn char_to_hex_nibble(c: char) -> (result: Result<u8, SessionAuthError>)
    ensures
        match nibble_value(c) {
            Some(v) => result == Ok::<u8, SessionAuthError>(v),
            None => result matches Err(SessionAuthError::TrustStoreCorrupt(detail)) && detail@
                == "invalid hex char "@.push(c),
        },
{
    if '0' <= c && c <= '9' {
        Ok((c as u32 - 0x30) as u8)
    } else if 'a' <= c && c <= 'f' {
        Ok((c as u32 - 0x61 + 10) as u8)
    } else if 'A' <= c && c <= 'F' {
        Ok((c as u32 - 0x41 + 10) as u8)
    } else {
        let mut detail: String = "invalid hex char ".to_owned();
        push_char(&mut detail, c);
        Err(SessionAuthError::TrustStoreCorrupt(detail))
    }
}

/// Writes `bytes` as lower-case hexadecimal text, two digits for a byte.
pub fn encode_hex(bytes: &[u8]) -> (text: String)
    ensures
        text@ == hex_text(bytes@),
{
    let mut out: String = String::new();
    let mut i: usize = 0;
    while i < bytes.len()
        invariant
            i <= bytes@.len(),
            out@ == hex_text(bytes@.take(i as int)),
        decreases bytes@.len() - i,
    {
        let b: u8 = bytes[i];
        push_char(&mut out, hex_nibble_to_char(b / 16));
        push_char(&mut out, hex_nibble_to_char(b % 16));
        proof {
            let before = bytes@.take(i as int);
            let after = bytes@.take(i + 1);
            assert(out@ =~= hex_text(after)) by {
                assert forall|j: int| 0 <= j < 2 * after.len() implies out@[j] == hex_text(
                    after,
                )[j] by {
                    if j < 2 * i {
                        assert(out@[j] == hex_text(before)[j]);
                        assert(before[j / 2] == after[j / 2]);
                    }
                }
            }
        }
        i += 1;
    }
    assert(bytes@.take(i as int) =~= bytes@);
    out
}

/// What is wrong with `text` as hexadecimal, in words: an odd length, or
/// the first byte that is no digit. `None` where nothing is.
pub open spec fn hex_fault(text: Seq<u8>) -> Option<Seq<char>> {
    if text.len() % 2 != 0 {
        Some("hex string has odd length"@)
    } else if first_bad_digit(text) < text.len() {
        Some("invalid hex char "@.push(text[first_bad_digit(text)] as char))
    } else {
        None
    }
}

/// The first bad digit is what its name says: every byte before it is a
/// digit, and the byte at it, if there is one, is none.
pub proof fn lemma_first_bad_digit_is_first(text: Seq<u8>)
    ensures
        0 <= first_bad_digit(text) <= text.len(),
        forall|i: int|
            0 <= i < first_bad_digit(text) ==> nibble_value(#[trigger] text[i] as char) is Some,
        first_bad_digit(text) < text.len() ==> nibble_value(
            text[first_bad_digit(text)] as char,
        ) is None,
    decreases text.len(),
{
    if text.len() > 0 && nibble_value(text[0] as char) is Some {
        let rest = text.drop_first();
        lemma_first_bad_digit_is_first(rest);
        assert forall|i: int| 0 <= i < first_bad_digit(text) implies nibble_value(
            #[trigger] text[i] as char,
        ) is Some by {
            if i > 0 {
                assert(text[i] == rest[i - 1]);
            }
        }
        if first_bad_digit(text) < text.len() {
            assert(text[first_bad_digit(text)] == rest[first_bad_digit(rest)]);
        }
    }
}

/// Text is hexadecimal exactly where nothing is wrong with it.
pub proof fn lemma_hex_fault(text: Seq<u8>)
    ensures
        is_hex(text) <==> hex_fault(text) is None,
{
    lemma_first_bad_digit_is_first(text);
    if is_hex(text) {
        lemma_first_bad_digit(text, text.len() as int);
    }
}

/// Decodes hexadecimal text.
///
/// Text of odd length is refused, and so is text with a byte that is no
/// digit: the error then names the first such byte. Every other text gives
/// the bytes it stands for.
pub fn decode_hex(hex: &str) -> (result: Result<Vec<u8>, SessionAuthError>)
    ensures
        match result {
            Ok(bytes) => {
                &&& hex_fault(encode_utf8(hex@)) is None
                &&& bytes@ == hex_bytes(encode_utf8(hex@))
            },
            Err(error) => {
                &&& error matches SessionAuthError::TrustStoreCorrupt(detail)
                &&& hex_fault(encode_utf8(hex@)) == Some(detail@)
            },
        },
{
    let text: &[u8] = hex.as_bytes();
    if text.len() % 2 != 0 {
        return Err(SessionAuthError::TrustStoreCorrupt("hex string has odd length".to_owned()));
    }
    let mut out: Vec<u8> = Vec::new();
    let mut i: usize = 0;
    while i < text.len()
        invariant
            text@.len() % 2 == 0,
            i % 2 == 0,
            i <= text@.len(),
            out@.len() == i / 2,
            forall|j: int| 0 <= j < i ==> nibble_value(#[trigger] text@[j] as char) is Some,
            forall|j: int| 0 <= j < out@.len() ==> out@[j] == hex_bytes(text@)[j],
            text@ == encode_utf8(hex@),
        decreases text@.len() - i,
    {
        let hi: u8 = match char_to_hex_nibble(text[i] as char) {
            Ok(v) => v,
            Err(error) => {
                proof {
                    lemma_first_bad_digit(text@, i as int);
                }
                return Err(error);
            },
        };
        let lo: u8 = match char_to_hex_nibble(text[i + 1] as char) {
            Ok(v) => v,
            Err(error) => {
                proof {
                    lemma_first_bad_digit(text@, i + 1);
                }
                return Err(error);
            },
        };
        out.push(hi * 16 + lo);
        i += 2;
    }
    proof {
        lemma_first_bad_digit(text@, text@.len() as int);
        assert(out@ =~= hex_bytes(text@));
    }
    Ok(out)
}

/// Hexadecimal text is plain ASCII: its bytes are its characters.
pub proof fn lemma_hex_text_is_ascii(bytes: Seq<u8>)
    ensures
        is_ascii_chars(hex_text(bytes)),
        encode_utf8(hex_text(bytes)) == Seq::new(
            hex_text(bytes).len(),
            |i: int| hex_text(bytes)[i] as u8,
        ),
{
    let text = hex_text(bytes);
    assert forall|i: int| 0 <= i < text.len() implies (#[trigger] text[i]) as u32 <= 0x7f by {}
    assert(is_ascii_chars(text));
    is_ascii_chars_encode_utf8(text);
    assert(encode_utf8(text) =~= Seq::new(text.len(), |i: int| text[i] as u8));
}

/// Decoding undoes encoding: the text that `encode_hex` writes for `bytes` is
/// hexadecimal, and it stands for `bytes`.
pub proof fn lemma_hex_round_trip(bytes: Seq<u8>)
    ensures
        is_hex(encode_utf8(hex_text(bytes))),
        hex_fault(encode_utf8(hex_text(bytes))) is None,
        hex_bytes(encode_utf8(hex_text(bytes))) == bytes,
{
    lemma_hex_text_is_ascii(bytes);
    let text = encode_utf8(hex_text(bytes));
    assert forall|i: int| 0 <= i < text.len() implies nibble_value(
        #[trigger] text[i] as char,
    ) is Some by {
        assert(text[i] == hex_text(bytes)[i] as u8);
    }
    assert forall|i: int| 0 <= i < bytes.len() implies hex_bytes(text)[i] == bytes[i] by {
        assert(text[2 * i] == hex_text(bytes)[2 * i] as u8);
        assert(text[2 * i + 1] == hex_text(bytes)[2 * i + 1] as u8);
    }
    assert(hex_bytes(text) =~= bytes);
    lemma_hex_fault(text);
}

} // verus!

//! Byte arrays and their hexadecimal text.
//!
//! The canonical text of a byte array is `0x` followed by two lowercase
//! hexadecimal digits per byte. Reading is more lenient than writing: the
//! prefix may be missing and digits may be in either case.

use substreams::Hex;
use vstd::prelude::*;
use vstd::string::*;

verus! {

/// The lowercase hexadecimal digit of a number below sixteen.
pub open spec fn hex_digit(n: int) -> char {
    if n < 10 {
        ((48 + n) as u8) as char
    } else {
        ((87 + n) as u8) as char
    }
}

/// The number that a hexadecimal digit of either case stands for.
pub open spec fn hex_digit_value(c: char) -> Option<int> {
    let v = c as int;
    if 48 <= v <= 57 {
        Some(v - 48)
    } else if 97 <= v <= 102 {
        Some(v - 87)
    } else if 65 <= v <= 70 {
        Some(v - 55)
    } else {
        None
    }
}

/// Two lowercase digits per byte, high digit first, without a prefix.
pub open spec fn hex_text(bytes: Seq<u8>) -> Seq<char> {
    Seq::new(
        2 * bytes.len(),
        |i: int|
            if i % 2 == 0 {
                hex_digit(bytes[i / 2] as int / 16)
            } else {
                hex_digit(bytes[i / 2] as int % 16)
            },
    )
}

/// The canonical text of a byte array.
pub open spec fn canonical_hex(bytes: Seq<u8>) -> Seq<char> {
    seq!['0', 'x'] + hex_text(bytes)
}

/// Whether a text starts with `0x`.
pub open spec fn has_hex_prefix(text: Seq<char>) -> bool {
    text.len() >= 2 && text[0] == '0' && text[1] == 'x'
}

/// A text without its `0x` prefix, if it has one.
pub open spec fn hex_body(text: Seq<char>) -> Seq<char> {
    if has_hex_prefix(text) {
        text.skip(2)
    } else {
        text
    }
}

/// Whether a text is an even number of hexadecimal digits.
pub open spec fn is_hex_text(body: Seq<char>) -> bool {
    body.len() % 2 == 0 && forall|i: int| 0 <= i < body.len() ==> hex_digit_value(#[trigger] body[i]) is Some
}

/// The bytes that pairs of hexadecimal digits stand for.
pub open spec fn hex_bytes(body: Seq<char>) -> Seq<u8> {
    Seq::new(
        (body.len() / 2) as nat,
        |i: int|
            (16 * hex_digit_value(body[2 * i]).unwrap() + hex_digit_value(
                body[2 * i + 1],
            ).unwrap()) as u8,
    )
}

/// The byte array that a text stands for. A text of fewer than two
/// characters stands for none, nor does one with an odd number of digits or
/// with anything but digits after the optional prefix.
pub open spec fn parse_hex(text: Seq<char>) -> Option<Seq<u8>> {
    if text.len() >= 2 && is_hex_text(hex_body(text)) {
        Some(hex_bytes(hex_body(text)))
    } else {
        None
    }
}

/// The byte strings that a sequence of vectors holds.
pub open spec fn byte_strings(items: Seq<Vec<u8>>) -> Seq<Seq<u8>> {
    Seq::new(items.len(), |i: int| items[i]@)
}

/// Calls `substreams::Hex::encode`, which writes two lowercase hexadecimal
/// digits for each byte and nothing else.
#[verifier::external_body]
fn encode_lower(bytes: &Vec<u8>) -> (r: String)
    ensures
        r@ == hex_text(bytes@),
{
    Hex::encode(bytes)
}

/// Calls `substreams::Hex::decode`, which drops a leading `0x` and hands the
/// rest to `hex::decode`: an error unless the rest is an even number of
/// hexadecimal digits, each pair giving one byte. It reads the first two
/// bytes of its input unconditionally, so shorter inputs are kept out.
#[verifier::external_body]
fn decode_digits(text: &str) -> (r: Option<Vec<u8>>)
    requires
        text@.len() >= 2,
    ensures
        r.is_some() == is_hex_text(hex_body(text@)),
        r matches Some(bytes) ==> bytes@ == hex_bytes(hex_body(text@)),
{
    Hex::decode(text).ok()
}

/// The canonical text of a byte array.
pub fn to_hex(bytes: &Vec<u8>) -> (r: String)
    ensures
        r@ == canonical_hex(bytes@),
{
    let digits = encode_lower(bytes);
    proof {
        reveal_strlit("0x");
    }
    let r = "0x".to_owned().concat(digits.as_str());
    assert(r@ =~= canonical_hex(bytes@));
    r
}

/// Reads a byte array from its text.
pub fn from_hex(text: &str) -> (r: Option<Vec<u8>>)
    ensures
        r.is_some() == parse_hex(text@).is_some(),
        r matches Some(bytes) ==> Some(bytes@) == parse_hex(text@),
{
    if text.unicode_len() < 2 {
        None
    } else {
        decode_digits(text)
    }
}

/// Reading the canonical text of a byte array gives the byte array back.
pub proof fn lemma_hex_round_trip(bytes: Seq<u8>)
    ensures
        parse_hex(canonical_hex(bytes)) == Some(bytes),
{
    let text = canonical_hex(bytes);
    let body = hex_body(text);
    assert(has_hex_prefix(text));
    assert(body =~= hex_text(bytes));
    assert forall|i: int| 0 <= i < body.len() implies hex_digit_value(#[trigger] body[i]) is Some by {
        let b = bytes[i / 2] as int;
        assert(0 <= b / 16 < 16 && 0 <= b % 16 < 16);
    }
    assert forall|i: int| 0 <= i < bytes.len() implies hex_bytes(body)[i] == bytes[i] by {
        let b = bytes[i] as int;
        assert(0 <= b / 16 < 16 && 0 <= b % 16 < 16);
        assert(body[2 * i] == hex_digit(b / 16));
        assert(body[2 * i + 1] == hex_digit(b % 16));
        assert(16 * (b / 16) + b % 16 == b);
    }
    assert(hex_bytes(body) =~= bytes);
}

} // verus!

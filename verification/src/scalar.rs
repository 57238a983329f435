//! Arbitrary-precision integers and their decimal text.
//!
//! A [`BigIntValue`] keeps an integer as its canonical text: base ten, a
//! leading `-` for negative numbers, no leading zeros. Reading is more
//! lenient than writing: a leading `+` is accepted, as are leading zeros and
//! underscores between digits.

use std::str::FromStr;
use substreams::scalar::BigInt;
use vstd::prelude::*;

verus! {

/// The character of a decimal digit.
pub open spec fn digit_char(d: int) -> char {
    ((48 + d) as u8) as char
}

/// Whether a character is a decimal digit.
pub open spec fn is_digit(c: char) -> bool {
    48 <= c as int <= 57
}

/// The number that a decimal digit stands for.
pub open spec fn digit_value(c: char) -> int {
    c as int - 48
}

/// The digits of a natural number, most significant first, without leading
/// zeros; the single digit `0` for zero.
pub open spec fn decimal_digits(n: nat) -> Seq<char>
    decreases n,
{
    if n < 10 {
        seq![digit_char(n as int)]
    } else {
        decimal_digits(n / 10).push(digit_char((n % 10) as int))
    }
}

/// The canonical text of an integer.
pub open spec fn decimal_text(x: int) -> Seq<char> {
    if x < 0 {
        seq!['-'] + decimal_digits((-x) as nat)
    } else {
        decimal_digits(x as nat)
    }
}

/// Whether a text can be read as a magnitude: digits and underscores only,
/// at least one character, and no underscore in front.
pub open spec fn is_magnitude(s: Seq<char>) -> bool {
    &&& s.len() > 0
    &&& s[0] != '_'
    &&& forall|i: int| 0 <= i < s.len() ==> is_digit(#[trigger] s[i]) || s[i] == '_'
}

/// The number that the digits of a text give in base ten; underscores count
/// for nothing.
pub open spec fn digits_value(s: Seq<char>) -> nat
    decreases s.len(),
{
    if s.len() == 0 {
        0
    } else if s.last() == '_' {
        digits_value(s.drop_last())
    } else {
        (10 * digits_value(s.drop_last()) + digit_value(s.last())) as nat
    }
}

/// The integer that a text stands for, if it stands for one: an optional
/// sign, `-` or `+`, and a magnitude.
pub open spec fn parse_decimal(s: Seq<char>) -> Option<int> {
    if s.len() > 0 && s[0] == '-' {
        if is_magnitude(s.skip(1)) {
            Some(-(digits_value(s.skip(1)) as int))
        } else {
            None
        }
    } else if s.len() > 0 && s[0] == '+' {
        if is_magnitude(s.skip(1)) {
            Some(digits_value(s.skip(1)) as int)
        } else {
            None
        }
    } else if is_magnitude(s) {
        Some(digits_value(s) as int)
    } else {
        None
    }
}

/// The number that bytes give in base 256, most significant byte first.
pub open spec fn be_value(bytes: Seq<u8>) -> nat
    decreases bytes.len(),
{
    if bytes.len() == 0 {
        0
    } else {
        256 * be_value(bytes.drop_last()) + bytes.last() as nat
    }
}

/// 256 to the power of `n`.
pub open spec fn pow256(n: nat) -> nat
    decreases n,
{
    if n == 0 {
        1
    } else {
        256 * pow256((n - 1) as nat)
    }
}

/// The integer that bytes give in two's complement, most significant byte
/// first; zero for no bytes.
pub open spec fn signed_be_value(bytes: Seq<u8>) -> int {
    if bytes.len() > 0 && bytes[0] >= 128 {
        be_value(bytes) - pow256(bytes.len())
    } else {
        be_value(bytes) as int
    }
}

/// The digits of a number are digits, and read back as that number.
pub proof fn lemma_decimal_digits(n: nat)
    ensures
        decimal_digits(n).len() > 0,
        forall|i: int| 0 <= i < decimal_digits(n).len() ==> is_digit(#[trigger] decimal_digits(n)[i]),
        digits_value(decimal_digits(n)) == n,
    decreases n,
{
    if n < 10 {
        let s = decimal_digits(n);
        assert(s.drop_last() =~= Seq::<char>::empty());
        assert(digits_value(s.drop_last()) == 0);
    } else {
        lemma_decimal_digits(n / 10);
        let s = decimal_digits(n);
        assert(s.drop_last() =~= decimal_digits(n / 10));
        assert(s.last() == digit_char((n % 10) as int));
    }
}

/// Reading the canonical text of an integer gives the integer back.
pub proof fn lemma_decimal_round_trip(x: int)
    ensures
        parse_decimal(decimal_text(x)) == Some(x),
{
    if x < 0 {
        let n = (-x) as nat;
        lemma_decimal_digits(n);
        let s = decimal_text(x);
        assert(s.skip(1) =~= decimal_digits(n));
        assert(s[0] == '-');
    } else {
        lemma_decimal_digits(x as nat);
        let s = decimal_text(x);
        assert(is_digit(s[0]));
    }
}

/// Calls `substreams::scalar::BigInt::from_str` and, on success, `to_string`
/// on what it gave. The first reads base ten as `num-bigint` does: a `-` or a
/// `+` in front, then digits, with underscores allowed after the first
/// character; anything else is an error. The second writes the canonical
/// text.
#[verifier::external_body]
fn canonical_decimal(text: &str) -> (r: Option<String>)
    ensures
        r.is_some() == parse_decimal(text@).is_some(),
        r matches Some(t) ==> t@ == decimal_text(parse_decimal(text@).unwrap()),
{
    BigInt::from_str(text).ok().map(|n| n.to_string())
}

/// Calls `substreams::scalar::BigInt::from_unsigned_bytes_be`, which reads
/// the bytes as one number in base 256, and writes it with `to_string`.
#[verifier::external_body]
fn decimal_of_unsigned_be(bytes: &Vec<u8>) -> (r: String)
    ensures
        r@ == decimal_text(be_value(bytes@) as int),
{
    BigInt::from_unsigned_bytes_be(bytes).to_string()
}

/// Calls `substreams::scalar::BigInt::from_signed_bytes_be`, which reads the
/// bytes as one number in two's complement, and writes it with `to_string`.
#[verifier::external_body]
fn decimal_of_signed_be(bytes: &Vec<u8>) -> (r: String)
    ensures
        r@ == decimal_text(signed_be_value(bytes@)),
{
    BigInt::from_signed_bytes_be(bytes).to_string()
}

/// Calls `substreams::scalar::BigInt::from` on a `u64` and writes the number
/// with `to_string`.
#[verifier::external_body]
fn decimal_of_u64(n: u64) -> (r: String)
    ensures
        r@ == decimal_text(n as int),
{
    BigInt::from(n).to_string()
}

/// An arbitrary-precision signed integer.
#[derive(Debug, PartialEq, Eq)]
pub struct BigIntValue {
    text: String,
}

impl View for BigIntValue {
    type V = int;

    closed spec fn view(&self) -> int {
        parse_decimal(self.text@).unwrap()
    }
}

impl BigIntValue {
    #[verifier::type_invariant]
    spec fn is_canonical(&self) -> bool {
        &&& parse_decimal(self.text@) is Some
        &&& decimal_text(parse_decimal(self.text@).unwrap()) == self.text@
    }

    fn from_canonical(text: String, Ghost(x): Ghost<int>) -> (r: BigIntValue)
        requires
            text@ == decimal_text(x),
        ensures
            r@ == x,
    {
        proof {
            lemma_decimal_round_trip(x);
        }
        BigIntValue { text }
    }

    /// Reads an integer from decimal text.
    pub fn parse(text: &str) -> (r: Option<BigIntValue>)
        ensures
            r.is_some() == parse_decimal(text@).is_some(),
            r matches Some(v) ==> Some(v@) == parse_decimal(text@),
    {
        match canonical_decimal(text) {
            Some(t) => Some(BigIntValue::from_canonical(t, Ghost(parse_decimal(text@).unwrap()))),
            None => None,
        }
    }

    /// The canonical text of the integer.
    pub fn to_string(&self) -> (r: String)
        ensures
            r@ == decimal_text(self@),
    {
        proof {
            use_type_invariant(self);
        }
        self.text.clone()
    }

    /// The number that the bytes give in base 256, most significant first.
    pub fn from_unsigned_bytes_be(bytes: &Vec<u8>) -> (r: BigIntValue)
        ensures
            r@ == be_value(bytes@),
    {
        BigIntValue::from_canonical(decimal_of_unsigned_be(bytes), Ghost(be_value(bytes@) as int))
    }

    /// The number that the bytes give in two's complement, most significant
    /// first.
    pub fn from_signed_bytes_be(bytes: &Vec<u8>) -> (r: BigIntValue)
        ensures
            r@ == signed_be_value(bytes@),
    {
        BigIntValue::from_canonical(decimal_of_signed_be(bytes), Ghost(signed_be_value(bytes@)))
    }

    /// The integer of a machine word.
    pub fn from_u64(n: u64) -> (r: BigIntValue)
        ensures
            r@ == n,
    {
        BigIntValue::from_canonical(decimal_of_u64(n), Ghost(n as int))
    }
}

impl Clone for BigIntValue {
    fn clone(&self) -> (r: Self)
        ensures
            r@ == self@,
    {
        proof {
            use_type_invariant(self);
        }
        BigIntValue { text: self.text.clone() }
    }
}

} // verus!

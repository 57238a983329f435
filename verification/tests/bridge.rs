use streamline::builtins::{address, property, uint};
use streamline::custom_serde::big_int;
use streamline::custom_serde::bytes;
use streamline::custom_serde::ConversionFailure;
use streamline::dynamic::DynamicValue;
use streamline::hex::{from_hex, to_hex};
use streamline::scalar::BigIntValue;

fn text(s: &str) -> DynamicValue {
    DynamicValue::Text(s.to_string())
}

fn integer(s: &str) -> DynamicValue {
    DynamicValue::Integer(s.to_string())
}

fn hex(s: &str) -> DynamicValue {
    DynamicValue::Bytes(s.to_string())
}

#[test]
fn hex_text_is_prefixed_and_lowercase() {
    assert_eq!(to_hex(&vec![0xab, 0xcd, 0x01]), "0xabcd01");
    assert_eq!(to_hex(&vec![0x00, 0xff]), "0x00ff");
    assert_eq!(to_hex(&vec![]), "0x");
}

#[test]
fn hex_text_reads_back() {
    assert_eq!(from_hex("0x6e8b"), Some(vec![110, 139]));
    assert_eq!(from_hex("6e8b"), Some(vec![110, 139]));
    assert_eq!(from_hex("6E8B"), Some(vec![110, 139]));
    assert_eq!(from_hex("0x"), Some(vec![]));
}

#[test]
fn hex_text_that_is_malformed_is_refused() {
    assert_eq!(from_hex(""), None);
    assert_eq!(from_hex("0"), None);
    assert_eq!(from_hex("a"), None);
    assert_eq!(from_hex("0x1"), None);
    assert_eq!(from_hex("abc"), None);
    assert_eq!(from_hex("zz"), None);
    assert_eq!(from_hex("0X12"), None);
    assert_eq!(from_hex("0x0x12"), None);
    assert_eq!(from_hex("\u{e9}"), None);
    assert_eq!(from_hex("12\u{e9}4"), None);
}

#[test]
fn hex_round_trip_on_every_byte() {
    let all: Vec<u8> = (0..=255).collect();
    assert_eq!(from_hex(&to_hex(&all)), Some(all));
}

#[test]
fn big_int_round_trip() {
    for canonical in [
        "0",
        "7",
        "-7",
        "10",
        "1000",
        "-1000",
        "18446744073709551616",
        "115792089237316195423570985008687907853269984665640564039457584007913129639935",
        "-57896044618658097711785492504343953926634992332820282019728792003956564819968",
    ] {
        let value = BigIntValue::parse(canonical).unwrap();
        assert_eq!(value.to_string(), canonical);
        let again = BigIntValue::parse(&value.to_string()).unwrap();
        assert_eq!(again, value);
    }
}

#[test]
fn big_int_reading_is_lenient() {
    assert_eq!(BigIntValue::parse("+5").unwrap().to_string(), "5");
    assert_eq!(BigIntValue::parse("007").unwrap().to_string(), "7");
    assert_eq!(BigIntValue::parse("-007").unwrap().to_string(), "-7");
    assert_eq!(BigIntValue::parse("1_000").unwrap().to_string(), "1000");
    assert_eq!(BigIntValue::parse("1_").unwrap().to_string(), "1");
    assert_eq!(BigIntValue::parse("-0").unwrap().to_string(), "0");
    assert_eq!(BigIntValue::parse("+0").unwrap().to_string(), "0");
}

#[test]
fn big_int_text_that_is_no_number_is_refused() {
    for bad in ["", "-", "+", "_1", "-_1", "12a", "--1", "-+1", "+-1", "++1", "1.5", " 1", "0x10", "\u{663}"] {
        assert!(BigIntValue::parse(bad).is_none(), "{bad:?} was read");
    }
}

#[test]
fn big_int_from_bytes() {
    assert_eq!(BigIntValue::from_unsigned_bytes_be(&vec![0x03, 0xe8]).to_string(), "1000");
    assert_eq!(BigIntValue::from_unsigned_bytes_be(&vec![]).to_string(), "0");
    assert_eq!(BigIntValue::from_unsigned_bytes_be(&vec![0x00, 0x00, 0x01]).to_string(), "1");
    assert_eq!(BigIntValue::from_unsigned_bytes_be(&vec![0xff]).to_string(), "255");
    assert_eq!(
        BigIntValue::from_unsigned_bytes_be(&vec![0xff; 32]).to_string(),
        "115792089237316195423570985008687907853269984665640564039457584007913129639935"
    );
    assert_eq!(BigIntValue::from_signed_bytes_be(&vec![0xff]).to_string(), "-1");
    assert_eq!(BigIntValue::from_signed_bytes_be(&vec![0x80]).to_string(), "-128");
    assert_eq!(BigIntValue::from_signed_bytes_be(&vec![0x7f]).to_string(), "127");
    assert_eq!(BigIntValue::from_signed_bytes_be(&vec![0xff, 0x38]).to_string(), "-200");
    assert_eq!(BigIntValue::from_signed_bytes_be(&vec![0x00, 0xff]).to_string(), "255");
    assert_eq!(BigIntValue::from_signed_bytes_be(&vec![]).to_string(), "0");
    assert_eq!(BigIntValue::from_signed_bytes_be(&vec![0xff; 32]).to_string(), "-1");
}

#[test]
fn big_int_from_word() {
    assert_eq!(BigIntValue::from_u64(0).to_string(), "0");
    assert_eq!(BigIntValue::from_u64(42).to_string(), "42");
    assert_eq!(BigIntValue::from_u64(u64::MAX).to_string(), "18446744073709551615");
}

#[test]
fn big_int_clone_is_equal() {
    let value = BigIntValue::parse("-123456789012345678901234567890").unwrap();
    assert_eq!(value.clone(), value);
}

#[test]
fn big_int_travels_as_decimal_text() {
    let value = BigIntValue::parse("1000").unwrap();
    assert_eq!(big_int::serialize(&value), integer("1000"));
    assert_eq!(big_int::deserialize(&integer("1000")).unwrap(), value);
    assert_eq!(big_int::deserialize(&text("+1_000")).unwrap(), value);
    let back = big_int::deserialize(&big_int::serialize(&value)).unwrap();
    assert_eq!(back, value);
}

#[test]
fn big_int_reading_fails_without_panic() {
    assert_eq!(big_int::deserialize(&text("abc")), Err(ConversionFailure::UnparsableInteger));
    assert_eq!(big_int::deserialize(&integer("")), Err(ConversionFailure::UnparsableInteger));
    assert_eq!(big_int::deserialize(&DynamicValue::Unit), Err(ConversionFailure::WrongKind));
    assert_eq!(big_int::deserialize(&DynamicValue::Bool(true)), Err(ConversionFailure::WrongKind));
    assert_eq!(big_int::deserialize(&hex("0x10")), Err(ConversionFailure::WrongKind));
    assert_eq!(
        big_int::deserialize(&DynamicValue::Sequence(vec![])),
        Err(ConversionFailure::WrongKind)
    );
}

#[test]
fn big_int_sequences_travel_element_by_element() {
    let values = vec![
        BigIntValue::parse("1").unwrap(),
        BigIntValue::parse("-2").unwrap(),
        BigIntValue::parse("300000000000000000000").unwrap(),
    ];
    let written = big_int::vec::serialize(&values);
    assert_eq!(
        written,
        DynamicValue::Sequence(vec![integer("1"), integer("-2"), integer("300000000000000000000")])
    );
    assert_eq!(big_int::vec::deserialize(&written).unwrap(), values);
    assert_eq!(big_int::vec::serialize(&vec![]), DynamicValue::Sequence(vec![]));
    assert_eq!(big_int::vec::deserialize(&DynamicValue::Sequence(vec![])).unwrap(), vec![]);
}

#[test]
fn big_int_sequences_fail_at_the_first_bad_item() {
    let mixed = DynamicValue::Sequence(vec![integer("1"), DynamicValue::Bool(false), text("x")]);
    assert_eq!(big_int::vec::deserialize(&mixed), Err(ConversionFailure::WrongKind));
    let mixed = DynamicValue::Sequence(vec![integer("1"), text("x"), DynamicValue::Bool(false)]);
    assert_eq!(big_int::vec::deserialize(&mixed), Err(ConversionFailure::UnparsableInteger));
    assert_eq!(big_int::vec::deserialize(&integer("1")), Err(ConversionFailure::WrongKind));
}

#[test]
fn bytes_travel_as_hex_text() {
    assert_eq!(bytes::serialize(&vec![0xde, 0xad]), hex("0xdead"));
    assert_eq!(bytes::serialize(&vec![]), hex("0x"));
    assert_eq!(bytes::deserialize(&hex("0xdead")), Ok(vec![0xde, 0xad]));
    assert_eq!(bytes::deserialize(&text("DEAD")), Ok(vec![0xde, 0xad]));
    assert_eq!(bytes::deserialize(&bytes::serialize(&vec![1, 2, 3])), Ok(vec![1, 2, 3]));
}

#[test]
fn bytes_reading_fails_without_panic() {
    assert_eq!(bytes::deserialize(&text("")), Err(ConversionFailure::MalformedHex));
    assert_eq!(bytes::deserialize(&text("0xabc")), Err(ConversionFailure::MalformedHex));
    assert_eq!(bytes::deserialize(&text("hello")), Err(ConversionFailure::MalformedHex));
    assert_eq!(bytes::deserialize(&integer("12")), Err(ConversionFailure::WrongKind));
    assert_eq!(bytes::deserialize(&DynamicValue::Unit), Err(ConversionFailure::WrongKind));
    assert_eq!(bytes::deserialize(&DynamicValue::Record(vec![])), Err(ConversionFailure::WrongKind));
}

#[test]
fn byte_sequences_travel_element_by_element() {
    let values = vec![vec![0x01], vec![], vec![0xff, 0x00]];
    let written = bytes::vec::serialize(&values);
    assert_eq!(written, DynamicValue::Sequence(vec![hex("0x01"), hex("0x"), hex("0xff00")]));
    assert_eq!(bytes::vec::deserialize(&written), Ok(values));
    let mixed = DynamicValue::Sequence(vec![hex("0x01"), text("0x1"), DynamicValue::Unit]);
    assert_eq!(bytes::vec::deserialize(&mixed), Err(ConversionFailure::MalformedHex));
    let mixed = DynamicValue::Sequence(vec![DynamicValue::Unit, text("0x1")]);
    assert_eq!(bytes::vec::deserialize(&mixed), Err(ConversionFailure::WrongKind));
    assert_eq!(bytes::vec::deserialize(&hex("0x01")), Err(ConversionFailure::WrongKind));
}

#[test]
fn address_needs_twenty_bytes() {
    let mut twenty = vec![0u8; 20];
    twenty[19] = 0xaa;
    assert_eq!(address(&twenty), hex("0x00000000000000000000000000000000000000aa"));
    assert_eq!(address(&vec![0xff; 20]), hex("0xffffffffffffffffffffffffffffffffffffffff"));
    for len in [0usize, 1, 19, 21, 32] {
        assert_eq!(address(&vec![0x11; len]), DynamicValue::Unit, "length {len}");
    }
}

#[test]
fn uint_gives_the_canonical_text() {
    assert_eq!(uint(&text("+007")), integer("7"));
    assert_eq!(uint(&integer("1000")), integer("1000"));
    assert_eq!(uint(&text("-1_0")), integer("-10"));
    assert_eq!(uint(&text("seven")), DynamicValue::Unit);
    assert_eq!(uint(&DynamicValue::Bool(true)), DynamicValue::Unit);
    assert_eq!(uint(&DynamicValue::Unit), DynamicValue::Unit);
}

#[test]
fn property_looks_into_the_result() {
    let stored = DynamicValue::Record(vec![
        ("other".to_string(), text("x")),
        (
            "result".to_string(),
            DynamicValue::Record(vec![
                ("owner".to_string(), hex("0x01")),
                ("amount".to_string(), integer("5")),
                ("owner".to_string(), hex("0x02")),
            ]),
        ),
    ]);
    assert_eq!(property(&stored, "owner"), hex("0x01"));
    assert_eq!(property(&stored, "amount"), integer("5"));
    assert_eq!(property(&stored, "missing"), DynamicValue::Unit);
    assert_eq!(property(&stored, "other"), DynamicValue::Unit);
    let flat = DynamicValue::Record(vec![("result".to_string(), text("x"))]);
    assert_eq!(property(&flat, "x"), DynamicValue::Unit);
    assert_eq!(property(&DynamicValue::Record(vec![]), "x"), DynamicValue::Unit);
    assert_eq!(property(&DynamicValue::Unit, "x"), DynamicValue::Unit);
}

#[test]
fn dynamic_values_are_looked_up_by_field() {
    let record = DynamicValue::Record(vec![
        ("a".to_string(), integer("1")),
        ("b".to_string(), integer("2")),
        ("a".to_string(), integer("3")),
    ]);
    assert_eq!(record.get("a"), Some(&integer("1")));
    assert_eq!(record.get("b"), Some(&integer("2")));
    assert_eq!(record.get("c"), None);
    assert_eq!(integer("1").get("a"), None);
    assert_eq!(integer("1").as_text(), Some(&"1".to_string()));
    assert_eq!(DynamicValue::Bool(true).as_text(), None);
    assert_eq!(record.clone(), record);
    assert_eq!(record.duplicate(), record);
}

//! Byte arrays travel as hexadecimal text.

use crate::custom_serde::ConversionFailure;
use crate::dynamic::{DynamicModel, DynamicValue};
use crate::hex::{canonical_hex, from_hex, parse_hex, to_hex};
use vstd::prelude::*;

pub mod vec;

verus! {

/// The dynamic form of a byte array: its canonical hexadecimal text.
pub open spec fn serialized(bytes: Seq<u8>) -> DynamicModel {
    DynamicModel::Bytes(canonical_hex(bytes))
}

/// The byte array that a dynamic value stands for. Hexadecimal text and
/// plain text are read; every other kind of value is of the wrong kind.
pub open spec fn deserialized(value: DynamicModel) -> Result<Seq<u8>, ConversionFailure> {
    match value {
        DynamicModel::Bytes(s) | DynamicModel::Text(s) => match parse_hex(s) {
            Some(bytes) => Ok(bytes),
            None => Err(ConversionFailure::MalformedHex),
        },
        _ => Err(ConversionFailure::WrongKind),
    }
}

/// Writes a byte array as a dynamic value.
pub fn serialize(val: &Vec<u8>) -> (r: DynamicValue)
    ensures
        r@ == serialized(val@),
{
    DynamicValue::Bytes(to_hex(val))
}

/// Reads a byte array from a dynamic value.
pub fn deserialize(value: &DynamicValue) -> (r: Result<Vec<u8>, ConversionFailure>)
    ensures
        match deserialized(value@) {
            Ok(bytes) => r matches Ok(v) && v@ == bytes,
            Err(e) => r == Err::<Vec<u8>, ConversionFailure>(e),
        },
{
    match value {
        DynamicValue::Bytes(s) | DynamicValue::Text(s) => match from_hex(s.as_str()) {
            Some(v) => Ok(v),
            None => Err(ConversionFailure::MalformedHex),
        },
        _ => Err(ConversionFailure::WrongKind),
    }
}

/// Reading what was written gives the byte array back.
pub proof fn lemma_round_trip(bytes: Seq<u8>)
    ensures
        deserialized(serialized(bytes)) == Ok::<Seq<u8>, ConversionFailure>(bytes),
{
    crate::hex::lemma_hex_round_trip(bytes);
}

} // verus!

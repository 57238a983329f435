//! Big integers travel as decimal text.

use crate::custom_serde::ConversionFailure;
use crate::dynamic::{DynamicModel, DynamicValue};
use crate::scalar::{decimal_text, parse_decimal, BigIntValue};
use vstd::prelude::*;

pub mod vec;

verus! {

/// The dynamic form of an integer: its canonical decimal text.
pub open spec fn serialized(x: int) -> DynamicModel {
    DynamicModel::Integer(decimal_text(x))
}

/// The integer that a dynamic value stands for. Integer text and plain text
/// are read; every other kind of value is of the wrong kind.
pub open spec fn deserialized(value: DynamicModel) -> Result<int, ConversionFailure> {
    match value {
        DynamicModel::Integer(s) | DynamicModel::Text(s) => match parse_decimal(s) {
            Some(x) => Ok(x),
            None => Err(ConversionFailure::UnparsableInteger),
        },
        _ => Err(ConversionFailure::WrongKind),
    }
}

/// Writes an integer as a dynamic value.
pub fn serialize(big_int: &BigIntValue) -> (r: DynamicValue)
    ensures
        r@ == serialized(big_int@),
{
    DynamicValue::Integer(big_int.to_string())
}

/// Reads an integer from a dynamic value.
pub fn deserialize(value: &DynamicValue) -> (r: Result<BigIntValue, ConversionFailure>)
    ensures
        match deserialized(value@) {
            Ok(x) => r matches Ok(v) && v@ == x,
            Err(e) => r == Err::<BigIntValue, ConversionFailure>(e),
        },
{
    match value {
        DynamicValue::Integer(s) | DynamicValue::Text(s) => match BigIntValue::parse(s.as_str()) {
            Some(v) => Ok(v),
            None => Err(ConversionFailure::UnparsableInteger),
        },
        _ => Err(ConversionFailure::WrongKind),
    }
}

/// Reading what was written gives the integer back.
pub proof fn lemma_round_trip(x: int)
    ensures
        deserialized(serialized(x)) == Ok::<int, ConversionFailure>(x),
{
    crate::scalar::lemma_decimal_round_trip(x);
}

} // verus!

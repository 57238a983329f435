//! Interface files: from the text of a file to descriptor objects.
//!
//! Reading the text is the work of `serde_json`. What it gives back goes
//! over into the dynamic value model, value by value.

use crate::descriptor::{load, ContractInterface, InterfaceModel};
use crate::dynamic::{lemma_sequence_view, DynamicModel, DynamicValue};
use crate::error::{FatalKind, GenerationFatal};
use serde_json::Value;
use vstd::prelude::*;

verus! {

/// `serde_json::Value`: a value as the reader gives it. Nothing is known of
/// what a value of it holds.
#[verifier::external_type_specification]
#[verifier::external_body]
pub struct ExValue(serde_json::Value);

/// Reads a `serde_json::Value` as a dynamic value, variant by variant: an
/// array as a sequence, an object as a record of its entries, in the order
/// in which the object gives them, and a number as its text.
#[verifier::external_body]
fn dynamic_of_json(value: &Value) -> DynamicValue {
    match value {
        Value::Null => DynamicValue::Unit,
        Value::Bool(b) => DynamicValue::Bool(*b),
        Value::Number(n) => DynamicValue::Integer(n.to_string()),
        Value::String(s) => DynamicValue::Text(s.clone()),
        Value::Array(items) => DynamicValue::Sequence(items.iter().map(dynamic_of_json).collect()),
        Value::Object(entries) => DynamicValue::Record(
            entries.iter().map(|(k, v)| (k.clone(), dynamic_of_json(v))).collect(),
        ),
    }
}

/// The value that a text stands for, where it is well-formed.
pub uninterp spec fn json_value(text: Seq<char>) -> Option<DynamicModel>;

/// Calls `serde_json::from_str` for a `serde_json::Value`. An error is
/// `None`.
#[verifier::external_body]
fn parse_json(text: &str) -> (r: Option<DynamicValue>)
    ensures
        r.is_some() == json_value(text@).is_some(),
        r matches Some(v) ==> Some(v@) == json_value(text@),
{
    serde_json::from_str::<Value>(text).ok().map(|v| dynamic_of_json(&v))
}

/// The interface that a value stands for: the value must be a sequence of
/// descriptor objects.
pub open spec fn interface_of(name: Seq<char>, value: Option<DynamicModel>) -> Result<
    InterfaceModel,
    GenerationFatal,
> {
    match value {
        Some(DynamicModel::Sequence(items)) => load(name, items, items.len()),
        _ => Err(GenerationFatal { kind: FatalKind::MalformedInterface, descriptor: 0 }),
    }
}

/// Loads the interface of the contract `name` from the value that its
/// interface file holds, if the file held one.
pub fn load_value(name: &str, value: Option<&DynamicValue>) -> (r: Result<
    ContractInterface,
    GenerationFatal,
>)
    ensures
        match interface_of(
            name@,
            match value {
                Some(v) => Some(v@),
                None => None,
            },
        ) {
            Ok(interface) => r matches Ok(v) && v@ == interface,
            Err(e) => r == Err::<ContractInterface, GenerationFatal>(e),
        },
{
    match value {
        Some(DynamicValue::Sequence(items)) => {
            proof {
                lemma_sequence_view(*items);
            }
            ContractInterface::load(name, items)
        },
        _ => Err(GenerationFatal { kind: FatalKind::MalformedInterface, descriptor: 0 }),
    }
}

/// Loads the interface of the contract `name` from the text of its
/// interface file.
pub fn load_text(name: &str, text: &str) -> (r: Result<ContractInterface, GenerationFatal>)
    ensures
        match interface_of(name@, json_value(text@)) {
            Ok(interface) => r matches Ok(v) && v@ == interface,
            Err(e) => r == Err::<ContractInterface, GenerationFatal>(e),
        },
{
    let value = parse_json(text);
    match &value {
        Some(v) => load_value(name, Some(v)),
        None => load_value(name, None),
    }
}

} // verus!

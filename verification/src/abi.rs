//! Decoded contract data and its way into the dynamic value model.
//!
//! Binary decoding is the work of `ethabi`. What it gives back is held here
//! as plain values, an [`AbiValue`] for each token, and turned into dynamic
//! values under the guidance of the declared types.

use crate::bridge::{dynamic_form, lemma_typed_sequence_view, lemma_typed_tuple_view};
use crate::bridge::{typed_fields, typed_models, TypedField, TypedModel, TypedValue};
use crate::descriptor::{EventDescriptor, EventModel};
use crate::dynamic::{entry_models, lemma_record_view};
use crate::dynamic::{DynamicModel, DynamicValue, FieldModel};
use crate::scalar::{be_value, signed_be_value, BigIntValue};
use crate::types::{lemma_tuple_view, param_models, Param, ParamModel, SolidityType, TypeModel};
use ethabi::{Event, EventParam, ParamType, RawLog, Token};
use vstd::prelude::*;

verus! {

/// `ethabi::ParamType`: a type as the decoder wants it. Nothing is known
/// of what a value of it holds.
#[verifier::external_type_specification]
#[verifier::external_body]
pub struct ExParamType(ethabi::ParamType);

/// `ethabi::Token`: a value as the decoder gives it. Nothing is known of
/// what a value of it holds.
#[verifier::external_type_specification]
#[verifier::external_body]
pub struct ExToken(ethabi::Token);

/// A decoded value, as the decoder gives it.
#[derive(Debug, PartialEq, Eq)]
pub enum AbiValue {
    /// The bytes of an address or of a byte string.
    Bytes(Vec<u8>),
    /// The word of an integer, most significant byte first; a signed
    /// integer stands in two's complement.
    Word(Vec<u8>),
    Bool(bool),
    Text(String),
    Array(Vec<AbiValue>),
    Tuple(Vec<AbiValue>),
}

/// The mathematical model of an [`AbiValue`].
pub enum AbiModel {
    Bytes(Seq<u8>),
    Word(Seq<u8>),
    Bool(bool),
    Text(Seq<char>),
    Array(Seq<AbiModel>),
    Tuple(Seq<AbiModel>),
}

impl AbiValue {
    /// The model of a decoded value.
    pub open spec fn model(self) -> AbiModel
        decreases self,
    {
        match self {
            AbiValue::Bytes(b) => AbiModel::Bytes(b@),
            AbiValue::Word(w) => AbiModel::Word(w@),
            AbiValue::Bool(b) => AbiModel::Bool(b),
            AbiValue::Text(s) => AbiModel::Text(s@),
            AbiValue::Array(items) => AbiModel::Array(
                Seq::new(
                    items@.len(),
                    |i: int|
                        if 0 <= i < items@.len() {
                            items@[i].model()
                        } else {
                            AbiModel::Bool(false)
                        },
                ),
            ),
            AbiValue::Tuple(items) => AbiModel::Tuple(
                Seq::new(
                    items@.len(),
                    |i: int|
                        if 0 <= i < items@.len() {
                            items@[i].model()
                        } else {
                            AbiModel::Bool(false)
                        },
                ),
            ),
        }
    }
}

impl View for AbiValue {
    type V = AbiModel;

    open spec fn view(&self) -> AbiModel {
        self.model()
    }
}

/// The models of a sequence of decoded values, one by one.
pub open spec fn abi_models(items: Seq<AbiValue>) -> Seq<AbiModel> {
    Seq::new(items.len(), |i: int| items[i]@)
}

/// An array shows the models of its items.
pub proof fn lemma_array_view(items: Vec<AbiValue>)
    ensures
        AbiValue::Array(items)@ == AbiModel::Array(abi_models(items@)),
{
    assert(AbiValue::Array(items)@->Array_0 =~= abi_models(items@));
}

/// A tuple shows the models of its items.
pub proof fn lemma_tuple_value_view(items: Vec<AbiValue>)
    ensures
        AbiValue::Tuple(items)@ == AbiModel::Tuple(abi_models(items@)),
{
    assert(AbiValue::Tuple(items)@->Tuple_0 =~= abi_models(items@));
}

/// The typed value of a decoded value of a declared type. The bytes of an
/// address or of a byte string are a byte array; the word of an integer is
/// a big integer, read in two's complement where the type is signed; an
/// array is a sequence and a tuple bears the names of its components, in
/// the order of declaration. A value that is not of the declared type is no
/// value.
pub open spec fn typed_of(kind: TypeModel, value: AbiModel) -> TypedModel
    decreases value,
{
    match (kind, value) {
        (TypeModel::Address, AbiModel::Bytes(b)) => TypedModel::ByteArray(b),
        (TypeModel::Bytes, AbiModel::Bytes(b)) => TypedModel::ByteArray(b),
        (TypeModel::FixedBytes(_), AbiModel::Bytes(b)) => TypedModel::ByteArray(b),
        (TypeModel::Uint(_), AbiModel::Word(w)) => TypedModel::BigInt(be_value(w) as int),
        (TypeModel::Int(_), AbiModel::Word(w)) => TypedModel::BigInt(signed_be_value(w)),
        (TypeModel::Bool, AbiModel::Bool(b)) => TypedModel::Boolean(b),
        (TypeModel::Text, AbiModel::Text(s)) => TypedModel::Text(s),
        (TypeModel::Array(inner), AbiModel::Array(items)) => TypedModel::Sequence(
            Seq::new(
                items.len(),
                |i: int|
                    if 0 <= i < items.len() {
                        typed_of(*inner, items[i])
                    } else {
                        TypedModel::Empty
                    },
            ),
        ),
        (TypeModel::Tuple(parts), AbiModel::Tuple(items)) => if parts.len() == items.len() {
            TypedModel::Tuple(
                Seq::new(
                    items.len(),
                    |i: int|
                        if 0 <= i < items.len() {
                            TypedField { name: parts[i].name, value: typed_of(parts[i].kind, items[i]) }
                        } else {
                            TypedField { name: Seq::empty(), value: TypedModel::Empty }
                        },
                ),
            )
        } else {
            TypedModel::Empty
        },
        _ => TypedModel::Empty,
    }
}

/// The dynamic value of a decoded value of a declared type: the dynamic
/// form of its typed value.
pub open spec fn dynamic_of(kind: TypeModel, value: AbiModel) -> DynamicModel {
    dynamic_form(typed_of(kind, value))
}

/// The record of values decoded for named parameters: one entry for each
/// parameter, under its name, in the order of declaration; the empty value
/// where there is not one value for each parameter.
pub open spec fn record_of(params: Seq<ParamModel>, values: Seq<AbiModel>) -> DynamicModel {
    if params.len() == values.len() {
        DynamicModel::Record(
            Seq::new(
                params.len(),
                |i: int|
                    FieldModel { name: params[i].name, value: dynamic_of(params[i].kind, values[i]) },
            ),
        )
    } else {
        DynamicModel::Unit
    }
}

/// Turns decoded values into the record of the parameters that they were
/// decoded for.
pub fn to_record(params: &Vec<Param>, values: &Vec<AbiValue>) -> (r: DynamicValue)
    ensures
        r@ == record_of(param_models(params@), abi_models(values@)),
{
    if params.len() != values.len() {
        return DynamicValue::Unit;
    }
    let mut out: Vec<(String, DynamicValue)> = Vec::new();
    let mut i: usize = 0;
    while i < params.len()
        invariant
            i <= params.len(),
            params.len() == values.len(),
            out.len() == i,
            forall|j: int|
                0 <= j < i ==> out@[j].0@ == params@[j].name@ && out@[j].1@ == dynamic_of(
                    params@[j].kind@,
                    values@[j]@,
                ),
        decreases params.len() - i,
    {
        let value = to_dynamic(&params[i].kind, &values[i]);
        out.push((params[i].name.clone(), value));
        i += 1;
    }
    proof {
        lemma_record_view(out);
        assert(entry_models(out@) =~= record_of(
            param_models(params@),
            abi_models(values@),
        )->Record_0);
    }
    DynamicValue::Record(out)
}

/// Turns a decoded value of a declared type into a typed value.
#[verifier::loop_isolation(false)]
pub fn typed_value(kind: &SolidityType, value: &AbiValue) -> (r: TypedValue)
    ensures
        r@ == typed_of(kind@, value@),
    decreases value,
{
    match (kind, value) {
        (SolidityType::Address, AbiValue::Bytes(b)) => TypedValue::ByteArray(b.clone()),
        (SolidityType::Bytes, AbiValue::Bytes(b)) => TypedValue::ByteArray(b.clone()),
        (SolidityType::FixedBytes(_), AbiValue::Bytes(b)) => TypedValue::ByteArray(b.clone()),
        (SolidityType::Uint(_), AbiValue::Word(w)) => TypedValue::BigInt(
            BigIntValue::from_unsigned_bytes_be(w),
        ),
        (SolidityType::Int(_), AbiValue::Word(w)) => TypedValue::BigInt(
            BigIntValue::from_signed_bytes_be(w),
        ),
        (SolidityType::Bool, AbiValue::Bool(b)) => TypedValue::Boolean(*b),
        (SolidityType::Text, AbiValue::Text(s)) => TypedValue::Text(s.clone()),
        (SolidityType::Array(inner), AbiValue::Array(items)) => {
            proof {
                lemma_array_view(*items);
            }
            let mut out: Vec<TypedValue> = Vec::new();
            let mut i: usize = 0;
            while i < items.len()
                invariant
                    i <= items.len(),
                    out.len() == i,
                    forall|j: int| 0 <= j < i ==> out@[j]@ == typed_of(inner@, items@[j]@),
                decreases items.len() - i,
            {
                proof {
                    vstd::std_specs::vec::axiom_vec_index_decreases(*items, i as int);
                }
                let item = typed_value(inner, &items[i]);
                out.push(item);
                i += 1;
            }
            proof {
                lemma_typed_sequence_view(out);
                assert(typed_models(out@) =~= typed_of(kind@, value@)->Sequence_0);
            }
            TypedValue::Sequence(out)
        },
        (SolidityType::Tuple(parts), AbiValue::Tuple(items)) => {
            proof {
                lemma_tuple_view(*parts);
                lemma_tuple_value_view(*items);
            }
            if parts.len() != items.len() {
                return TypedValue::Empty;
            }
            let mut out: Vec<(String, TypedValue)> = Vec::new();
            let mut i: usize = 0;
            while i < items.len()
                invariant
                    i <= items.len(),
                    out.len() == i,
                    forall|j: int|
                        0 <= j < i ==> out@[j].0@ == parts@[j].name@ && out@[j].1@ == typed_of(
                            parts@[j].kind@,
                            items@[j]@,
                        ),
                decreases items.len() - i,
            {
                proof {
                    vstd::std_specs::vec::axiom_vec_index_decreases(*items, i as int);
                }
                let item = typed_value(&parts[i].kind, &items[i]);
                out.push((parts[i].name.clone(), item));
                i += 1;
            }
            proof {
                lemma_typed_tuple_view(out);
                assert(typed_fields(out@) =~= typed_of(kind@, value@)->Tuple_0);
            }
            TypedValue::Tuple(out)
        },
        _ => TypedValue::Empty,
    }
}

/// Turns a decoded value of a declared type into a dynamic value.
pub fn to_dynamic(kind: &SolidityType, value: &AbiValue) -> (r: DynamicValue)
    ensures
        r@ == dynamic_of(kind@, value@),
{
    crate::bridge::to_dynamic(&typed_value(kind, value))
}

/// Whether values of a type can be handed to the decoder: every tuple in it
/// has a component.
pub open spec fn decodable(kind: TypeModel) -> bool
    decreases kind,
{
    match kind {
        TypeModel::Array(inner) => decodable(*inner),
        TypeModel::Tuple(parts) => parts.len() > 0 && forall|i: int|
            0 <= i < parts.len() ==> decodable((#[trigger] parts[i]).kind),
        _ => true,
    }
}

/// Whether the types of all parameters can be handed to the decoder.
pub open spec fn all_decodable(params: Seq<ParamModel>) -> bool {
    forall|i: int| 0 <= i < params.len() ==> decodable((#[trigger] params[i]).kind)
}

/// Tells whether values of a type can be handed to the decoder.
#[verifier::loop_isolation(false)]
pub fn is_decodable(kind: &SolidityType) -> (r: bool)
    ensures
        r == decodable(kind@),
    decreases kind,
{
    match kind {
        SolidityType::Array(inner) => is_decodable(inner),
        SolidityType::Tuple(parts) => {
            proof {
                lemma_tuple_view(*parts);
            }
            if parts.len() == 0 {
                return false;
            }
            let ghost ps = param_models(parts@);
            let mut i: usize = 0;
            while i < parts.len()
                invariant
                    i <= parts.len(),
                    forall|j: int| 0 <= j < i ==> decodable((#[trigger] ps[j]).kind),
                decreases parts.len() - i,
            {
                proof {
                    vstd::std_specs::vec::axiom_vec_index_decreases(*parts, i as int);
                }
                if !is_decodable(&parts[i].kind) {
                    assert(!decodable(ps[i as int].kind));
                    return false;
                }
                assert(decodable(ps[i as int].kind));
                i += 1;
            }
            true
        },
        _ => true,
    }
}

/// Tells whether the types of all parameters can be handed to the decoder.
pub fn are_decodable(params: &Vec<Param>) -> (r: bool)
    ensures
        r == all_decodable(param_models(params@)),
{
    let ghost ps = param_models(params@);
    let mut i: usize = 0;
    while i < params.len()
        invariant
            i <= params.len(),
            ps == param_models(params@),
            forall|j: int| 0 <= j < i ==> decodable((#[trigger] ps[j]).kind),
        decreases params.len() - i,
    {
        if !is_decodable(&params[i].kind) {
            assert(!decodable(ps[i as int].kind));
            return false;
        }
        assert(decodable(ps[i as int].kind));
        i += 1;
    }
    true
}

/// The views of a sequence of words, one by one.
pub open spec fn words(topics: Seq<[u8; 32]>) -> Seq<Seq<u8>> {
    Seq::new(topics.len(), |i: int| topics[i]@)
}

/// Builds the `ethabi::ParamType` that a type stands for, variant by
/// variant; widths go over as they are.
#[verifier::external_body]
fn param_type_of(kind: &SolidityType) -> ParamType {
    match kind {
        SolidityType::Address => ParamType::Address,
        SolidityType::Bool => ParamType::Bool,
        SolidityType::Text => ParamType::String,
        SolidityType::Bytes => ParamType::Bytes,
        SolidityType::FixedBytes(n) => ParamType::FixedBytes(*n as usize),
        SolidityType::Int(n) => ParamType::Int(*n as usize),
        SolidityType::Uint(n) => ParamType::Uint(*n as usize),
        SolidityType::Array(inner) => ParamType::Array(Box::new(param_type_of(inner))),
        SolidityType::Tuple(parts) => ParamType::Tuple(
            parts.iter().map(|p| param_type_of(&p.kind)).collect(),
        ),
    }
}

/// Reads an `ethabi::Token` as plain values, variant by variant: an address
/// by its twenty bytes, an integer of either sign by the thirty-two bytes of
/// its word, most significant first. Byte strings of fixed and of free
/// length are both byte strings, and so with arrays.
#[verifier::external_body]
fn abi_value_of(token: &Token) -> AbiValue {
    match token {
        Token::Address(a) => AbiValue::Bytes(a.as_bytes().to_vec()),
        Token::FixedBytes(b) | Token::Bytes(b) => AbiValue::Bytes(b.clone()),
        Token::Int(w) | Token::Uint(w) => AbiValue::Word(<[u8; 32]>::from(*w).to_vec()),
        Token::Bool(b) => AbiValue::Bool(*b),
        Token::String(s) => AbiValue::Text(s.clone()),
        Token::FixedArray(v) | Token::Array(v) => AbiValue::Array(
            v.iter().map(abi_value_of).collect(),
        ),
        Token::Tuple(v) => AbiValue::Tuple(v.iter().map(abi_value_of).collect()),
    }
}

/// What `ethabi` decodes from the topics and the data of a log for an
/// event: the values of the inputs of the event, in the order of
/// declaration, or nothing where the log is not one of the event.
pub uninterp spec fn abi_log(event: EventModel, topics: Seq<Seq<u8>>, data: Seq<u8>) -> Option<
    Seq<AbiModel>,
>;

/// Calls `ethabi::Event::parse_log` on an event built from the descriptor
/// and a raw log built from the topics and the data. The inputs are handed
/// over under their positions in place of their names, since `parse_log`
/// tells them apart by name. An error is `None`. A tuple type without
/// components is kept out: the decoder would read no data for it.
#[verifier::external_body]
fn parse_log(event: &EventDescriptor, topics: &Vec<[u8; 32]>, data: &Vec<u8>) -> (r: Option<
    Vec<AbiValue>,
>)
    requires
        all_decodable(event@.inputs),
    ensures
        r.is_some() == abi_log(event@, words(topics@), data@).is_some(),
        r matches Some(values) ==> Some(abi_models(values@)) == abi_log(
            event@,
            words(topics@),
            data@,
        ),
{
    let inputs = event.inputs.iter().enumerate().map(
        |(i, p)| EventParam { name: i.to_string(), kind: param_type_of(&p.kind), indexed: p.indexed },
    ).collect();
    let abi = Event { name: event.name.clone(), inputs, anonymous: event.anonymous };
    let raw = RawLog { topics: topics.iter().map(|t| (*t).into()).collect(), data: data.clone() };
    abi.parse_log(raw).ok().map(|log| log.params.iter().map(|p| abi_value_of(&p.value)).collect())
}

/// What `ethabi` decodes from returned data for a list of output
/// parameters: one value for each, in order, or nothing where the data do
/// not hold them.
pub uninterp spec fn abi_values(outputs: Seq<ParamModel>, data: Seq<u8>) -> Option<Seq<AbiModel>>;

/// Calls `ethabi::decode` with the types of the output parameters. An error
/// is `None`. A tuple type without components is kept out: the decoder would
/// read no data for it.
#[verifier::external_body]
fn decode_values(outputs: &Vec<Param>, data: &Vec<u8>) -> (r: Option<Vec<AbiValue>>)
    requires
        all_decodable(param_models(outputs@)),
    ensures
        r.is_some() == abi_values(param_models(outputs@), data@).is_some(),
        r matches Some(values) ==> Some(abi_models(values@)) == abi_values(
            param_models(outputs@),
            data@,
        ),
{
    let kinds: Vec<ParamType> = outputs.iter().map(|p| param_type_of(&p.kind)).collect();
    ethabi::decode(&kinds, data).ok().map(|tokens| tokens.iter().map(abi_value_of).collect())
}

/// The first four bytes of the hash of the signature of a function that
/// takes no arguments.
pub uninterp spec fn selector_of(name: Seq<char>) -> Seq<u8>;

/// Calls `ethabi::short_signature` with the name and no parameters: the
/// first four bytes of the Keccak-256 hash of the name followed by `()`.
#[verifier::external_body]
fn short_signature(name: &str) -> (r: Vec<u8>)
    ensures
        r@ == selector_of(name@),
{
    ethabi::short_signature(name, &[]).to_vec()
}

/// The values that the log holds for the inputs of the event, where they
/// can be decoded at all.
pub open spec fn log_values(event: EventModel, topics: Seq<Seq<u8>>, data: Seq<u8>) -> Option<
    Seq<AbiModel>,
> {
    if all_decodable(event.inputs) {
        abi_log(event, topics, data)
    } else {
        None
    }
}

/// Decodes the topics and the data of a log against an event.
pub fn decode_log(event: &EventDescriptor, topics: &Vec<[u8; 32]>, data: &Vec<u8>) -> (r: Option<
    Vec<AbiValue>,
>)
    ensures
        r.is_some() == log_values(event@, words(topics@), data@).is_some(),
        r matches Some(values) ==> Some(abi_models(values@)) == log_values(
            event@,
            words(topics@),
            data@,
        ),
{
    if are_decodable(&event.inputs) {
        parse_log(event, topics, data)
    } else {
        None
    }
}

/// The values that returned data hold for output parameters, where they can
/// be decoded at all.
pub open spec fn returned_values(outputs: Seq<ParamModel>, data: Seq<u8>) -> Option<
    Seq<AbiModel>,
> {
    if all_decodable(outputs) {
        abi_values(outputs, data)
    } else {
        None
    }
}

/// Decodes returned data against output parameters.
pub fn decode_outputs(outputs: &Vec<Param>, data: &Vec<u8>) -> (r: Option<Vec<AbiValue>>)
    ensures
        r.is_some() == returned_values(param_models(outputs@), data@).is_some(),
        r matches Some(values) ==> Some(abi_models(values@)) == returned_values(
            param_models(outputs@),
            data@,
        ),
{
    if are_decodable(outputs) {
        decode_values(outputs, data)
    } else {
        None
    }
}

/// The data of a call, without arguments, of the function `name`.
pub fn call_data(name: &str) -> (r: Vec<u8>)
    ensures
        r@ == selector_of(name@),
{
    short_signature(name)
}

} // verus!

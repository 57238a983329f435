//! The bridge between typed values of the host and the dynamic value model.
//!
//! Writing a typed value as a dynamic value never fails. Reading one back
//! needs the host type that is expected, and fails with a
//! [`ConversionFailure`] where the dynamic value is of another shape.

use crate::custom_serde::big_int;
use crate::custom_serde::bytes;
use crate::custom_serde::ConversionFailure;
use crate::dynamic::{entry_models, lemma_record_view, lemma_sequence_view, models};
use crate::dynamic::{DynamicModel, DynamicValue, FieldModel};
use crate::hex::canonical_hex;
use crate::scalar::{decimal_text, BigIntValue};
use crate::types::{host_models, lemma_host_tuple_view, HostModel, HostType};
use vstd::prelude::*;

verus! {

/// A typed value of the host.
#[derive(Debug, PartialEq, Eq)]
pub enum TypedValue {
    /// No value.
    Empty,
    Boolean(bool),
    Text(String),
    BigInt(BigIntValue),
    ByteArray(Vec<u8>),
    Sequence(Vec<TypedValue>),
    /// Named values, in the order of declaration.
    Tuple(Vec<(String, TypedValue)>),
}

/// The mathematical model of a [`TypedValue`].
pub enum TypedModel {
    Empty,
    Boolean(bool),
    Text(Seq<char>),
    BigInt(int),
    ByteArray(Seq<u8>),
    Sequence(Seq<TypedModel>),
    Tuple(Seq<TypedField>),
}

/// The model of one named value of a tuple.
pub struct TypedField {
    pub name: Seq<char>,
    pub value: TypedModel,
}

impl TypedValue {
    /// The model of a typed value.
    pub open spec fn model(self) -> TypedModel
        decreases self,
    {
        match self {
            TypedValue::Empty => TypedModel::Empty,
            TypedValue::Boolean(b) => TypedModel::Boolean(b),
            TypedValue::Text(s) => TypedModel::Text(s@),
            TypedValue::BigInt(x) => TypedModel::BigInt(x@),
            TypedValue::ByteArray(b) => TypedModel::ByteArray(b@),
            TypedValue::Sequence(items) => TypedModel::Sequence(
                Seq::new(
                    items@.len(),
                    |i: int|
                        if 0 <= i < items@.len() {
                            items@[i].model()
                        } else {
                            TypedModel::Empty
                        },
                ),
            ),
            TypedValue::Tuple(fields) => TypedModel::Tuple(
                Seq::new(
                    fields@.len(),
                    |i: int|
                        if 0 <= i < fields@.len() {
                            TypedField { name: fields@[i].0@, value: fields@[i].1.model() }
                        } else {
                            TypedField { name: Seq::empty(), value: TypedModel::Empty }
                        },
                ),
            ),
        }
    }
}

impl View for TypedValue {
    type V = TypedModel;

    open spec fn view(&self) -> TypedModel {
        self.model()
    }
}

/// The models of a sequence of typed values, one by one.
pub open spec fn typed_models(items: Seq<TypedValue>) -> Seq<TypedModel> {
    Seq::new(items.len(), |i: int| items[i]@)
}

/// The models of a sequence of named typed values, one by one.
pub open spec fn typed_fields(fields: Seq<(String, TypedValue)>) -> Seq<TypedField> {
    Seq::new(fields.len(), |i: int| TypedField { name: fields[i].0@, value: fields[i].1@ })
}

/// A sequence shows the models of its items.
pub proof fn lemma_typed_sequence_view(items: Vec<TypedValue>)
    ensures
        TypedValue::Sequence(items)@ == TypedModel::Sequence(typed_models(items@)),
{
    assert(TypedValue::Sequence(items)@->Sequence_0 =~= typed_models(items@));
}

/// A tuple shows the models of its fields.
pub proof fn lemma_typed_tuple_view(fields: Vec<(String, TypedValue)>)
    ensures
        TypedValue::Tuple(fields)@ == TypedModel::Tuple(typed_fields(fields@)),
{
    assert(TypedValue::Tuple(fields)@->Tuple_0 =~= typed_fields(fields@));
}

/// The dynamic form of a typed value: a big integer as its canonical
/// decimal text, a byte array as its canonical hexadecimal text, a sequence
/// element by element, a tuple as a record keyed by the names of its
/// fields, in the order of declaration, and no value as the empty value.
pub open spec fn dynamic_form(value: TypedModel) -> DynamicModel
    decreases value,
{
    match value {
        TypedModel::Empty => DynamicModel::Unit,
        TypedModel::Boolean(b) => DynamicModel::Bool(b),
        TypedModel::Text(s) => DynamicModel::Text(s),
        TypedModel::BigInt(x) => DynamicModel::Integer(decimal_text(x)),
        TypedModel::ByteArray(b) => DynamicModel::Bytes(canonical_hex(b)),
        TypedModel::Sequence(items) => DynamicModel::Sequence(
            Seq::new(
                items.len(),
                |i: int|
                    if 0 <= i < items.len() {
                        dynamic_form(items[i])
                    } else {
                        DynamicModel::Unit
                    },
            ),
        ),
        TypedModel::Tuple(fields) => DynamicModel::Record(
            Seq::new(
                fields.len(),
                |i: int|
                    if 0 <= i < fields.len() {
                        FieldModel { name: fields[i].name, value: dynamic_form(fields[i].value) }
                    } else {
                        FieldModel { name: Seq::empty(), value: DynamicModel::Unit }
                    },
            ),
        ),
    }
}

/// Writes a typed value as a dynamic value.
#[verifier::loop_isolation(false)]
pub fn to_dynamic(value: &TypedValue) -> (r: DynamicValue)
    ensures
        r@ == dynamic_form(value@),
    decreases value,
{
    match value {
        TypedValue::Empty => DynamicValue::Unit,
        TypedValue::Boolean(b) => DynamicValue::Bool(*b),
        TypedValue::Text(s) => DynamicValue::Text(s.clone()),
        TypedValue::BigInt(x) => big_int::serialize(x),
        TypedValue::ByteArray(b) => bytes::serialize(b),
        TypedValue::Sequence(items) => {
            proof {
                lemma_typed_sequence_view(*items);
            }
            let mut out: Vec<DynamicValue> = Vec::new();
            let mut i: usize = 0;
            while i < items.len()
                invariant
                    i <= items.len(),
                    out.len() == i,
                    forall|j: int| 0 <= j < i ==> out@[j]@ == dynamic_form(items@[j]@),
                decreases items.len() - i,
            {
                proof {
                    vstd::std_specs::vec::axiom_vec_index_decreases(*items, i as int);
                }
                let item = to_dynamic(&items[i]);
                out.push(item);
                i += 1;
            }
            proof {
                lemma_sequence_view(out);
                assert(models(out@) =~= dynamic_form(value@)->Sequence_0);
            }
            DynamicValue::Sequence(out)
        },
        TypedValue::Tuple(fields) => {
            proof {
                lemma_typed_tuple_view(*fields);
            }
            let mut out: Vec<(String, DynamicValue)> = Vec::new();
            let mut i: usize = 0;
            while i < fields.len()
                invariant
                    i <= fields.len(),
                    out.len() == i,
                    forall|j: int|
                        0 <= j < i ==> out@[j].0@ == fields@[j].0@ && out@[j].1@ == dynamic_form(
                            fields@[j].1@,
                        ),
                decreases fields.len() - i,
            {
                proof {
                    vstd::std_specs::vec::axiom_vec_index_decreases(*fields, i as int);
                }
                let item = to_dynamic(&fields[i].1);
                out.push((fields[i].0.clone(), item));
                i += 1;
            }
            proof {
                lemma_record_view(out);
                assert(entry_models(out@) =~= dynamic_form(value@)->Record_0);
            }
            DynamicValue::Record(out)
        },
    }
}

/// The number of bytes of an address.
pub const ADDRESS_LEN: usize = 20;

/// The typed value that a dynamic value stands for when a value of the host
/// type `expected` is asked for. A boolean is read from a boolean and a text
/// from a text; a big integer is read from decimal text and a byte array
/// from hexadecimal text, and a byte array that is to be an address must
/// have twenty bytes; a sequence is read element by element and a tuple from
/// a record with one entry for each part, entry by entry, the first failure
/// being the failure of the whole.
pub open spec fn typed_form(value: DynamicModel, expected: HostModel) -> Result<
    TypedModel,
    ConversionFailure,
>
    decreases value, 0nat,
{
    match expected {
        HostModel::Boolean => match value {
            DynamicModel::Bool(b) => Ok(TypedModel::Boolean(b)),
            _ => Err(ConversionFailure::WrongKind),
        },
        HostModel::Text => match value {
            DynamicModel::Text(s) => Ok(TypedModel::Text(s)),
            _ => Err(ConversionFailure::WrongKind),
        },
        HostModel::BigInt => match big_int::deserialized(value) {
            Ok(x) => Ok(TypedModel::BigInt(x)),
            Err(e) => Err(e),
        },
        HostModel::ByteArray { address } => match bytes::deserialized(value) {
            Ok(b) => if address && b.len() != ADDRESS_LEN {
                Err(ConversionFailure::NotAnAddress)
            } else {
                Ok(TypedModel::ByteArray(b))
            },
            Err(e) => Err(e),
        },
        HostModel::Sequence(inner) => match value {
            DynamicModel::Sequence(items) => match typed_items(items, *inner, items.len()) {
                Ok(values) => Ok(TypedModel::Sequence(values)),
                Err(e) => Err(e),
            },
            _ => Err(ConversionFailure::WrongKind),
        },
        HostModel::Tuple(parts) => match value {
            DynamicModel::Record(entries) => if entries.len() == parts.len() {
                match typed_entries(entries, parts, entries.len()) {
                    Ok(fields) => Ok(TypedModel::Tuple(fields)),
                    Err(e) => Err(e),
                }
            } else {
                Err(ConversionFailure::WrongKind)
            },
            _ => Err(ConversionFailure::WrongKind),
        },
    }
}

/// The typed values that the first `n` of a sequence of dynamic values
/// stand for, or the failure of the first that stands for none.
pub open spec fn typed_items(items: Seq<DynamicModel>, inner: HostModel, n: nat) -> Result<
    Seq<TypedModel>,
    ConversionFailure,
>
    decreases items, n,
{
    if n == 0 || n > items.len() {
        Ok(Seq::empty())
    } else {
        match typed_items(items, inner, (n - 1) as nat) {
            Err(e) => Err(e),
            Ok(values) => match typed_form(items[n - 1], inner) {
                Err(e) => Err(e),
                Ok(v) => Ok(values.push(v)),
            },
        }
    }
}

/// The named typed values that the first `n` entries of a record stand
/// for, each read as the part at its position, or the failure of the first
/// that stands for none.
pub open spec fn typed_entries(entries: Seq<FieldModel>, parts: Seq<HostModel>, n: nat) -> Result<
    Seq<TypedField>,
    ConversionFailure,
>
    decreases entries, n,
{
    if n == 0 || n > entries.len() || n > parts.len() {
        Ok(Seq::empty())
    } else {
        match typed_entries(entries, parts, (n - 1) as nat) {
            Err(e) => Err(e),
            Ok(fields) => match typed_form(entries[n - 1].value, parts[n - 1]) {
                Err(e) => Err(e),
                Ok(v) => Ok(fields.push(TypedField { name: entries[n - 1].name, value: v })),
            },
        }
    }
}

/// Once an item cannot be read, looking at more of them changes nothing.
proof fn lemma_typed_items_stop(items: Seq<DynamicModel>, inner: HostModel, k: nat, n: nat)
    requires
        k <= n <= items.len(),
        typed_items(items, inner, k) is Err,
    ensures
        typed_items(items, inner, n) == typed_items(items, inner, k),
    decreases n,
{
    if k < n {
        lemma_typed_items_stop(items, inner, k, (n - 1) as nat);
    }
}

/// Once an entry cannot be read, looking at more of them changes nothing.
proof fn lemma_typed_entries_stop(
    entries: Seq<FieldModel>,
    parts: Seq<HostModel>,
    k: nat,
    n: nat,
)
    requires
        k <= n <= entries.len(),
        n <= parts.len(),
        typed_entries(entries, parts, k) is Err,
    ensures
        typed_entries(entries, parts, n) == typed_entries(entries, parts, k),
    decreases n,
{
    if k < n {
        lemma_typed_entries_stop(entries, parts, k, (n - 1) as nat);
    }
}

/// Reads a dynamic value as a typed value of the host type `expected`.
#[verifier::loop_isolation(false)]
pub fn from_dynamic(value: &DynamicValue, expected: &HostType) -> (r: Result<
    TypedValue,
    ConversionFailure,
>)
    ensures
        match typed_form(value@, expected@) {
            Ok(t) => r matches Ok(v) && v@ == t,
            Err(e) => r == Err::<TypedValue, ConversionFailure>(e),
        },
    decreases value,
{
    match expected {
        HostType::Boolean => match value {
            DynamicValue::Bool(b) => Ok(TypedValue::Boolean(*b)),
            _ => Err(ConversionFailure::WrongKind),
        },
        HostType::Text => match value {
            DynamicValue::Text(s) => Ok(TypedValue::Text(s.clone())),
            _ => Err(ConversionFailure::WrongKind),
        },
        HostType::BigInt => match big_int::deserialize(value) {
            Ok(x) => Ok(TypedValue::BigInt(x)),
            Err(e) => Err(e),
        },
        HostType::ByteArray { address } => match bytes::deserialize(value) {
            Ok(b) => if *address && b.len() != ADDRESS_LEN {
                Err(ConversionFailure::NotAnAddress)
            } else {
                Ok(TypedValue::ByteArray(b))
            },
            Err(e) => Err(e),
        },
        HostType::Sequence(inner) => match value {
            DynamicValue::Sequence(items) => {
                proof {
                    lemma_sequence_view(*items);
                }
                let ghost all = models(items@);
                let mut out: Vec<TypedValue> = Vec::new();
                let mut i: usize = 0;
                assert(typed_models(out@) =~= Seq::<TypedModel>::empty());
                while i < items.len()
                    invariant
                        i <= items.len(),
                        all == models(items@),
                        typed_items(all, inner@, i as nat) == Ok::<
                            Seq<TypedModel>,
                            ConversionFailure,
                        >(typed_models(out@)),
                    decreases items.len() - i,
                {
                    proof {
                        vstd::std_specs::vec::axiom_vec_index_decreases(*items, i as int);
                    }
                    match from_dynamic(&items[i], inner) {
                        Err(e) => {
                            proof {
                                assert(typed_items(all, inner@, (i + 1) as nat) == Err::<
                                    Seq<TypedModel>,
                                    ConversionFailure,
                                >(e));
                                lemma_typed_items_stop(all, inner@, (i + 1) as nat, all.len());
                            }
                            return Err(e);
                        },
                        Ok(v) => {
                            let ghost before = typed_models(out@);
                            out.push(v);
                            assert(typed_models(out@) =~= before.push(v@));
                        },
                    }
                    i += 1;
                }
                proof {
                    lemma_typed_sequence_view(out);
                }
                Ok(TypedValue::Sequence(out))
            },
            _ => Err(ConversionFailure::WrongKind),
        },
        HostType::Tuple(parts) => match value {
            DynamicValue::Record(entries) => {
                proof {
                    lemma_record_view(*entries);
                    lemma_host_tuple_view(*parts);
                }
                if entries.len() != parts.len() {
                    return Err(ConversionFailure::WrongKind);
                }
                let ghost all = entry_models(entries@);
                let ghost kinds = host_models(parts@);
                let mut out: Vec<(String, TypedValue)> = Vec::new();
                let mut i: usize = 0;
                assert(typed_fields(out@) =~= Seq::<TypedField>::empty());
                while i < entries.len()
                    invariant
                        i <= entries.len(),
                        entries.len() == parts.len(),
                        all == entry_models(entries@),
                        kinds == host_models(parts@),
                        typed_entries(all, kinds, i as nat) == Ok::<
                            Seq<TypedField>,
                            ConversionFailure,
                        >(typed_fields(out@)),
                    decreases entries.len() - i,
                {
                    proof {
                        vstd::std_specs::vec::axiom_vec_index_decreases(*entries, i as int);
                    }
                    match from_dynamic(&entries[i].1, &parts[i]) {
                        Err(e) => {
                            proof {
                                assert(typed_entries(all, kinds, (i + 1) as nat) == Err::<
                                    Seq<TypedField>,
                                    ConversionFailure,
                                >(e));
                                lemma_typed_entries_stop(all, kinds, (i + 1) as nat, all.len());
                            }
                            return Err(e);
                        },
                        Ok(v) => {
                            let ghost before = typed_fields(out@);
                            let ghost added = TypedField { name: entries@[i as int].0@, value: v@ };
                            out.push((entries[i].0.clone(), v));
                            assert(typed_fields(out@) =~= before.push(added));
                        },
                    }
                    i += 1;
                }
                proof {
                    lemma_typed_tuple_view(out);
                }
                Ok(TypedValue::Tuple(out))
            },
            _ => Err(ConversionFailure::WrongKind),
        },
    }
}

/// Whether a typed value is of a host type: no part of it is missing, and a
/// byte array that is to be an address has twenty bytes.
pub open spec fn conforms(value: TypedModel, kind: HostModel) -> bool
    decreases value,
{
    match (value, kind) {
        (TypedModel::Boolean(_), HostModel::Boolean) => true,
        (TypedModel::Text(_), HostModel::Text) => true,
        (TypedModel::BigInt(_), HostModel::BigInt) => true,
        (TypedModel::ByteArray(b), HostModel::ByteArray { address }) => !address || b.len()
            == ADDRESS_LEN,
        (TypedModel::Sequence(items), HostModel::Sequence(inner)) => forall|i: int|
            0 <= i < items.len() ==> conforms(#[trigger] items[i], *inner),
        (TypedModel::Tuple(fields), HostModel::Tuple(parts)) => fields.len() == parts.len()
            && forall|i: int|
            0 <= i < fields.len() ==> conforms((#[trigger] fields[i]).value, parts[i]),
        _ => false,
    }
}

/// The dynamic forms of a sequence of typed values, one by one.
pub open spec fn dynamic_forms(items: Seq<TypedModel>) -> Seq<DynamicModel> {
    Seq::new(items.len(), |i: int| dynamic_form(items[i]))
}

/// The dynamic forms of a sequence of named typed values, one by one.
pub open spec fn dynamic_entries(fields: Seq<TypedField>) -> Seq<FieldModel> {
    Seq::new(
        fields.len(),
        |i: int| FieldModel { name: fields[i].name, value: dynamic_form(fields[i].value) },
    )
}

/// Reading what was written gives the typed value back: the bridge loses
/// nothing of a value that is of the host type that is asked for.
pub proof fn lemma_bridge_round_trip(value: TypedModel, kind: HostModel)
    requires
        conforms(value, kind),
    ensures
        typed_form(dynamic_form(value), kind) == Ok::<TypedModel, ConversionFailure>(value),
    decreases value, 0nat,
{
    match value {
        TypedModel::BigInt(x) => {
            big_int::lemma_round_trip(x);
        },
        TypedModel::ByteArray(b) => {
            bytes::lemma_round_trip(b);
        },
        TypedModel::Sequence(items) => {
            let inner = *kind->Sequence_0;
            assert(dynamic_form(value)->Sequence_0 =~= dynamic_forms(items));
            lemma_items_round_trip(items, inner, items.len());
            assert(items.take(items.len() as int) =~= items);
        },
        TypedModel::Tuple(fields) => {
            let parts = kind->Tuple_0;
            assert(dynamic_form(value)->Record_0 =~= dynamic_entries(fields));
            lemma_entries_round_trip(fields, parts, fields.len());
            assert(fields.take(fields.len() as int) =~= fields);
        },
        _ => {},
    }
}

/// Reading the first items of what was written gives them back.
proof fn lemma_items_round_trip(items: Seq<TypedModel>, inner: HostModel, n: nat)
    requires
        n <= items.len(),
        forall|i: int| 0 <= i < items.len() ==> conforms(#[trigger] items[i], inner),
    ensures
        typed_items(dynamic_forms(items), inner, n) == Ok::<Seq<TypedModel>, ConversionFailure>(
            items.take(n as int),
        ),
    decreases items, n,
{
    if n == 0 {
        assert(items.take(0) =~= Seq::<TypedModel>::empty());
    } else {
        lemma_items_round_trip(items, inner, (n - 1) as nat);
        lemma_bridge_round_trip(items[n - 1], inner);
        assert(items.take(n - 1).push(items[n - 1]) =~= items.take(n as int));
    }
}

/// Reading the first entries of what was written gives them back.
proof fn lemma_entries_round_trip(fields: Seq<TypedField>, parts: Seq<HostModel>, n: nat)
    requires
        n <= fields.len(),
        fields.len() == parts.len(),
        forall|i: int| 0 <= i < fields.len() ==> conforms((#[trigger] fields[i]).value, parts[i]),
    ensures
        typed_entries(dynamic_entries(fields), parts, n) == Ok::<
            Seq<TypedField>,
            ConversionFailure,
        >(fields.take(n as int)),
    decreases fields, n,
{
    if n == 0 {
        assert(fields.take(0) =~= Seq::<TypedField>::empty());
    } else {
        lemma_entries_round_trip(fields, parts, (n - 1) as nat);
        lemma_bridge_round_trip(fields[n - 1].value, parts[n - 1]);
        assert(fields.take(n - 1).push(fields[n - 1]) =~= fields.take(n as int));
    }
}

} // verus!

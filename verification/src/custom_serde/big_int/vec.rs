//! Sequences of big integers travel as sequences of decimal text.

use crate::custom_serde::big_int::{deserialized, serialized};
use crate::custom_serde::ConversionFailure;
use crate::dynamic::{lemma_sequence_view, models, DynamicModel, DynamicValue};
use crate::scalar::BigIntValue;
use vstd::prelude::*;

verus! {

/// The integers that a sequence of values holds.
pub open spec fn values(items: Seq<BigIntValue>) -> Seq<int> {
    Seq::new(items.len(), |i: int| items[i]@)
}

/// The dynamic form of a sequence of integers.
pub open spec fn serialized_all(xs: Seq<int>) -> DynamicModel {
    DynamicModel::Sequence(Seq::new(xs.len(), |i: int| serialized(xs[i])))
}

/// Whether `r` is what reading `value` as a sequence of integers gives:
/// every item read in order, or the failure of the first item that cannot be
/// read; a value that is no sequence is of the wrong kind.
pub open spec fn reads_as(value: DynamicModel, r: Result<Seq<int>, ConversionFailure>) -> bool {
    match value {
        DynamicModel::Sequence(items) => match r {
            Ok(xs) => xs.len() == items.len() && forall|i: int|
                0 <= i < items.len() ==> deserialized(#[trigger] items[i]) == Ok::<
                    int,
                    ConversionFailure,
                >(xs[i]),
            Err(e) => exists|k: int|
                0 <= k < items.len() && deserialized(#[trigger] items[k]) == Err::<
                    int,
                    ConversionFailure,
                >(e) && forall|j: int| 0 <= j < k ==> deserialized(#[trigger] items[j]) is Ok,
        },
        _ => r == Err::<Seq<int>, ConversionFailure>(ConversionFailure::WrongKind),
    }
}

/// Writes a sequence of integers as a dynamic value.
pub fn serialize(vec: &Vec<BigIntValue>) -> (r: DynamicValue)
    ensures
        r@ == serialized_all(values(vec@)),
{
    let mut out: Vec<DynamicValue> = Vec::new();
    let mut i: usize = 0;
    while i < vec.len()
        invariant
            i <= vec.len(),
            out.len() == i,
            forall|j: int| 0 <= j < i ==> out@[j]@ == serialized(vec@[j]@),
        decreases vec.len() - i,
    {
        out.push(crate::custom_serde::big_int::serialize(&vec[i]));
        i += 1;
    }
    proof {
        lemma_sequence_view(out);
        assert(models(out@) =~= serialized_all(values(vec@))->Sequence_0);
    }
    DynamicValue::Sequence(out)
}

/// Reads a sequence of integers from a dynamic value.
pub fn deserialize(value: &DynamicValue) -> (r: Result<Vec<BigIntValue>, ConversionFailure>)
    ensures
        match r {
            Ok(v) => reads_as(value@, Ok(values(v@))),
            Err(e) => reads_as(value@, Err(e)),
        },
{
    match value {
        DynamicValue::Sequence(items) => {
            proof {
                lemma_sequence_view(*items);
            }
            let mut out: Vec<BigIntValue> = Vec::new();
            let mut i: usize = 0;
            while i < items.len()
                invariant
                    i <= items.len(),
                    out.len() == i,
                    value@ == DynamicModel::Sequence(models(items@)),
                    forall|j: int|
                        0 <= j < i ==> deserialized(#[trigger] models(items@)[j]) == Ok::<
                            int,
                            ConversionFailure,
                        >(out@[j]@),
                decreases items.len() - i,
            {
                match crate::custom_serde::big_int::deserialize(&items[i]) {
                    Ok(v) => {
                        out.push(v);
                    },
                    Err(e) => {
                        assert(deserialized(models(items@)[i as int]) == Err::<
                            int,
                            ConversionFailure,
                        >(e));
                        return Err(e);
                    },
                }
                i += 1;
            }
            Ok(out)
        },
        _ => Err(ConversionFailure::WrongKind),
    }
}

} // verus!

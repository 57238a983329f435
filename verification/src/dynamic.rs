//! The dynamic value model shared by scripts and host accessors.
//!
//! Every value that crosses the boundary between a script and the host is a
//! [`DynamicValue`]: a tagged variant with explicit, total conversions. Big
//! integers travel as decimal text and byte arrays as hexadecimal text.

use vstd::prelude::*;

verus! {

/// A value as a script sees it.
#[derive(Debug, PartialEq, Eq)]
pub enum DynamicValue {
    /// The empty value; also the uniform failure signal.
    Unit,
    /// A boolean.
    Bool(bool),
    /// An arbitrary-precision integer, as decimal text.
    Integer(String),
    /// A text.
    Text(String),
    /// A byte array, as `0x`-prefixed hexadecimal text.
    Bytes(String),
    /// An ordered sequence.
    Sequence(Vec<DynamicValue>),
    /// An ordered map from field names to values, in declaration order.
    Record(Vec<(String, DynamicValue)>),
}

/// The mathematical model of a [`DynamicValue`].
pub enum DynamicModel {
    Unit,
    Bool(bool),
    Integer(Seq<char>),
    Text(Seq<char>),
    Bytes(Seq<char>),
    Sequence(Seq<DynamicModel>),
    Record(Seq<FieldModel>),
}

/// The model of one entry of a record.
pub struct FieldModel {
    pub name: Seq<char>,
    pub value: DynamicModel,
}

impl DynamicValue {
    /// The model of a value: texts by their characters, sequences and
    /// records by the models of what they hold.
    pub open spec fn model(self) -> DynamicModel
        decreases self,
    {
        match self {
            DynamicValue::Unit => DynamicModel::Unit,
            DynamicValue::Bool(b) => DynamicModel::Bool(b),
            DynamicValue::Integer(s) => DynamicModel::Integer(s@),
            DynamicValue::Text(s) => DynamicModel::Text(s@),
            DynamicValue::Bytes(s) => DynamicModel::Bytes(s@),
            DynamicValue::Sequence(items) => DynamicModel::Sequence(
                Seq::new(
                    items@.len(),
                    |i: int|
                        if 0 <= i < items@.len() {
                            items@[i].model()
                        } else {
                            DynamicModel::Unit
                        },
                ),
            ),
            DynamicValue::Record(entries) => DynamicModel::Record(
                Seq::new(
                    entries@.len(),
                    |i: int|
                        if 0 <= i < entries@.len() {
                            FieldModel { name: entries@[i].0@, value: entries@[i].1.model() }
                        } else {
                            FieldModel { name: Seq::empty(), value: DynamicModel::Unit }
                        },
                ),
            ),
        }
    }
}

impl View for DynamicValue {
    type V = DynamicModel;

    open spec fn view(&self) -> DynamicModel {
        self.model()
    }
}

/// The characters of a sequence of texts, one by one.
pub open spec fn texts(names: Seq<String>) -> Seq<Seq<char>> {
    Seq::new(names.len(), |i: int| names[i]@)
}

/// The models of a sequence of values, element by element.
pub open spec fn models(items: Seq<DynamicValue>) -> Seq<DynamicModel> {
    Seq::new(items.len(), |i: int| items[i]@)
}

/// The models of a sequence of named values, entry by entry.
pub open spec fn entry_models(entries: Seq<(String, DynamicValue)>) -> Seq<FieldModel> {
    Seq::new(entries.len(), |i: int| FieldModel { name: entries[i].0@, value: entries[i].1@ })
}

/// The value of the first entry named `key`, if there is one.
pub open spec fn lookup(entries: Seq<FieldModel>, key: Seq<char>) -> Option<DynamicModel>
    decreases entries.len(),
{
    if entries.len() == 0 {
        None
    } else if entries[0].name == key {
        Some(entries[0].value)
    } else {
        lookup(entries.skip(1), key)
    }
}

impl DynamicModel {
    /// The field `key` of a record; `None` for a missing field and for
    /// anything that is not a record.
    pub open spec fn field(self, key: Seq<char>) -> Option<DynamicModel> {
        match self {
            DynamicModel::Record(entries) => lookup(entries, key),
            _ => None,
        }
    }

    /// The text that a value carries, whatever its tag: the three textual
    /// variants are one kind of value to a script.
    pub open spec fn text(self) -> Option<Seq<char>> {
        match self {
            DynamicModel::Integer(s) => Some(s),
            DynamicModel::Text(s) => Some(s),
            DynamicModel::Bytes(s) => Some(s),
            _ => None,
        }
    }
}

/// A sequence value shows the models of its items.
pub proof fn lemma_sequence_view(items: Vec<DynamicValue>)
    ensures
        DynamicValue::Sequence(items)@ == DynamicModel::Sequence(models(items@)),
{
    assert(DynamicValue::Sequence(items)@->Sequence_0 =~= models(items@));
}

/// A record value shows the models of its entries.
pub proof fn lemma_record_view(entries: Vec<(String, DynamicValue)>)
    ensures
        DynamicValue::Record(entries)@ == DynamicModel::Record(entry_models(entries@)),
{
    assert(DynamicValue::Record(entries)@->Record_0 =~= entry_models(entries@));
}

impl DynamicValue {
    /// Looks up a field of a record by name.
    pub fn get(&self, key: &str) -> (r: Option<&DynamicValue>)
        ensures
            r.is_some() == self@.field(key@).is_some(),
            r matches Some(v) ==> Some(v@) == self@.field(key@),
            r matches Some(v) ==> decreases_to!(*self => *v),
    {
        match self {
            DynamicValue::Record(entries) => {
                proof {
                    lemma_record_view(*entries);
                }
                let wanted = key.to_owned();
                let ghost all = entry_models(entries@);
                let mut i: usize = 0;
                assert(all.skip(0) =~= all);
                while i < entries.len()
                    invariant
                        i <= entries.len(),
                        wanted@ == key@,
                        all == entry_models(entries@),
                        self@.field(key@) == lookup(all, key@),
                        *self == DynamicValue::Record(*entries),
                        lookup(all, key@) == lookup(all.skip(i as int), key@),
                    decreases entries.len() - i,
                {
                    assert(all.skip(i as int)[0] == all[i as int]);
                    assert(all.skip(i as int).skip(1) =~= all.skip(i as int + 1));
                    assert(all[i as int].name == entries@[i as int].0@);
                    assert(all[i as int].value == entries@[i as int].1@);
                    if entries[i].0 == wanted {
                        proof {
                            vstd::std_specs::vec::axiom_vec_index_decreases(*entries, i as int);
                        }
                        return Some(&entries[i].1);
                    }
                    i += 1;
                }
                None
            },
            _ => None,
        }
    }

    /// The text of a textual value.
    pub fn as_text(&self) -> (r: Option<&String>)
        ensures
            r.is_some() == self@.text().is_some(),
            r matches Some(s) ==> Some(s@) == self@.text(),
    {
        match self {
            DynamicValue::Integer(s) => Some(s),
            DynamicValue::Text(s) => Some(s),
            DynamicValue::Bytes(s) => Some(s),
            _ => None,
        }
    }

    /// A copy with the same model.
    #[verifier::loop_isolation(false)]
    pub fn duplicate(&self) -> (r: DynamicValue)
        ensures
            r@ == self@,
        decreases self,
    {
        match self {
            DynamicValue::Unit => DynamicValue::Unit,
            DynamicValue::Bool(b) => DynamicValue::Bool(*b),
            DynamicValue::Integer(s) => DynamicValue::Integer(s.clone()),
            DynamicValue::Text(s) => DynamicValue::Text(s.clone()),
            DynamicValue::Bytes(s) => DynamicValue::Bytes(s.clone()),
            DynamicValue::Sequence(items) => {
                let mut out: Vec<DynamicValue> = Vec::new();
                let mut i: usize = 0;
                while i < items.len()
                    invariant
                        i <= items.len(),
                        out.len() == i,
                        forall|j: int| 0 <= j < i ==> out@[j]@ == items@[j]@,
                    decreases items.len() - i,
                {
                    proof {
                        vstd::std_specs::vec::axiom_vec_index_decreases(*items, i as int);
                    }
                    let item = items[i].duplicate();
                    out.push(item);
                    i += 1;
                }
                proof {
                    lemma_sequence_view(out);
                    lemma_sequence_view(*items);
                    assert(models(out@) =~= models(items@));
                }
                DynamicValue::Sequence(out)
            },
            DynamicValue::Record(entries) => {
                let mut out: Vec<(String, DynamicValue)> = Vec::new();
                let mut i: usize = 0;
                while i < entries.len()
                    invariant
                        i <= entries.len(),
                        out.len() == i,
                        forall|j: int|
                            0 <= j < i ==> out@[j].0@ == entries@[j].0@ && out@[j].1@
                                == entries@[j].1@,
                    decreases entries.len() - i,
                {
                    proof {
                        vstd::std_specs::vec::axiom_vec_index_decreases(*entries, i as int);
                    }
                    let value = entries[i].1.duplicate();
                    out.push((entries[i].0.clone(), value));
                    i += 1;
                }
                proof {
                    lemma_record_view(out);
                    lemma_record_view(*entries);
                    assert(entry_models(out@) =~= entry_models(entries@));
                }
                DynamicValue::Record(out)
            },
        }
    }
}

impl Clone for DynamicValue {
    fn clone(&self) -> (r: Self)
        ensures
            r@ == self@,
    {
        self.duplicate()
    }
}

} // verus!

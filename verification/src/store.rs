//! Store access for scripts.
//!
//! A store handle records the writes that a script asks for, each tagged
//! with the next ordinal, in the order of the calls; the host applies them
//! to the store in that order. Whether a write takes effect is the store's
//! decision, not that of the handle. Reads hand on what the store found,
//! and deltas are projected into the dynamic value model as they come.

use crate::custom_serde::big_int;
use crate::dynamic::{lemma_record_view, lemma_sequence_view, models, texts};
use crate::dynamic::{DynamicModel, DynamicValue, FieldModel};
use crate::scalar::BigIntValue;
use vstd::prelude::*;

verus! {

/// What a write asks of the store.
#[derive(Debug, Clone, Copy, PartialEq, Eq, Structural)]
pub enum WriteKind {
    /// Put the value under the key.
    Put,
    /// Put the value under the key unless the key has a value.
    PutOnce,
    /// Remove every key that begins with the key of the write.
    DeletePrefix,
}

/// One write, as the host is to apply it.
#[derive(Debug, PartialEq, Eq)]
pub struct StoreWrite {
    pub kind: WriteKind,
    pub ordinal: u64,
    /// The key, or the prefix of the keys to remove.
    pub key: String,
    /// The value; none for a removal.
    pub value: Option<DynamicValue>,
}

/// The mathematical model of a [`StoreWrite`].
pub struct WriteModel {
    pub kind: WriteKind,
    pub ordinal: nat,
    pub key: Seq<char>,
    pub value: Option<DynamicModel>,
}

impl View for StoreWrite {
    type V = WriteModel;

    open spec fn view(&self) -> WriteModel {
        WriteModel {
            kind: self.kind,
            ordinal: self.ordinal as nat,
            key: self.key@,
            value: match self.value {
                Some(v) => Some(v@),
                None => None,
            },
        }
    }
}

/// The models of a sequence of writes, one by one.
pub open spec fn write_models(writes: Seq<StoreWrite>) -> Seq<WriteModel> {
    Seq::new(writes.len(), |i: int| writes[i]@)
}

/// The value that a dynamic value gives to the store: records can be
/// stored, and nothing else.
pub open spec fn storable(value: DynamicModel) -> Option<DynamicModel> {
    match value {
        DynamicModel::Record(_) => Some(value),
        _ => None,
    }
}

/// The writes that putting one value under each of `keys` adds to a log of
/// `count` writes: one for each key, in order, each with its own ordinal.
pub open spec fn writes_for(
    kind: WriteKind,
    count: nat,
    keys: Seq<Seq<char>>,
    value: DynamicModel,
) -> Seq<WriteModel> {
    Seq::new(
        keys.len(),
        |i: int| WriteModel { kind, ordinal: (count + i) as nat, key: keys[i], value: Some(value) },
    )
}

/// The log after a script asked to put `value` under `key`: one write more,
/// with the next ordinal, if the key is a text and the value can be stored;
/// the log as it was, if not.
pub open spec fn after_set(
    log: Seq<WriteModel>,
    kind: WriteKind,
    key: DynamicModel,
    value: DynamicModel,
) -> Seq<WriteModel> {
    match (key.text(), storable(value)) {
        (Some(k), Some(v)) => log.push(
            WriteModel { kind, ordinal: log.len(), key: k, value: Some(v) },
        ),
        _ => log,
    }
}

/// The log after a script asked to put `value` under each of `keys`: one
/// write more for each key, if the value can be stored; the log as it was,
/// if not.
pub open spec fn after_set_many(
    log: Seq<WriteModel>,
    kind: WriteKind,
    keys: Seq<Seq<char>>,
    value: DynamicModel,
) -> Seq<WriteModel> {
    match storable(value) {
        Some(v) => log + writes_for(kind, log.len(), keys, v),
        None => log,
    }
}

/// The log after a script asked to remove the keys that begin with
/// `prefix`: one write more, if the prefix is a text; the log as it was, if
/// not.
pub open spec fn after_delete_prefix(log: Seq<WriteModel>, prefix: DynamicModel) -> Seq<WriteModel> {
    match prefix.text() {
        Some(p) => log.push(
            WriteModel { kind: WriteKind::DeletePrefix, ordinal: log.len(), key: p, value: None },
        ),
        None => log,
    }
}

/// Whether every write of a log bears its position as its ordinal.
pub open spec fn numbered(log: Seq<WriteModel>) -> bool {
    forall|i: int| 0 <= i < log.len() ==> (#[trigger] log[i]).ordinal == i
}

/// The writes of one store handle, in the order of the calls.
#[derive(Debug, PartialEq, Eq)]
pub struct WriteLog {
    writes: Vec<StoreWrite>,
}

impl View for WriteLog {
    type V = Seq<WriteModel>;

    closed spec fn view(&self) -> Seq<WriteModel> {
        write_models(self.writes@)
    }
}

impl WriteLog {
    #[verifier::type_invariant]
    spec fn is_numbered(&self) -> bool {
        numbered(write_models(self.writes@))
    }

    /// A log without writes.
    pub fn new() -> (r: WriteLog)
        ensures
            r@ == Seq::<WriteModel>::empty(),
    {
        let r = WriteLog { writes: Vec::new() };
        assert(write_models(r.writes@) =~= Seq::<WriteModel>::empty());
        r
    }

    /// The writes, for the host to apply in order. Each bears its position
    /// as its ordinal.
    pub fn writes(&self) -> (r: &Vec<StoreWrite>)
        ensures
            write_models(r@) == self@,
            numbered(self@),
    {
        proof {
            use_type_invariant(self);
        }
        &self.writes
    }

    /// How many writes the log holds: the ordinal of the next one.
    pub fn len(&self) -> (r: usize)
        ensures
            r == self@.len(),
    {
        self.writes.len()
    }

    fn push(&mut self, kind: WriteKind, key: String, value: Option<DynamicValue>)
        ensures
            final(self)@ == old(self)@.push(
                WriteModel {
                    kind,
                    ordinal: old(self)@.len(),
                    key: key@,
                    value: match value {
                        Some(v) => Some(v@),
                        None => None,
                    },
                },
            ),
    {
        proof {
            use_type_invariant(&*self);
        }
        let mut taken = WriteLog::new();
        std::mem::swap(self, &mut taken);
        let mut writes = taken.writes;
        let n = writes.len();
        let ghost before = write_models(writes@);
        let write = StoreWrite { kind, ordinal: n as u64, key, value };
        let ghost added = write@;
        writes.push(write);
        assert(write_models(writes@) =~= before.push(added));
        *self = WriteLog { writes };
    }

    /// Records that a script asked to put `value` under `key`.
    pub fn record_set(&mut self, kind: WriteKind, key: &DynamicValue, value: &DynamicValue)
        ensures
            final(self)@ == after_set(old(self)@, kind, key@, value@),
    {
        match key.as_text() {
            Some(k) => match value {
                DynamicValue::Record(_) => {
                    self.push(kind, k.clone(), Some(value.clone()));
                },
                _ => {},
            },
            None => {},
        }
    }

    /// Records that a script asked to put `value` under each of `keys`.
    pub fn record_set_many(&mut self, kind: WriteKind, keys: &Vec<String>, value: &DynamicValue)
        ensures
            final(self)@ == after_set_many(old(self)@, kind, texts(keys@), value@),
    {
        match value {
            DynamicValue::Record(_) => {
                let ghost start = self@;
                let ghost all = texts(keys@);
                let mut i: usize = 0;
                assert(start + writes_for(kind, start.len(), all.take(0), value@) =~= start);
                while i < keys.len()
                    invariant
                        i <= keys.len(),
                        all == texts(keys@),
                        self@ == start + writes_for(
                            kind,
                            start.len(),
                            all.take(i as int),
                            value@,
                        ),
                    decreases keys.len() - i,
                {
                    let ghost before = self@;
                    self.push(kind, keys[i].clone(), Some(value.clone()));
                    assert(self@ =~= start + writes_for(
                        kind,
                        start.len(),
                        all.take(i as int + 1),
                        value@,
                    ));
                    i += 1;
                }
                assert(all.take(keys.len() as int) =~= all);
            },
            _ => {},
        }
    }

    /// Records that a script asked to remove the keys that begin with
    /// `prefix`.
    pub fn record_delete_prefix(&mut self, prefix: &DynamicValue)
        ensures
            final(self)@ == after_delete_prefix(old(self)@, prefix@),
    {
        match prefix.as_text() {
            Some(p) => {
                self.push(WriteKind::DeletePrefix, p.clone(), None);
            },
            None => {},
        }
    }
}

/// A handle on a store that takes every write.
#[derive(Debug, PartialEq, Eq)]
pub struct StoreSet {
    pub log: WriteLog,
}

impl View for StoreSet {
    type V = Seq<WriteModel>;

    open spec fn view(&self) -> Seq<WriteModel> {
        self.log@
    }
}

impl StoreSet {
    /// A handle that has written nothing yet.
    pub fn new() -> (r: StoreSet)
        ensures
            r@ == Seq::<WriteModel>::empty(),
    {
        StoreSet { log: WriteLog::new() }
    }

    /// Writes `value` under `key`, with the next ordinal. A key that is no
    /// text, or a value that cannot be stored, makes the call do nothing.
    pub fn set(&mut self, key: &DynamicValue, value: &DynamicValue)
        ensures
            final(self)@ == after_set(old(self)@, WriteKind::Put, key@, value@),
    {
        self.log.record_set(WriteKind::Put, key, value);
    }

    /// Writes `value` under each of `keys`, in order, each with its own
    /// ordinal. A value that cannot be stored makes the call do nothing.
    pub fn set_many(&mut self, keys: &Vec<String>, value: &DynamicValue)
        ensures
            final(self)@ == after_set_many(old(self)@, WriteKind::Put, texts(keys@), value@),
    {
        self.log.record_set_many(WriteKind::Put, keys, value);
    }

    /// Removes the keys that begin with `prefix`. A prefix that is no text
    /// makes the call do nothing.
    pub fn delete_prefix(&mut self, prefix: &DynamicValue)
        ensures
            final(self)@ == after_delete_prefix(old(self)@, prefix@),
    {
        self.log.record_delete_prefix(prefix);
    }
}

/// A handle on a store that takes a write only for a key without a value.
#[derive(Debug, PartialEq, Eq)]
pub struct StoreSetOnce {
    pub log: WriteLog,
}

impl View for StoreSetOnce {
    type V = Seq<WriteModel>;

    open spec fn view(&self) -> Seq<WriteModel> {
        self.log@
    }
}

impl StoreSetOnce {
    /// A handle that has written nothing yet.
    pub fn new() -> (r: StoreSetOnce)
        ensures
            r@ == Seq::<WriteModel>::empty(),
    {
        StoreSetOnce { log: WriteLog::new() }
    }

    /// Writes `value` under `key`, with the next ordinal, for the store to
    /// take if the key has no value yet. A key that is no text, or a value
    /// that cannot be stored, makes the call do nothing.
    pub fn set_if_not_exists(&mut self, key: &DynamicValue, value: &DynamicValue)
        ensures
            final(self)@ == after_set(old(self)@, WriteKind::PutOnce, key@, value@),
    {
        self.log.record_set(WriteKind::PutOnce, key, value);
    }

    /// Writes `value` under each of `keys`, in order, each with its own
    /// ordinal, for the store to take where the key has no value yet. A
    /// value that cannot be stored makes the call do nothing.
    pub fn set_if_not_exists_many(&mut self, keys: &Vec<String>, value: &DynamicValue)
        ensures
            final(self)@ == after_set_many(
                old(self)@,
                WriteKind::PutOnce,
                texts(keys@),
                value@,
            ),
    {
        self.log.record_set_many(WriteKind::PutOnce, keys, value);
    }

    /// Removes the keys that begin with `prefix`. A prefix that is no text
    /// makes the call do nothing.
    pub fn delete_prefix(&mut self, prefix: &DynamicValue)
        ensures
            final(self)@ == after_delete_prefix(old(self)@, prefix@),
    {
        self.log.record_delete_prefix(prefix);
    }
}

/// What a read hands to the script: the value that the store found under
/// the key, or the empty value.
pub open spec fn read_result(found: Option<DynamicModel>) -> DynamicModel {
    match found {
        Some(v) => v,
        None => DynamicModel::Unit,
    }
}

/// The result of reading the value last written under a key, from what the
/// store found.
pub fn get(found: Option<&DynamicValue>) -> (r: DynamicValue)
    ensures
        r@ == read_result(
            match found {
                Some(v) => Some(v@),
                None => None,
            },
        ),
{
    match found {
        Some(v) => v.clone(),
        None => DynamicValue::Unit,
    }
}

/// The result of reading the value first written under a key, from what the
/// store found.
pub fn get_first(found: Option<&DynamicValue>) -> (r: DynamicValue)
    ensures
        r@ == read_result(
            match found {
                Some(v) => Some(v@),
                None => None,
            },
        ),
{
    match found {
        Some(v) => v.clone(),
        None => DynamicValue::Unit,
    }
}

/// Two writes in a row stand in the log in the order of the calls, the
/// first with the lower ordinal.
pub proof fn lemma_set_twice_keeps_order(
    log: Seq<WriteModel>,
    k1: Seq<char>,
    v1: DynamicModel,
    k2: Seq<char>,
    v2: DynamicModel,
)
    requires
        numbered(log),
        v1 is Record,
        v2 is Record,
    ensures
        ({
            let after = after_set(
                after_set(log, WriteKind::Put, DynamicModel::Text(k1), v1),
                WriteKind::Put,
                DynamicModel::Text(k2),
                v2,
            );
            &&& after.len() == log.len() + 2
            &&& after.take(log.len() as int) == log
            &&& after[log.len() as int].key == k1
            &&& after[log.len() as int].value == Some(v1)
            &&& after[log.len() as int + 1].key == k2
            &&& after[log.len() as int + 1].value == Some(v2)
            &&& after[log.len() as int].ordinal < after[log.len() as int + 1].ordinal
            &&& numbered(after)
        }),
{
    let first = after_set(log, WriteKind::Put, DynamicModel::Text(k1), v1);
    let after = after_set(first, WriteKind::Put, DynamicModel::Text(k2), v2);
    assert(after.take(log.len() as int) =~= log);
}

/// What a delta did to a key.
#[derive(Debug, Clone, Copy, PartialEq, Eq, Structural)]
pub enum Operation {
    Create,
    Update,
    Delete,
}

/// One change of a store: what was done to a key, and the values before
/// and after.
#[derive(Debug, PartialEq, Eq)]
pub struct DeltaRecord {
    pub operation: Operation,
    pub ordinal: u64,
    pub key: String,
    pub old_value: Option<DynamicValue>,
    pub new_value: Option<DynamicValue>,
}

/// The mathematical model of a [`DeltaRecord`].
pub struct DeltaModel {
    pub operation: Operation,
    pub ordinal: nat,
    pub key: Seq<char>,
    pub old_value: Option<DynamicModel>,
    pub new_value: Option<DynamicModel>,
}

impl View for DeltaRecord {
    type V = DeltaModel;

    open spec fn view(&self) -> DeltaModel {
        DeltaModel {
            operation: self.operation,
            ordinal: self.ordinal as nat,
            key: self.key@,
            old_value: match self.old_value {
                Some(v) => Some(v@),
                None => None,
            },
            new_value: match self.new_value {
                Some(v) => Some(v@),
                None => None,
            },
        }
    }
}

/// The models of a sequence of deltas, one by one.
pub open spec fn delta_models(records: Seq<DeltaRecord>) -> Seq<DeltaModel> {
    Seq::new(records.len(), |i: int| records[i]@)
}

/// The number that stands for an operation in the dynamic value model.
pub open spec fn operation_code(operation: Operation) -> int {
    match operation {
        Operation::Create => 1,
        Operation::Update => 2,
        Operation::Delete => 3,
    }
}

/// The dynamic form of a delta: a record of `operation`, `ordinal`, `key`,
/// `oldValue` and `newValue`, in this order; a value that is not there is
/// the empty value.
pub open spec fn delta_record(delta: DeltaModel) -> DynamicModel {
    DynamicModel::Record(
        seq![
            FieldModel {
                name: "operation"@,
                value: big_int::serialized(operation_code(delta.operation)),
            },
            FieldModel { name: "ordinal"@, value: big_int::serialized(delta.ordinal as int) },
            FieldModel { name: "key"@, value: DynamicModel::Text(delta.key) },
            FieldModel { name: "oldValue"@, value: read_result(delta.old_value) },
            FieldModel { name: "newValue"@, value: read_result(delta.new_value) },
        ],
    )
}

/// The dynamic form of a sequence of deltas: their dynamic forms, in order.
pub open spec fn projected(deltas: Seq<DeltaModel>) -> DynamicModel {
    DynamicModel::Sequence(Seq::new(deltas.len(), |i: int| delta_record(deltas[i])))
}

/// The ordinal of the delta at a position.
pub open spec fn ordinal_at(deltas: Seq<DeltaModel>, i: int) -> nat {
    deltas[i].ordinal
}

/// Whether the ordinals of the first `n` deltas rise strictly from each to
/// the next.
pub open spec fn rising_up_to(deltas: Seq<DeltaModel>, n: int) -> bool {
    forall|i: int, j: int|
        0 <= i < j < n ==> #[trigger] ordinal_at(deltas, i) < #[trigger] ordinal_at(deltas, j)
}

/// Whether the ordinals of deltas rise strictly from each to the next.
pub open spec fn rising(deltas: Seq<DeltaModel>) -> bool {
    rising_up_to(deltas, deltas.len() as int)
}

/// The deltas of one store in one block, in the order of their ordinals.
#[derive(Debug, PartialEq, Eq)]
pub struct Deltas {
    records: Vec<DeltaRecord>,
}

impl View for Deltas {
    type V = Seq<DeltaModel>;

    closed spec fn view(&self) -> Seq<DeltaModel> {
        delta_models(self.records@)
    }
}

/// Projects one delta into the dynamic value model.
fn project_delta(delta: &DeltaRecord) -> (r: DynamicValue)
    ensures
        r@ == delta_record(delta@),
{
    let code: u64 = match delta.operation {
        Operation::Create => 1,
        Operation::Update => 2,
        Operation::Delete => 3,
    };
    let mut entries: Vec<(String, DynamicValue)> = Vec::new();
    entries.push(("operation".to_owned(), big_int::serialize(&BigIntValue::from_u64(code))));
    entries.push(("ordinal".to_owned(), big_int::serialize(&BigIntValue::from_u64(delta.ordinal))));
    entries.push(("key".to_owned(), DynamicValue::Text(delta.key.clone())));
    entries.push(("oldValue".to_owned(), get(delta.old_value.as_ref())));
    entries.push(("newValue".to_owned(), get(delta.new_value.as_ref())));
    proof {
        lemma_record_view(entries);
        assert(crate::dynamic::entry_models(entries@) =~= delta_record(delta@)->Record_0);
    }
    DynamicValue::Record(entries)
}

impl Deltas {
    #[verifier::type_invariant]
    spec fn is_rising(&self) -> bool {
        rising(delta_models(self.records@))
    }

    /// The deltas of a store, if their ordinals rise strictly from each to
    /// the next.
    pub fn new(records: Vec<DeltaRecord>) -> (r: Option<Deltas>)
        ensures
            r.is_some() == rising(delta_models(records@)),
            r matches Some(deltas) ==> deltas@ == delta_models(records@),
    {
        let ghost all = delta_models(records@);
        let mut i: usize = 1;
        while i < records.len()
            invariant
                1 <= i,
                all == delta_models(records@),
                rising_up_to(all, i as int),
            decreases records.len() - i,
        {
            if records[i - 1].ordinal >= records[i].ordinal {
                assert(ordinal_at(all, i as int - 1) >= ordinal_at(all, i as int));
                return None;
            }
            assert forall|a: int, b: int| 0 <= a < b < i + 1 implies #[trigger] ordinal_at(all, a)
                < #[trigger] ordinal_at(all, b) by {
                if b == i {
                    assert(ordinal_at(all, i as int - 1) < ordinal_at(all, i as int));
                    if a < i - 1 {
                        assert(ordinal_at(all, a) < ordinal_at(all, i as int - 1));
                    }
                }
            }
            i += 1;
        }
        Some(Deltas { records })
    }

    /// The deltas, in the order of their ordinals.
    pub fn records(&self) -> (r: &Vec<DeltaRecord>)
        ensures
            delta_models(r@) == self@,
            rising(self@),
    {
        proof {
            use_type_invariant(self);
        }
        &self.records
    }

    /// Projects the deltas into the dynamic value model, in the order of
    /// their ordinals.
    pub fn deltas(&self) -> (r: DynamicValue)
        ensures
            r@ == projected(self@),
            rising(self@),
    {
        proof {
            use_type_invariant(self);
        }
        let mut out: Vec<DynamicValue> = Vec::new();
        let mut i: usize = 0;
        while i < self.records.len()
            invariant
                i <= self.records.len(),
                out.len() == i,
                forall|j: int| 0 <= j < i ==> out@[j]@ == delta_record(self.records@[j]@),
            decreases self.records.len() - i,
        {
            out.push(project_delta(&self.records[i]));
            i += 1;
        }
        proof {
            lemma_sequence_view(out);
            assert(models(out@) =~= projected(self@)->Sequence_0);
        }
        DynamicValue::Sequence(out)
    }
}

/// What two writes in a row look like as deltas: whatever the store reports
/// for them, under their keys and ordinals, is projected as two records in
/// the order of the calls, the first with the lower ordinal.
pub proof fn lemma_set_twice_then_deltas(
    log: Seq<WriteModel>,
    k1: Seq<char>,
    v1: DynamicModel,
    k2: Seq<char>,
    v2: DynamicModel,
    d1: DeltaModel,
    d2: DeltaModel,
)
    requires
        numbered(log),
        v1 is Record,
        v2 is Record,
        ({
            let after = after_set(
                after_set(log, WriteKind::Put, DynamicModel::Text(k1), v1),
                WriteKind::Put,
                DynamicModel::Text(k2),
                v2,
            );
            &&& d1.key == after[log.len() as int].key
            &&& d1.ordinal == after[log.len() as int].ordinal
            &&& d2.key == after[log.len() as int + 1].key
            &&& d2.ordinal == after[log.len() as int + 1].ordinal
        }),
    ensures
        d1.key == k1,
        d2.key == k2,
        d1.ordinal < d2.ordinal,
        rising(seq![d1, d2]),
        projected(seq![d1, d2]) == DynamicModel::Sequence(seq![delta_record(d1), delta_record(d2)]),
{
    lemma_set_twice_keeps_order(log, k1, v1, k2, v2);
    let both = seq![d1, d2];
    assert forall|i: int, j: int| 0 <= i < j < both.len() implies #[trigger] ordinal_at(both, i)
        < #[trigger] ordinal_at(both, j) by {
        assert(i == 0 && j == 1);
    }
    assert(projected(both)->Sequence_0 =~= seq![delta_record(d1), delta_record(d2)]);
}

} // verus!

use streamline::dynamic::DynamicValue;
use streamline::store::{get, get_first, DeltaRecord, Deltas, Operation};
use streamline::store::{StoreSet, StoreSetOnce, StoreWrite, WriteKind, WriteLog};

fn text(s: &str) -> DynamicValue {
    DynamicValue::Text(s.to_string())
}

fn integer(s: &str) -> DynamicValue {
    DynamicValue::Integer(s.to_string())
}

fn record(entries: Vec<(&str, DynamicValue)>) -> DynamicValue {
    DynamicValue::Record(entries.into_iter().map(|(k, v)| (k.to_string(), v)).collect())
}

fn amount(n: &str) -> DynamicValue {
    record(vec![("amount", integer(n))])
}

fn write(kind: WriteKind, ordinal: u64, key: &str, value: Option<DynamicValue>) -> StoreWrite {
    StoreWrite { kind, ordinal, key: key.to_string(), value }
}

fn delta(operation: Operation, ordinal: u64, key: &str) -> DeltaRecord {
    DeltaRecord { operation, ordinal, key: key.to_string(), old_value: None, new_value: None }
}

#[test]
fn writes_are_numbered_in_call_order() {
    let mut store = StoreSet::new();
    assert!(store.log.writes().is_empty());
    store.set(&text("k1"), &amount("1"));
    store.set(&text("k2"), &amount("2"));
    assert_eq!(
        store.log.writes(),
        &vec![
            write(WriteKind::Put, 0, "k1", Some(amount("1"))),
            write(WriteKind::Put, 1, "k2", Some(amount("2"))),
        ]
    );
    let writes = store.log.writes();
    assert!(writes[0].ordinal < writes[1].ordinal);
    assert_eq!(store.log.len(), 2);
}

#[test]
fn a_key_is_written_as_often_as_it_is_set() {
    let mut store = StoreSet::new();
    store.set(&text("k"), &amount("1"));
    store.set(&text("k"), &amount("1"));
    assert_eq!(
        store.log.writes(),
        &vec![
            write(WriteKind::Put, 0, "k", Some(amount("1"))),
            write(WriteKind::Put, 1, "k", Some(amount("1"))),
        ]
    );
}

#[test]
fn writes_of_the_wrong_shape_are_dropped() {
    let mut store = StoreSet::new();
    store.set(&text("k"), &integer("5"));
    store.set(&text("k"), &text("v"));
    store.set(&text("k"), &DynamicValue::Unit);
    store.set(&text("k"), &DynamicValue::Sequence(vec![amount("1")]));
    store.set(&DynamicValue::Bool(true), &amount("1"));
    store.set(&DynamicValue::Unit, &amount("1"));
    store.set(&amount("1"), &amount("1"));
    store.set_many(&vec!["a".to_string(), "b".to_string()], &integer("5"));
    store.delete_prefix(&DynamicValue::Bool(false));
    store.delete_prefix(&DynamicValue::Sequence(vec![]));
    assert!(store.log.writes().is_empty());
    store.set(&text("k"), &amount("1"));
    assert_eq!(store.log.writes(), &vec![write(WriteKind::Put, 0, "k", Some(amount("1")))]);
}

#[test]
fn many_keys_take_one_ordinal_each() {
    let mut store = StoreSet::new();
    store.set(&text("first"), &amount("0"));
    store.set_many(&vec!["a".to_string(), "b".to_string(), "a".to_string()], &amount("7"));
    store.set_many(&vec![], &amount("8"));
    store.delete_prefix(&text("a"));
    assert_eq!(
        store.log.writes(),
        &vec![
            write(WriteKind::Put, 0, "first", Some(amount("0"))),
            write(WriteKind::Put, 1, "a", Some(amount("7"))),
            write(WriteKind::Put, 2, "b", Some(amount("7"))),
            write(WriteKind::Put, 3, "a", Some(amount("7"))),
            write(WriteKind::DeletePrefix, 4, "a", None),
        ]
    );
}

#[test]
fn single_writes_are_left_to_the_store() {
    let mut store = StoreSetOnce::new();
    store.set_if_not_exists(&text("k"), &amount("1"));
    store.set_if_not_exists(&text("k"), &amount("2"));
    store.set_if_not_exists(&text("k"), &text("dropped"));
    store.set_if_not_exists_many(&vec!["x".to_string(), "y".to_string()], &amount("3"));
    store.set_if_not_exists_many(&vec!["z".to_string()], &DynamicValue::Unit);
    store.delete_prefix(&text(""));
    store.delete_prefix(&integer("12"));
    assert_eq!(
        store.log.writes(),
        &vec![
            write(WriteKind::PutOnce, 0, "k", Some(amount("1"))),
            write(WriteKind::PutOnce, 1, "k", Some(amount("2"))),
            write(WriteKind::PutOnce, 2, "x", Some(amount("3"))),
            write(WriteKind::PutOnce, 3, "y", Some(amount("3"))),
            write(WriteKind::DeletePrefix, 4, "", None),
            write(WriteKind::DeletePrefix, 5, "12", None),
        ]
    );
}

#[test]
fn logs_record_what_they_are_told() {
    let mut log = WriteLog::new();
    log.record_set(WriteKind::PutOnce, &text("k"), &amount("1"));
    log.record_set_many(WriteKind::Put, &vec!["a".to_string()], &amount("2"));
    log.record_delete_prefix(&text("p"));
    assert_eq!(
        log.writes(),
        &vec![
            write(WriteKind::PutOnce, 0, "k", Some(amount("1"))),
            write(WriteKind::Put, 1, "a", Some(amount("2"))),
            write(WriteKind::DeletePrefix, 2, "p", None),
        ]
    );
}

#[test]
fn reads_give_the_value_or_the_empty_value() {
    let found = amount("9");
    assert_eq!(get(Some(&found)), found);
    assert_eq!(get(None), DynamicValue::Unit);
    assert_eq!(get_first(Some(&found)), found);
    assert_eq!(get_first(None), DynamicValue::Unit);
}

#[test]
fn deltas_must_come_in_ordinal_order() {
    assert!(Deltas::new(vec![]).is_some());
    assert!(Deltas::new(vec![delta(Operation::Create, 5, "a")]).is_some());
    assert!(Deltas::new(vec![
        delta(Operation::Create, 0, "a"),
        delta(Operation::Update, 1, "a"),
        delta(Operation::Delete, 7, "a"),
    ])
    .is_some());
    assert!(Deltas::new(vec![delta(Operation::Create, 1, "a"), delta(Operation::Update, 1, "a")])
        .is_none());
    assert!(Deltas::new(vec![
        delta(Operation::Create, 0, "a"),
        delta(Operation::Update, 2, "a"),
        delta(Operation::Delete, 1, "a"),
    ])
    .is_none());
}

#[test]
fn deltas_are_projected_in_order() {
    let records = vec![
        DeltaRecord {
            operation: Operation::Create,
            ordinal: 3,
            key: "k1".to_string(),
            old_value: None,
            new_value: Some(amount("1")),
        },
        DeltaRecord {
            operation: Operation::Update,
            ordinal: 4,
            key: "k2".to_string(),
            old_value: Some(amount("1")),
            new_value: Some(amount("2")),
        },
        DeltaRecord {
            operation: Operation::Delete,
            ordinal: 18446744073709551615,
            key: "k1".to_string(),
            old_value: Some(amount("1")),
            new_value: None,
        },
    ];
    let deltas = Deltas::new(records).unwrap();
    assert_eq!(deltas.records().len(), 3);
    assert_eq!(
        deltas.deltas(),
        DynamicValue::Sequence(vec![
            record(vec![
                ("operation", integer("1")),
                ("ordinal", integer("3")),
                ("key", text("k1")),
                ("oldValue", DynamicValue::Unit),
                ("newValue", amount("1")),
            ]),
            record(vec![
                ("operation", integer("2")),
                ("ordinal", integer("4")),
                ("key", text("k2")),
                ("oldValue", amount("1")),
                ("newValue", amount("2")),
            ]),
            record(vec![
                ("operation", integer("3")),
                ("ordinal", integer("18446744073709551615")),
                ("key", text("k1")),
                ("oldValue", amount("1")),
                ("newValue", DynamicValue::Unit),
            ]),
        ])
    );
    assert_eq!(Deltas::new(vec![]).unwrap().deltas(), DynamicValue::Sequence(vec![]));
}

#[test]
fn written_values_show_up_as_deltas_in_the_same_order() {
    let mut store = StoreSet::new();
    store.set(&text("k1"), &amount("1"));
    store.set(&text("k2"), &amount("2"));
    let records: Vec<DeltaRecord> = store
        .log
        .writes()
        .iter()
        .map(|w| DeltaRecord {
            operation: Operation::Create,
            ordinal: w.ordinal,
            key: w.key.clone(),
            old_value: None,
            new_value: w.value.clone(),
        })
        .collect();
    let projected = Deltas::new(records).unwrap().deltas();
    let DynamicValue::Sequence(items) = projected else { panic!("no sequence") };
    assert_eq!(items.len(), 2);
    assert_eq!(items[0].get("key"), Some(&text("k1")));
    assert_eq!(items[1].get("key"), Some(&text("k2")));
    assert_eq!(items[0].get("ordinal"), Some(&integer("0")));
    assert_eq!(items[1].get("ordinal"), Some(&integer("1")));
    assert_eq!(items[0].get("newValue"), Some(&amount("1")));
    assert_eq!(items[1].get("newValue"), Some(&amount("2")));
}

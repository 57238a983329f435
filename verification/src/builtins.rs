//! What scripts can call: the log matcher behind event accessors, the
//! result of call accessors, and conversions of addresses, integers and
//! stored records.
//!
//! Nothing here fails loudly. A value of the wrong shape, a log that is not
//! of the event, a call that gave nothing: each becomes the empty value, or
//! is passed over.

use crate::abi::{abi_models, decode_log, decode_outputs, log_values, record_of, returned_values};
use crate::abi::{dynamic_of, to_dynamic, to_record, AbiModel, AbiValue};
use crate::bridge::ADDRESS_LEN;
use crate::custom_serde::big_int;
use crate::custom_serde::bytes;
use crate::descriptor::{EventDescriptor, EventModel};
use crate::dynamic::{lemma_sequence_view, lookup, models};
use crate::dynamic::{DynamicModel, DynamicValue};
use crate::hex::{byte_strings, canonical_hex, to_hex};
use crate::types::{param_models, Param, ParamModel};
use vstd::prelude::*;

verus! {

/// One log of a block.
#[derive(Debug, PartialEq, Eq)]
pub struct LogEntry {
    /// The contract that wrote the log.
    pub address: Vec<u8>,
    pub topics: Vec<[u8; 32]>,
    pub data: Vec<u8>,
    /// The position of the log within its block.
    pub ordinal: u64,
}

/// The mathematical model of a [`LogEntry`].
pub struct LogModel {
    pub address: Seq<u8>,
    pub topics: Seq<Seq<u8>>,
    pub data: Seq<u8>,
    pub ordinal: u64,
}

impl View for LogEntry {
    type V = LogModel;

    open spec fn view(&self) -> LogModel {
        LogModel {
            address: self.address@,
            topics: crate::abi::words(self.topics@),
            data: self.data@,
            ordinal: self.ordinal,
        }
    }
}

/// The models of a sequence of logs, one by one.
pub open spec fn log_models(logs: Seq<LogEntry>) -> Seq<LogModel> {
    Seq::new(logs.len(), |i: int| logs[i]@)
}

/// Whether an address passes a filter: no filter lets every address pass.
pub open spec fn passes(filter: Option<Seq<Seq<u8>>>, address: Seq<u8>) -> bool {
    match filter {
        None => true,
        Some(addresses) => addresses.contains(address),
    }
}

/// What a log gives, given what was decoded from it: the record of the
/// inputs of the event, if one value was decoded for each input and the
/// address of the log passes the filter.
pub open spec fn selected(
    entry: LogModel,
    event: EventModel,
    decoded: Option<Seq<AbiModel>>,
    filter: Option<Seq<Seq<u8>>>,
) -> Option<DynamicModel> {
    match decoded {
        Some(values) => if values.len() == event.inputs.len() && passes(filter, entry.address) {
            Some(record_of(event.inputs, values))
        } else {
            None
        },
        None => None,
    }
}

/// What a log gives for an event under a filter.
pub open spec fn kept(entry: LogModel, event: EventModel, filter: Option<Seq<Seq<u8>>>) -> Option<
    DynamicModel,
> {
    selected(entry, event, log_values(event, entry.topics, entry.data), filter)
}

/// What the first `n` logs give for an event under a filter: the records of
/// those that are kept, in the order of the logs.
pub open spec fn matches(
    logs: Seq<LogModel>,
    event: EventModel,
    filter: Option<Seq<Seq<u8>>>,
    n: nat,
) -> Seq<DynamicModel>
    decreases n,
{
    if n == 0 || n > logs.len() {
        Seq::empty()
    } else {
        let before = matches(logs, event, filter, (n - 1) as nat);
        match kept(logs[n - 1], event, filter) {
            Some(record) => before.push(record),
            None => before,
        }
    }
}

/// The positions, among the first `n` logs, of those that are kept.
pub open spec fn kept_positions(
    logs: Seq<LogModel>,
    event: EventModel,
    filter: Option<Seq<Seq<u8>>>,
    n: nat,
) -> Seq<int>
    decreases n,
{
    if n == 0 || n > logs.len() {
        Seq::empty()
    } else {
        let before = kept_positions(logs, event, filter, (n - 1) as nat);
        if kept(logs[n - 1], event, filter) is Some {
            before.push(n - 1)
        } else {
            before
        }
    }
}

/// Matching keeps the order of the logs: the records stand for the kept
/// logs one for one, at rising positions, and no kept log is left out or
/// taken twice.
pub proof fn lemma_matches_keep_log_order(
    logs: Seq<LogModel>,
    event: EventModel,
    filter: Option<Seq<Seq<u8>>>,
    n: nat,
)
    requires
        n <= logs.len(),
    ensures
        matches(logs, event, filter, n).len() == kept_positions(logs, event, filter, n).len(),
        forall|k: int|
            0 <= k < kept_positions(logs, event, filter, n).len() ==> {
                let at = #[trigger] kept_positions(logs, event, filter, n)[k];
                &&& 0 <= at < n
                &&& kept(logs[at], event, filter) == Some(matches(logs, event, filter, n)[k])
            },
        forall|j: int, k: int|
            0 <= j < k < kept_positions(logs, event, filter, n).len() ==> kept_positions(
                logs,
                event,
                filter,
                n,
            )[j] < kept_positions(logs, event, filter, n)[k],
        forall|i: int|
            0 <= i < n && kept(#[trigger] logs[i], event, filter) is Some ==> kept_positions(
                logs,
                event,
                filter,
                n,
            ).contains(i),
    decreases n,
{
    if n > 0 {
        lemma_matches_keep_log_order(logs, event, filter, (n - 1) as nat);
        let before = kept_positions(logs, event, filter, (n - 1) as nat);
        let now = kept_positions(logs, event, filter, n);
        assert forall|i: int|
            0 <= i < n && kept(#[trigger] logs[i], event, filter) is Some implies now.contains(
            i,
        ) by {
            if i < n - 1 {
                assert(before.contains(i));
                let k = choose|k: int| 0 <= k < before.len() && before[k] == i;
                assert(now[k] == i);
            } else {
                assert(now[now.len() - 1] == i);
            }
        }
    }
}

/// Whether two byte arrays hold the same bytes.
fn same_bytes(a: &Vec<u8>, b: &Vec<u8>) -> (r: bool)
    ensures
        r == (a@ == b@),
{
    if a.len() != b.len() {
        return false;
    }
    let mut i: usize = 0;
    while i < a.len()
        invariant
            i <= a.len(),
            a.len() == b.len(),
            forall|j: int| 0 <= j < i ==> a@[j] == b@[j],
        decreases a.len() - i,
    {
        if a[i] != b[i] {
            return false;
        }
        i += 1;
    }
    assert(a@ =~= b@);
    true
}

/// Whether an address passes a filter.
fn passes_filter(filter: Option<&Vec<Vec<u8>>>, address: &Vec<u8>) -> (r: bool)
    ensures
        r == passes(
            match filter {
                Some(addresses) => Some(byte_strings(addresses@)),
                None => None,
            },
            address@,
        ),
{
    match filter {
        None => true,
        Some(addresses) => {
            let ghost set = byte_strings(addresses@);
            let mut i: usize = 0;
            while i < addresses.len()
                invariant
                    i <= addresses.len(),
                    set == byte_strings(addresses@),
                    filter == Some(addresses),
                    forall|j: int| 0 <= j < i ==> set[j] != address@,
                decreases addresses.len() - i,
            {
                if same_bytes(&addresses[i], address) {
                    assert(set[i as int] == address@);
                    return true;
                }
                i += 1;
            }
            false
        },
    }
}

/// The filter that a reference to addresses stands for.
pub open spec fn filter_model(filter: Option<&Vec<Vec<u8>>>) -> Option<Seq<Seq<u8>>> {
    match filter {
        Some(addresses) => Some(byte_strings(addresses@)),
        None => None,
    }
}

/// The models of decoded values, where there are any.
pub open spec fn decoded_model(decoded: Option<&Vec<AbiValue>>) -> Option<Seq<AbiModel>> {
    match decoded {
        Some(values) => Some(abi_models(values@)),
        None => None,
    }
}

/// Decides what a log gives, given what was decoded from it.
pub fn select(
    entry: &LogEntry,
    event: &EventDescriptor,
    decoded: Option<&Vec<AbiValue>>,
    addresses: Option<&Vec<Vec<u8>>>,
) -> (r: Option<DynamicValue>)
    ensures
        r.is_some() == selected(
            entry@,
            event@,
            decoded_model(decoded),
            filter_model(addresses),
        ).is_some(),
        r matches Some(record) ==> Some(record@) == selected(
            entry@,
            event@,
            decoded_model(decoded),
            filter_model(addresses),
        ),
{
    match decoded {
        None => None,
        Some(values) => {
            if values.len() == event.inputs.len() && passes_filter(addresses, &entry.address) {
                Some(to_record(&event.inputs, values))
            } else {
                None
            }
        },
    }
}

/// Scans the logs of a block in order and gives, for each log that is one
/// of the event and whose address passes the filter, the record of what was
/// decoded from it. Logs of other events are passed over.
pub fn get_events(
    logs: &Vec<LogEntry>,
    event: &EventDescriptor,
    addresses: Option<&Vec<Vec<u8>>>,
) -> (r: Vec<DynamicValue>)
    ensures
        models(r@) == matches(log_models(logs@), event@, filter_model(addresses), logs@.len()),
{
    let ghost all = log_models(logs@);
    let ghost filter = filter_model(addresses);
    let mut out: Vec<DynamicValue> = Vec::new();
    let mut i: usize = 0;
    assert(models(out@) =~= matches(all, event@, filter, 0));
    while i < logs.len()
        invariant
            i <= logs.len(),
            all == log_models(logs@),
            filter == filter_model(addresses),
            models(out@) == matches(all, event@, filter, i as nat),
        decreases logs.len() - i,
    {
        let entry = &logs[i];
        let decoded = decode_log(event, &entry.topics, &entry.data);
        let ghost before = models(out@);
        assert(all[i as int] == entry@);
        let picked = match &decoded {
            Some(values) => select(entry, event, Some(values), addresses),
            None => select(entry, event, None, addresses),
        };
        match picked {
            Some(record) => {
                out.push(record);
                assert(models(out@) =~= before.push(record@));
            },
            None => {},
        }
        i += 1;
    }
    out
}

/// What an event accessor hands to the script: the sequence of matches, or
/// the empty value if there is none.
pub open spec fn as_result(found: Seq<DynamicModel>) -> DynamicModel {
    if found.len() == 0 {
        DynamicModel::Unit
    } else {
        DynamicModel::Sequence(found)
    }
}

/// The filter that a dynamic value stands for: a sequence of byte arrays,
/// each in a text that can be read.
pub open spec fn filter_of(addresses: DynamicModel) -> Option<Seq<Seq<u8>>> {
    match addresses {
        DynamicModel::Sequence(items) => if forall|i: int|
            0 <= i < items.len() ==> bytes::deserialized(#[trigger] items[i]) is Ok {
            Some(Seq::new(items.len(), |i: int| bytes::deserialized(items[i]).unwrap()))
        } else {
            None
        },
        _ => None,
    }
}

/// What an event accessor gives for the logs of a block: the matches under
/// the filter that the script gave, if any, and the empty value where
/// nothing matches or the filter cannot be read.
pub open spec fn accessed(
    logs: Seq<LogModel>,
    event: EventModel,
    addresses: Option<DynamicModel>,
) -> DynamicModel {
    match addresses {
        None => as_result(matches(logs, event, None, logs.len())),
        Some(given) => match filter_of(given) {
            Some(filter) => as_result(matches(logs, event, Some(filter), logs.len())),
            None => DynamicModel::Unit,
        },
    }
}

/// The event accessor: matches the logs of a block against an event, under
/// the filter that the script gave, if any.
pub fn event_accessor(
    logs: &Vec<LogEntry>,
    event: &EventDescriptor,
    addresses: Option<&DynamicValue>,
) -> (r: DynamicValue)
    ensures
        r@ == accessed(
            log_models(logs@),
            event@,
            match addresses {
                Some(given) => Some(given@),
                None => None,
            },
        ),
{
    let found = match addresses {
        None => get_events(logs, event, None),
        Some(given) => match bytes::vec::deserialize(given) {
            Ok(filter) => {
                proof {
                    assert(filter_of(given@) == Some(byte_strings(filter@))) by {
                        assert(filter_of(given@).unwrap() =~= byte_strings(filter@));
                    }
                }
                get_events(logs, event, Some(&filter))
            },
            Err(_) => {
                return DynamicValue::Unit;
            },
        },
    };
    if found.len() == 0 {
        DynamicValue::Unit
    } else {
        proof {
            lemma_sequence_view(found);
        }
        DynamicValue::Sequence(found)
    }
}

/// What a call gives to the script, given what was decoded from the data
/// that it returned: the value of a single output, or the record of several
/// outputs, and the empty value where nothing was decoded.
pub open spec fn shaped(outputs: Seq<ParamModel>, decoded: Option<Seq<AbiModel>>) -> DynamicModel {
    match decoded {
        None => DynamicModel::Unit,
        Some(values) => if outputs.len() == 1 && values.len() == 1 {
            dynamic_of(outputs[0].kind, values[0])
        } else {
            record_of(outputs, values)
        },
    }
}

/// Shapes what was decoded from the data that a call returned.
pub fn shape_result(outputs: &Vec<Param>, decoded: Option<&Vec<AbiValue>>) -> (r: DynamicValue)
    ensures
        r@ == shaped(param_models(outputs@), decoded_model(decoded)),
{
    match decoded {
        None => DynamicValue::Unit,
        Some(values) => {
            if outputs.len() == 1 && values.len() == 1 {
                to_dynamic(&outputs[0].kind, &values[0])
            } else {
                to_record(outputs, values)
            }
        },
    }
}

/// What a call accessor gives: the decoded outputs of the function, and the
/// empty value where the call failed or returned what cannot be decoded.
pub open spec fn call_outcome(outputs: Seq<ParamModel>, returned: Option<Seq<u8>>) -> DynamicModel {
    match returned {
        None => DynamicModel::Unit,
        Some(data) => shaped(outputs, returned_values(outputs, data)),
    }
}

/// The result of a call accessor, from the data that the call returned, if
/// it returned any.
pub fn call_result(outputs: &Vec<Param>, returned: Option<&Vec<u8>>) -> (r: DynamicValue)
    ensures
        r@ == call_outcome(
            param_models(outputs@),
            match returned {
                Some(data) => Some(data@),
                None => None,
            },
        ),
{
    match returned {
        None => DynamicValue::Unit,
        Some(data) => {
            let decoded = decode_outputs(outputs, data);
            match &decoded {
                Some(values) => shape_result(outputs, Some(values)),
                None => shape_result(outputs, None),
            }
        },
    }
}

/// The text of an address: the canonical text of the bytes if there are
/// twenty of them, and the empty value for any other number.
pub open spec fn address_text(x: Seq<u8>) -> DynamicModel {
    if x.len() == ADDRESS_LEN {
        DynamicModel::Bytes(canonical_hex(x))
    } else {
        DynamicModel::Unit
    }
}

/// Converts a byte array to the text of an address.
pub fn address(x: &Vec<u8>) -> (r: DynamicValue)
    ensures
        r@ == address_text(x@),
{
    if x.len() == ADDRESS_LEN {
        DynamicValue::Bytes(to_hex(x))
    } else {
        DynamicValue::Unit
    }
}

/// The integer that a dynamic value stands for, as a dynamic value: the
/// canonical text of the integer, and the empty value where it stands for
/// none.
pub open spec fn uint_of(x: DynamicModel) -> DynamicModel {
    match big_int::deserialized(x) {
        Ok(v) => big_int::serialized(v),
        Err(_) => DynamicModel::Unit,
    }
}

/// Reads an integer from a dynamic value and gives it back in its canonical
/// text.
pub fn uint(x: &DynamicValue) -> (r: DynamicValue)
    ensures
        r@ == uint_of(x@),
{
    match big_int::deserialize(x) {
        Ok(v) => big_int::serialize(&v),
        Err(_) => DynamicValue::Unit,
    }
}

/// A property of a stored record: the field of that name within the field
/// `result` of the record, and the empty value where there is none.
pub open spec fn property_of(obj: DynamicModel, name: Seq<char>) -> DynamicModel {
    match obj.field("result"@) {
        Some(DynamicModel::Record(entries)) => match lookup(entries, name) {
            Some(v) => v,
            None => DynamicModel::Unit,
        },
        _ => DynamicModel::Unit,
    }
}

/// Looks up a property of a stored record.
pub fn property(obj: &DynamicValue, name: &str) -> (r: DynamicValue)
    ensures
        r@ == property_of(obj@, name@),
{
    match obj.get("result") {
        Some(inner) => match inner {
            DynamicValue::Record(_) => match inner.get(name) {
                Some(v) => v.clone(),
                None => DynamicValue::Unit,
            },
            _ => DynamicValue::Unit,
        },
        None => DynamicValue::Unit,
    }
}

} // verus!

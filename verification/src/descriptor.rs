//! Contract interfaces: the typed descriptors of events and functions, and
//! how they are loaded from loosely typed descriptor objects.
//!
//! A descriptor object is a record of the dynamic value model, as an
//! interface file gives it. Loading checks every event and every function of
//! an interface; the first malformed one is fatal.

use crate::dynamic::{lemma_sequence_view, lookup, models};
use crate::dynamic::{DynamicModel, DynamicValue, FieldModel};
use crate::error::{FatalKind, GenerationFatal};
use crate::types::{array_depth, base_kind, element_name, nested, param_models, resolve};
use crate::types::{parse_shape, resolve_type, BaseKind, Param, ParamModel, TypeModel};
use vstd::prelude::*;
use vstd::string::*;

verus! {

/// Whether a function may change the state of the chain.
#[derive(Debug, Clone, Copy, PartialEq, Eq, Structural)]
pub enum Mutability {
    Pure,
    View,
    NonPayable,
    Payable,
    /// Not stated, or stated in a word that is none of the four.
    Unspecified,
}

/// An event of a contract.
#[derive(Debug, PartialEq, Eq)]
pub struct EventDescriptor {
    pub name: String,
    pub inputs: Vec<Param>,
    /// Whether the logs of the event lack the topic that identifies it.
    pub anonymous: bool,
}

/// A function of a contract.
#[derive(Debug, PartialEq, Eq)]
pub struct FunctionDescriptor {
    pub name: String,
    pub inputs: Vec<Param>,
    pub outputs: Vec<Param>,
    pub mutability: Mutability,
}

/// The interface of one contract. Events and functions stand in the order
/// of their descriptors.
#[derive(Debug, PartialEq, Eq)]
pub struct ContractInterface {
    pub name: String,
    pub events: Vec<EventDescriptor>,
    pub functions: Vec<FunctionDescriptor>,
}

/// The mathematical model of an [`EventDescriptor`].
pub struct EventModel {
    pub name: Seq<char>,
    pub inputs: Seq<ParamModel>,
    pub anonymous: bool,
}

/// The mathematical model of a [`FunctionDescriptor`].
pub struct FunctionModel {
    pub name: Seq<char>,
    pub inputs: Seq<ParamModel>,
    pub outputs: Seq<ParamModel>,
    pub mutability: Mutability,
}

/// The mathematical model of a [`ContractInterface`].
pub struct InterfaceModel {
    pub name: Seq<char>,
    pub events: Seq<EventModel>,
    pub functions: Seq<FunctionModel>,
}

impl View for EventDescriptor {
    type V = EventModel;

    open spec fn view(&self) -> EventModel {
        EventModel {
            name: self.name@,
            inputs: param_models(self.inputs@),
            anonymous: self.anonymous,
        }
    }
}

impl View for FunctionDescriptor {
    type V = FunctionModel;

    open spec fn view(&self) -> FunctionModel {
        FunctionModel {
            name: self.name@,
            inputs: param_models(self.inputs@),
            outputs: param_models(self.outputs@),
            mutability: self.mutability,
        }
    }
}

/// The models of a sequence of events, one by one.
pub open spec fn event_models(events: Seq<EventDescriptor>) -> Seq<EventModel> {
    Seq::new(events.len(), |i: int| events[i]@)
}

/// The models of a sequence of functions, one by one.
pub open spec fn function_models(functions: Seq<FunctionDescriptor>) -> Seq<FunctionModel> {
    Seq::new(functions.len(), |i: int| functions[i]@)
}

impl View for ContractInterface {
    type V = InterfaceModel;

    open spec fn view(&self) -> InterfaceModel {
        InterfaceModel {
            name: self.name@,
            events: event_models(self.events@),
            functions: function_models(self.functions@),
        }
    }
}

/// The field `key` of a record, if it is a text.
pub open spec fn text_field(item: DynamicModel, key: Seq<char>) -> Option<Seq<char>> {
    match item.field(key) {
        Some(DynamicModel::Text(s)) => Some(s),
        _ => None,
    }
}

/// Whether the field `key` of a record is the boolean `true`.
pub open spec fn flag_field(item: DynamicModel, key: Seq<char>) -> bool {
    item.field(key) == Some(DynamicModel::Bool(true))
}

/// The field `key` of a record, if it is a sequence.
pub open spec fn sequence_field(item: DynamicModel, key: Seq<char>) -> Option<Seq<DynamicModel>> {
    match item.field(key) {
        Some(DynamicModel::Sequence(parts)) => Some(parts),
        _ => None,
    }
}

/// What a record holds under a name is smaller than the record.
pub proof fn lemma_lookup_decreases(entries: Seq<FieldModel>, key: Seq<char>)
    ensures
        lookup(entries, key) matches Some(v) ==> decreases_to!(entries => v),
    decreases entries.len(),
{
    if entries.len() > 0 {
        if entries[0].name == key {
            assert(decreases_to!(entries => entries[0]));
            assert(decreases_to!(entries[0] => entries[0].value));
        } else {
            lemma_lookup_decreases(entries.skip(1), key);
            if lookup(entries.skip(1), key) is Some {
                lemma_lookup_found(entries.skip(1), key);
                let i = choose|i: int|
                    0 <= i < entries.skip(1).len() && #[trigger] entries.skip(1)[i].value == lookup(
                        entries.skip(1),
                        key,
                    ).unwrap();
                assert(entries.skip(1)[i] == entries[i + 1]);
                assert(decreases_to!(entries => entries[i + 1]));
                assert(decreases_to!(entries[i + 1] => entries[i + 1].value));
            }
        }
    }
}

/// What a record holds under a name is the value of one of its entries.
pub proof fn lemma_lookup_found(entries: Seq<FieldModel>, key: Seq<char>)
    requires
        lookup(entries, key) is Some,
    ensures
        exists|i: int|
            0 <= i < entries.len() && #[trigger] entries[i].value == lookup(entries, key).unwrap(),
    decreases entries.len(),
{
    if entries[0].name == key {
        assert(entries[0].value == lookup(entries, key).unwrap());
    } else {
        lemma_lookup_found(entries.skip(1), key);
        let i = choose|i: int|
            0 <= i < entries.skip(1).len() && #[trigger] entries.skip(1)[i].value == lookup(
                entries.skip(1),
                key,
            ).unwrap();
        assert(entries.skip(1)[i] == entries[i + 1]);
        assert(entries[i + 1].value == lookup(entries, key).unwrap());
    }
}

/// The parameter that a descriptor object stands for. It needs a `name` and
/// a `type`, both texts; the `components` are looked at only where the type
/// name stands for a tuple, and must then be a sequence of such objects, at
/// least one; `indexed` counts only where it is `true`.
pub open spec fn load_param(item: DynamicModel) -> Result<ParamModel, FatalKind>
    decreases item, 0nat,
{
    match text_field(item, "name"@) {
        None => Err(FatalKind::MissingName),
        Some(name) => match text_field(item, "type"@) {
            None => Err(FatalKind::MissingType),
            Some(kind) => {
                let indexed = flag_field(item, "indexed"@);
                if base_kind(element_name(kind)) == Some(BaseKind::Tuple) {
                    match sequence_field(item, "components"@) {
                        None => Err(FatalKind::MissingComponents),
                        Some(parts) => {
                            proof {
                                if item is Record {
                                    lemma_lookup_decreases(item->Record_0, "components"@);
                                }
                            }
                            match load_params(parts, parts.len()) {
                                Err(e) => Err(e),
                                Ok(components) => if components.len() == 0 {
                                    Err(FatalKind::MissingComponents)
                                } else {
                                    Ok(
                                        ParamModel {
                                            name,
                                            kind: nested(
                                                TypeModel::Tuple(components),
                                                array_depth(kind),
                                            ),
                                            indexed,
                                        },
                                    )
                                },
                            }
                        },
                    }
                } else {
                    match resolve(kind, None) {
                        Err(e) => Err(e),
                        Ok(t) => Ok(ParamModel { name, kind: t, indexed }),
                    }
                }
            },
        },
    }
}

/// The parameters that the first `n` of a sequence of descriptor objects
/// stand for, or what is wrong with the first that stands for none.
pub open spec fn load_params(items: Seq<DynamicModel>, n: nat) -> Result<Seq<ParamModel>, FatalKind>
    decreases items, n,
{
    if n == 0 || n > items.len() {
        Ok(Seq::empty())
    } else {
        match load_params(items, (n - 1) as nat) {
            Err(e) => Err(e),
            Ok(params) => match load_param(items[n - 1]) {
                Err(e) => Err(e),
                Ok(p) => Ok(params.push(p)),
            },
        }
    }
}

/// The mutability that a word states.
pub open spec fn mutability_of(word: Option<Seq<char>>) -> Mutability {
    match word {
        None => Mutability::Unspecified,
        Some(w) => if w == "pure"@ {
            Mutability::Pure
        } else if w == "view"@ {
            Mutability::View
        } else if w == "nonpayable"@ {
            Mutability::NonPayable
        } else if w == "payable"@ {
            Mutability::Payable
        } else {
            Mutability::Unspecified
        },
    }
}

/// The event that a descriptor object stands for. It needs a `name` that is
/// a text and `inputs` that are a sequence of parameters.
pub open spec fn load_event(item: DynamicModel) -> Result<EventModel, FatalKind> {
    match text_field(item, "name"@) {
        None => Err(FatalKind::MissingName),
        Some(name) => match sequence_field(item, "inputs"@) {
            None => Err(FatalKind::MalformedInputs),
            Some(parts) => match load_params(parts, parts.len()) {
                Err(e) => Err(e),
                Ok(inputs) => Ok(
                    EventModel { name, inputs, anonymous: flag_field(item, "anonymous"@) },
                ),
            },
        },
    }
}

/// The function that a descriptor object stands for. It needs a `name` that
/// is a text, and `inputs` and `outputs` that are sequences of parameters.
pub open spec fn load_function(item: DynamicModel) -> Result<FunctionModel, FatalKind> {
    match text_field(item, "name"@) {
        None => Err(FatalKind::MissingName),
        Some(name) => match sequence_field(item, "inputs"@) {
            None => Err(FatalKind::MalformedInputs),
            Some(ins) => match load_params(ins, ins.len()) {
                Err(e) => Err(e),
                Ok(inputs) => match sequence_field(item, "outputs"@) {
                    None => Err(FatalKind::MalformedOutputs),
                    Some(outs) => match load_params(outs, outs.len()) {
                        Err(e) => Err(e),
                        Ok(outputs) => Ok(
                            FunctionModel {
                                name,
                                inputs,
                                outputs,
                                mutability: mutability_of(text_field(item, "stateMutability"@)),
                            },
                        ),
                    },
                },
            },
        },
    }
}

/// The interface that the first `n` of a sequence of descriptor objects
/// stand for. Every object needs a `type` that is a text; those of type
/// `event` and `function` are loaded, in order, and the others are passed
/// over. The first object that is malformed is fatal.
pub open spec fn load(name: Seq<char>, items: Seq<DynamicModel>, n: nat) -> Result<
    InterfaceModel,
    GenerationFatal,
>
    decreases n,
{
    if n == 0 || n > items.len() {
        Ok(InterfaceModel { name, events: Seq::empty(), functions: Seq::empty() })
    } else {
        let at = (n - 1) as usize;
        match load(name, items, (n - 1) as nat) {
            Err(e) => Err(e),
            Ok(sofar) => match text_field(items[n - 1], "type"@) {
                None => Err(GenerationFatal { kind: FatalKind::MissingType, descriptor: at }),
                Some(t) => if t == "event"@ {
                    match load_event(items[n - 1]) {
                        Err(kind) => Err(GenerationFatal { kind, descriptor: at }),
                        Ok(event) => Ok(
                            InterfaceModel { events: sofar.events.push(event), ..sofar },
                        ),
                    }
                } else if t == "function"@ {
                    match load_function(items[n - 1]) {
                        Err(kind) => Err(GenerationFatal { kind, descriptor: at }),
                        Ok(function) => Ok(
                            InterfaceModel { functions: sofar.functions.push(function), ..sofar },
                        ),
                    }
                } else {
                    Ok(sofar)
                },
            },
        }
    }
}

/// Once the parameters cannot be loaded, looking at more of them changes
/// nothing.
proof fn lemma_load_params_stops(items: Seq<DynamicModel>, k: nat, n: nat)
    requires
        k <= n <= items.len(),
        load_params(items, k) is Err,
    ensures
        load_params(items, n) == load_params(items, k),
    decreases n,
{
    if k < n {
        lemma_load_params_stops(items, k, (n - 1) as nat);
    }
}

/// Once the interface cannot be loaded, looking at more descriptors changes
/// nothing.
proof fn lemma_load_stops(name: Seq<char>, items: Seq<DynamicModel>, k: nat, n: nat)
    requires
        k <= n <= items.len(),
        load(name, items, k) is Err,
    ensures
        load(name, items, n) == load(name, items, k),
    decreases n,
{
    if k < n {
        lemma_load_stops(name, items, k, (n - 1) as nat);
    }
}

/// The field `key` of a record, if it is a text.
fn text_of<'a>(item: &'a DynamicValue, key: &str) -> (r: Option<&'a String>)
    ensures
        r.is_some() == text_field(item@, key@).is_some(),
        r matches Some(s) ==> Some(s@) == text_field(item@, key@),
{
    match item.get(key) {
        Some(DynamicValue::Text(s)) => Some(s),
        _ => None,
    }
}

/// Whether the field `key` of a record is the boolean `true`.
fn flag_of(item: &DynamicValue, key: &str) -> (r: bool)
    ensures
        r == flag_field(item@, key@),
{
    match item.get(key) {
        Some(DynamicValue::Bool(b)) => *b,
        _ => false,
    }
}

/// The field `key` of a record, if it is a sequence.
fn sequence_of<'a>(item: &'a DynamicValue, key: &str) -> (r: Option<&'a Vec<DynamicValue>>)
    ensures
        r.is_some() == sequence_field(item@, key@).is_some(),
        r matches Some(parts) ==> Some(models(parts@)) == sequence_field(item@, key@),
        r matches Some(parts) ==> decreases_to!(*item => *parts),
{
    match item.get(key) {
        Some(DynamicValue::Sequence(parts)) => {
            proof {
                lemma_sequence_view(*parts);
            }
            Some(parts)
        },
        _ => None,
    }
}

/// Whether a text is a given word.
fn is_word(text: &String, word: &str) -> (r: bool)
    ensures
        r == (text@ == word@),
{
    let w = word.to_owned();
    *text == w
}

/// Loads a parameter from a descriptor object.
pub fn read_param(item: &DynamicValue) -> (r: Result<Param, FatalKind>)
    ensures
        match load_param(item@) {
            Ok(p) => r matches Ok(v) && v@ == p,
            Err(e) => r == Err::<Param, FatalKind>(e),
        },
    decreases item,
{
    let name = match text_of(item, "name") {
        None => {
            return Err(FatalKind::MissingName);
        },
        Some(s) => s.clone(),
    };
    let kind = match text_of(item, "type") {
        None => {
            return Err(FatalKind::MissingType);
        },
        Some(s) => s,
    };
    let indexed = flag_of(item, "indexed");
    match parse_shape(kind.as_str()) {
        Some((BaseKind::Tuple, _)) => match sequence_of(item, "components") {
            None => Err(FatalKind::MissingComponents),
            Some(parts) => match read_params(parts) {
                Err(e) => Err(e),
                Ok(components) => match resolve_type(kind.as_str(), Some(components)) {
                    Err(e) => Err(e),
                    Ok(t) => Ok(Param { name, kind: t, indexed }),
                },
            },
        },
        _ => match resolve_type(kind.as_str(), None) {
            Err(e) => Err(e),
            Ok(t) => Ok(Param { name, kind: t, indexed }),
        },
    }
}

/// Loads parameters from a sequence of descriptor objects.
#[verifier::loop_isolation(false)]
pub fn read_params(items: &Vec<DynamicValue>) -> (r: Result<Vec<Param>, FatalKind>)
    ensures
        match load_params(models(items@), items@.len()) {
            Ok(params) => r matches Ok(v) && param_models(v@) == params,
            Err(e) => r == Err::<Vec<Param>, FatalKind>(e),
        },
    decreases items,
{
    let ghost all = models(items@);
    let mut out: Vec<Param> = Vec::new();
    let mut i: usize = 0;
    assert(param_models(out@) =~= Seq::<ParamModel>::empty());
    while i < items.len()
        invariant
            i <= items.len(),
            all == models(items@),
            load_params(all, i as nat) == Ok::<Seq<ParamModel>, FatalKind>(param_models(out@)),
        decreases items.len() - i,
    {
        proof {
            vstd::std_specs::vec::axiom_vec_index_decreases(*items, i as int);
        }
        match read_param(&items[i]) {
            Err(e) => {
                proof {
                    assert(load_params(all, (i + 1) as nat) == Err::<Seq<ParamModel>, FatalKind>(e));
                    lemma_load_params_stops(all, (i + 1) as nat, all.len());
                }
                return Err(e);
            },
            Ok(p) => {
                let ghost before = param_models(out@);
                out.push(p);
                assert(param_models(out@) =~= before.push(p@));
            },
        }
        i += 1;
    }
    Ok(out)
}

/// The mutability that a descriptor object states.
fn read_mutability(item: &DynamicValue) -> (r: Mutability)
    ensures
        r == mutability_of(text_field(item@, "stateMutability"@)),
{
    match text_of(item, "stateMutability") {
        None => Mutability::Unspecified,
        Some(w) => if is_word(w, "pure") {
            Mutability::Pure
        } else if is_word(w, "view") {
            Mutability::View
        } else if is_word(w, "nonpayable") {
            Mutability::NonPayable
        } else if is_word(w, "payable") {
            Mutability::Payable
        } else {
            Mutability::Unspecified
        },
    }
}

/// Loads an event from a descriptor object.
pub fn read_event(item: &DynamicValue) -> (r: Result<EventDescriptor, FatalKind>)
    ensures
        match load_event(item@) {
            Ok(event) => r matches Ok(v) && v@ == event,
            Err(e) => r == Err::<EventDescriptor, FatalKind>(e),
        },
{
    let name = match text_of(item, "name") {
        None => {
            return Err(FatalKind::MissingName);
        },
        Some(s) => s.clone(),
    };
    let inputs = match sequence_of(item, "inputs") {
        None => {
            return Err(FatalKind::MalformedInputs);
        },
        Some(parts) => match read_params(parts) {
            Err(e) => {
                return Err(e);
            },
            Ok(params) => params,
        },
    };
    Ok(EventDescriptor { name, inputs, anonymous: flag_of(item, "anonymous") })
}

/// Loads a function from a descriptor object.
pub fn read_function(item: &DynamicValue) -> (r: Result<FunctionDescriptor, FatalKind>)
    ensures
        match load_function(item@) {
            Ok(function) => r matches Ok(v) && v@ == function,
            Err(e) => r == Err::<FunctionDescriptor, FatalKind>(e),
        },
{
    let name = match text_of(item, "name") {
        None => {
            return Err(FatalKind::MissingName);
        },
        Some(s) => s.clone(),
    };
    let inputs = match sequence_of(item, "inputs") {
        None => {
            return Err(FatalKind::MalformedInputs);
        },
        Some(parts) => match read_params(parts) {
            Err(e) => {
                return Err(e);
            },
            Ok(params) => params,
        },
    };
    let outputs = match sequence_of(item, "outputs") {
        None => {
            return Err(FatalKind::MalformedOutputs);
        },
        Some(parts) => match read_params(parts) {
            Err(e) => {
                return Err(e);
            },
            Ok(params) => params,
        },
    };
    Ok(FunctionDescriptor { name, inputs, outputs, mutability: read_mutability(item) })
}

impl ContractInterface {
    /// Loads the interface of the contract `name` from its descriptor
    /// objects.
    pub fn load(name: &str, descriptors: &Vec<DynamicValue>) -> (r: Result<
        ContractInterface,
        GenerationFatal,
    >)
        ensures
            match load(name@, models(descriptors@), descriptors@.len()) {
                Ok(interface) => r matches Ok(v) && v@ == interface,
                Err(e) => r == Err::<ContractInterface, GenerationFatal>(e),
            },
    {
        let ghost all = models(descriptors@);
        let mut events: Vec<EventDescriptor> = Vec::new();
        let mut functions: Vec<FunctionDescriptor> = Vec::new();
        let mut i: usize = 0;
        assert(event_models(events@) =~= Seq::<EventModel>::empty());
        assert(function_models(functions@) =~= Seq::<FunctionModel>::empty());
        while i < descriptors.len()
            invariant
                i <= descriptors.len(),
                all == models(descriptors@),
                load(name@, all, i as nat) == Ok::<InterfaceModel, GenerationFatal>(
                    InterfaceModel {
                        name: name@,
                        events: event_models(events@),
                        functions: function_models(functions@),
                    },
                ),
            decreases descriptors.len() - i,
        {
            let item = &descriptors[i];
            let ghost step = load(name@, all, (i + 1) as nat);
            match text_of(item, "type") {
                None => {
                    let e = GenerationFatal { kind: FatalKind::MissingType, descriptor: i };
                    proof {
                        assert(step == Err::<InterfaceModel, GenerationFatal>(e));
                        lemma_load_stops(name@, all, (i + 1) as nat, all.len());
                    }
                    return Err(e);
                },
                Some(t) => {
                    if is_word(t, "event") {
                        match read_event(item) {
                            Err(kind) => {
                                let e = GenerationFatal { kind, descriptor: i };
                                proof {
                                    assert(step == Err::<InterfaceModel, GenerationFatal>(e));
                                    lemma_load_stops(name@, all, (i + 1) as nat, all.len());
                                }
                                return Err(e);
                            },
                            Ok(event) => {
                                let ghost before = event_models(events@);
                                events.push(event);
                                assert(event_models(events@) =~= before.push(event@));
                            },
                        }
                    } else if is_word(t, "function") {
                        match read_function(item) {
                            Err(kind) => {
                                let e = GenerationFatal { kind, descriptor: i };
                                proof {
                                    assert(step == Err::<InterfaceModel, GenerationFatal>(e));
                                    lemma_load_stops(name@, all, (i + 1) as nat, all.len());
                                }
                                return Err(e);
                            },
                            Ok(function) => {
                                let ghost before = function_models(functions@);
                                functions.push(function);
                                assert(function_models(functions@) =~= before.push(function@));
                            },
                        }
                    }
                },
            }
            i += 1;
        }
        Ok(ContractInterface { name: name.to_owned(), events, functions })
    }
}

} // verus!

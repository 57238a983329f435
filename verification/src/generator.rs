//! The binding generator: from the interface of a contract to the table of
//! accessors that scripts can call.
//!
//! Every event gets an accessor, named by its name folded to upper camel
//! case. A function gets one, under its own name, only if it is `view` or
//! `pure` and takes no inputs. Events come first, then functions, each in
//! the order of the interface. Two accessors of one name are fatal.

use convert_case::{Case, Casing};
use crate::descriptor::{event_models, function_models};
use crate::descriptor::{ContractInterface, EventDescriptor, EventModel, FunctionDescriptor};
use crate::descriptor::{FunctionModel, InterfaceModel, Mutability};
use crate::dynamic::texts;
use crate::error::{FatalKind, GenerationFatal};
use vstd::prelude::*;

verus! {

/// What an accessor does when a script calls it.
#[derive(Debug, Clone, Copy, PartialEq, Eq, Structural)]
pub enum AccessorKind {
    /// Takes a block and an optional set of addresses; gives the decoded
    /// logs of one event, or the empty value.
    Event,
    /// Takes a target address; gives the decoded result of a read-only call
    /// without arguments, or the empty value.
    Call,
}

/// One entry of the accessor table.
#[derive(Debug, PartialEq, Eq)]
pub struct AccessorSpec {
    /// The contract that the accessor belongs to.
    pub contract: String,
    /// The name under which scripts call it.
    pub name: String,
    pub kind: AccessorKind,
    /// The position of its descriptor among the events, or among the
    /// functions, of the interface.
    pub descriptor: usize,
}

/// The mathematical model of an [`AccessorSpec`].
pub struct AccessorModel {
    pub contract: Seq<char>,
    pub name: Seq<char>,
    pub kind: AccessorKind,
    pub descriptor: nat,
}

impl View for AccessorSpec {
    type V = AccessorModel;

    open spec fn view(&self) -> AccessorModel {
        AccessorModel {
            contract: self.contract@,
            name: self.name@,
            kind: self.kind,
            descriptor: self.descriptor as nat,
        }
    }
}

/// The models of a sequence of accessors, one by one.
pub open spec fn accessor_models(table: Seq<AccessorSpec>) -> Seq<AccessorModel> {
    Seq::new(table.len(), |i: int| table[i]@)
}

/// A name folded to upper camel case.
pub uninterp spec fn upper_camel(name: Seq<char>) -> Seq<char>;

/// Calls `convert_case::Casing::to_case` with `Case::UpperCamel`: the words
/// of the name, each with a capital first letter, with nothing between them.
#[verifier::external_body]
fn to_upper_camel(name: &str) -> (r: String)
    ensures
        r@ == upper_camel(name@),
{
    name.to_case(Case::UpperCamel)
}

/// Whether a function gets a call accessor: it reads only, and takes no
/// inputs.
pub open spec fn has_call_binding(f: FunctionModel) -> bool {
    (f.mutability == Mutability::View || f.mutability == Mutability::Pure) && f.inputs.len() == 0
}

/// The accessors of the events whose folded names are `names`.
pub open spec fn event_accessors(contract: Seq<char>, names: Seq<Seq<char>>) -> Seq<
    AccessorModel,
> {
    Seq::new(
        names.len(),
        |i: int|
            AccessorModel {
                contract,
                name: names[i],
                kind: AccessorKind::Event,
                descriptor: i as nat,
            },
    )
}

/// The accessors of the first `n` functions.
pub open spec fn call_accessors(contract: Seq<char>, functions: Seq<FunctionModel>, n: nat) -> Seq<
    AccessorModel,
>
    decreases n,
{
    if n == 0 || n > functions.len() {
        Seq::empty()
    } else {
        let before = call_accessors(contract, functions, (n - 1) as nat);
        if has_call_binding(functions[n - 1]) {
            before.push(
                AccessorModel {
                    contract,
                    name: functions[n - 1].name,
                    kind: AccessorKind::Call,
                    descriptor: (n - 1) as nat,
                },
            )
        } else {
            before
        }
    }
}

/// The accessor table of a contract, given the folded names of its events.
pub open spec fn table(
    contract: Seq<char>,
    event_names: Seq<Seq<char>>,
    functions: Seq<FunctionModel>,
) -> Seq<AccessorModel> {
    event_accessors(contract, event_names) + call_accessors(contract, functions, functions.len())
}

/// The folded names of events, one by one.
pub open spec fn folded_names(events: Seq<EventModel>) -> Seq<Seq<char>> {
    Seq::new(events.len(), |i: int| upper_camel(events[i].name))
}

/// The accessor table of an interface.
pub open spec fn accessors(interface: InterfaceModel) -> Seq<AccessorModel> {
    table(interface.name, folded_names(interface.events), interface.functions)
}

/// Whether the accessor at `j` bears the name of an earlier one.
pub open spec fn collides(t: Seq<AccessorModel>, j: int) -> bool {
    exists|i: int| 0 <= i < j && (#[trigger] t[i]).name == t[j].name
}

/// Whether `r` is what generation gives for the table `t`: the table itself
/// if no two names collide, and else the position of the first accessor that
/// bears the name of an earlier one.
pub open spec fn checked(t: Seq<AccessorModel>, r: Result<Seq<AccessorModel>, GenerationFatal>) -> bool {
    match r {
        Ok(out) => out == t && forall|j: int| 0 <= j < t.len() ==> !collides(t, j),
        Err(e) => {
            &&& e.kind == FatalKind::NameCollision
            &&& e.descriptor < t.len()
            &&& collides(t, e.descriptor as int)
            &&& forall|j: int| 0 <= j < e.descriptor ==> !collides(t, j)
        },
    }
}

/// Tells whether the accessor at `j` bears the name of an earlier one.
fn collides_before(out: &Vec<AccessorSpec>, j: usize) -> (r: bool)
    requires
        j < out.len(),
    ensures
        r == collides(accessor_models(out@), j as int),
{
    let ghost t = accessor_models(out@);
    let mut i: usize = 0;
    while i < j
        invariant
            i <= j < out.len(),
            t == accessor_models(out@),
            forall|k: int| 0 <= k < i ==> (#[trigger] t[k]).name != t[j as int].name,
        decreases j - i,
    {
        if out[i].name == out[j].name {
            assert(t[i as int].name == t[j as int].name);
            return true;
        }
        i += 1;
    }
    false
}

/// Puts the accessor table of a contract together from the folded names of
/// its events and from its functions, and makes sure that no two accessors
/// bear one name.
pub fn assemble(contract: &str, event_names: &Vec<String>, functions: &Vec<FunctionDescriptor>) -> (r:
    Result<Vec<AccessorSpec>, GenerationFatal>)
    ensures
        match r {
            Ok(out) => checked(
                table(contract@, texts(event_names@), function_models(functions@)),
                Ok(accessor_models(out@)),
            ),
            Err(e) => checked(
                table(contract@, texts(event_names@), function_models(functions@)),
                Err(e),
            ),
        },
{
    let ghost names = texts(event_names@);
    let ghost fs = function_models(functions@);
    let mut out: Vec<AccessorSpec> = Vec::new();
    let mut i: usize = 0;
    while i < event_names.len()
        invariant
            i <= event_names.len(),
            names == texts(event_names@),
            out.len() == i,
            accessor_models(out@) == event_accessors(contract@, names.take(i as int)),
        decreases event_names.len() - i,
    {
        let ghost before = accessor_models(out@);
        out.push(
            AccessorSpec {
                contract: contract.to_owned(),
                name: event_names[i].clone(),
                kind: AccessorKind::Event,
                descriptor: i,
            },
        );
        proof {
            let added = AccessorModel {
                contract: contract@,
                name: names[i as int],
                kind: AccessorKind::Event,
                descriptor: i as nat,
            };
            assert(out@[i as int]@ == added);
            assert(accessor_models(out@) =~= before.push(added));
            assert(names.take(i as int + 1)[i as int] == names[i as int]);
            assert(before.push(added) =~= event_accessors(contract@, names.take(i as int + 1)));
        }
        i += 1;
    }
    assert(names.take(event_names.len() as int) =~= names);
    let mut k: usize = 0;
    assert(accessor_models(out@) =~= event_accessors(contract@, names) + call_accessors(
        contract@,
        fs,
        0,
    ));
    while k < functions.len()
        invariant
            k <= functions.len(),
            fs == function_models(functions@),
            accessor_models(out@) == event_accessors(contract@, names) + call_accessors(
                contract@,
                fs,
                k as nat,
            ),
        decreases functions.len() - k,
    {
        let f = &functions[k];
        let reads = match f.mutability {
            Mutability::View => true,
            Mutability::Pure => true,
            _ => false,
        };
        assert(fs[k as int] == f@);
        let ghost before = accessor_models(out@);
        if reads && f.inputs.len() == 0 {
            out.push(
                AccessorSpec {
                    contract: contract.to_owned(),
                    name: f.name.clone(),
                    kind: AccessorKind::Call,
                    descriptor: k,
                },
            );
            proof {
                let added = AccessorModel {
                    contract: contract@,
                    name: fs[k as int].name,
                    kind: AccessorKind::Call,
                    descriptor: k as nat,
                };
                assert(out@[out.len() - 1]@ == added);
                assert(accessor_models(out@) =~= before.push(added));
                assert(before.push(added) =~= event_accessors(contract@, names) + call_accessors(
                    contract@,
                    fs,
                    (k + 1) as nat,
                ));
            }
        }
        k += 1;
    }
    let ghost t = accessor_models(out@);
    let mut j: usize = 0;
    while j < out.len()
        invariant
            j <= out.len(),
            t == accessor_models(out@),
            t == table(contract@, texts(event_names@), function_models(functions@)),
            forall|m: int| 0 <= m < j ==> !collides(t, m),
        decreases out.len() - j,
    {
        if collides_before(&out, j) {
            return Err(GenerationFatal { kind: FatalKind::NameCollision, descriptor: j });
        }
        j += 1;
    }
    Ok(out)
}

/// The folded names of events, one by one.
fn fold_names(events: &Vec<EventDescriptor>) -> (r: Vec<String>)
    ensures
        texts(r@) == folded_names(event_models(events@)),
{
    let mut names: Vec<String> = Vec::new();
    let mut i: usize = 0;
    while i < events.len()
        invariant
            i <= events.len(),
            names.len() == i,
            forall|k: int| 0 <= k < i ==> names@[k]@ == upper_camel(events@[k].name@),
        decreases events.len() - i,
    {
        names.push(to_upper_camel(events[i].name.as_str()));
        i += 1;
    }
    assert(texts(names@) =~= folded_names(event_models(events@)));
    names
}

/// Generates the accessor table of an interface.
pub fn generate(interface: &ContractInterface) -> (r: Result<Vec<AccessorSpec>, GenerationFatal>)
    ensures
        match r {
            Ok(out) => checked(accessors(interface@), Ok(accessor_models(out@))),
            Err(e) => checked(accessors(interface@), Err(e)),
        },
{
    let names = fold_names(&interface.events);
    assemble(interface.name.as_str(), &names, &interface.functions)
}

/// Generation gives one result: whatever is generated twice for one table
/// is the same both times, names and kinds and positions.
pub proof fn lemma_generation_is_deterministic(
    t: Seq<AccessorModel>,
    first: Result<Seq<AccessorModel>, GenerationFatal>,
    second: Result<Seq<AccessorModel>, GenerationFatal>,
)
    requires
        checked(t, first),
        checked(t, second),
    ensures
        first == second,
{
    match (first, second) {
        (Ok(a), Ok(b)) => {},
        (Err(e), Err(f)) => {
            if e.descriptor < f.descriptor {
                assert(!collides(t, e.descriptor as int));
            } else if f.descriptor < e.descriptor {
                assert(!collides(t, f.descriptor as int));
            }
        },
        (Ok(a), Err(f)) => {
            assert(!collides(t, f.descriptor as int));
        },
        (Err(e), Ok(b)) => {
            assert(!collides(t, e.descriptor as int));
        },
    }
}

/// The table of an interface depends on nothing but what the interface
/// holds.
pub proof fn lemma_table_follows_content(a: InterfaceModel, b: InterfaceModel)
    requires
        a.name == b.name,
        a.events =~= b.events,
        a.functions =~= b.functions,
    ensures
        accessors(a) == accessors(b),
{
}

/// A call accessor stands for a function that reads only and takes no
/// inputs, and bears its name.
pub proof fn lemma_call_accessors_are_bound(
    contract: Seq<char>,
    functions: Seq<FunctionModel>,
    n: nat,
    i: int,
)
    requires
        n <= functions.len(),
        0 <= i < call_accessors(contract, functions, n).len(),
    ensures
        call_accessors(contract, functions, n)[i].kind == AccessorKind::Call,
        call_accessors(contract, functions, n)[i].descriptor < n,
        has_call_binding(functions[call_accessors(contract, functions, n)[i].descriptor as int]),
        call_accessors(contract, functions, n)[i].name == functions[call_accessors(
            contract,
            functions,
            n,
        )[i].descriptor as int].name,
    decreases n,
{
    if n > 0 {
        let before = call_accessors(contract, functions, (n - 1) as nat);
        if i < before.len() {
            lemma_call_accessors_are_bound(contract, functions, (n - 1) as nat, i);
        }
    }
}

/// Every function that reads only and takes no inputs has its call
/// accessor.
pub proof fn lemma_bound_functions_have_accessors(
    contract: Seq<char>,
    functions: Seq<FunctionModel>,
    n: nat,
    k: int,
)
    requires
        n <= functions.len(),
        0 <= k < n,
        has_call_binding(functions[k]),
    ensures
        exists|i: int|
            0 <= i < call_accessors(contract, functions, n).len() && (#[trigger] call_accessors(
                contract,
                functions,
                n,
            )[i]).descriptor == k,
    decreases n,
{
    let before = call_accessors(contract, functions, (n - 1) as nat);
    let now = call_accessors(contract, functions, n);
    if k < n - 1 {
        lemma_bound_functions_have_accessors(contract, functions, (n - 1) as nat, k);
        let i = choose|i: int| 0 <= i < before.len() && (#[trigger] before[i]).descriptor == k;
        assert(now[i] == before[i]);
    } else {
        assert(now[now.len() - 1].descriptor == k);
    }
}

/// Every call accessor of the table of an interface stands for a function
/// of the interface that reads only and takes no inputs.
pub proof fn lemma_call_accessors_read_only(interface: InterfaceModel, i: int)
    requires
        0 <= i < accessors(interface).len(),
        accessors(interface)[i].kind == AccessorKind::Call,
    ensures
        accessors(interface)[i].descriptor < interface.functions.len(),
        has_call_binding(interface.functions[accessors(interface)[i].descriptor as int]),
{
    let events = event_accessors(interface.name, folded_names(interface.events));
    let calls = call_accessors(interface.name, interface.functions, interface.functions.len());
    if i < events.len() {
        assert(accessors(interface)[i] == events[i]);
    } else {
        assert(accessors(interface)[i] == calls[i - events.len()]);
        lemma_call_accessors_are_bound(
            interface.name,
            interface.functions,
            interface.functions.len(),
            i - events.len(),
        );
    }
}

/// A function that is neither `view` nor `pure`, or that declares an input,
/// never gets a call accessor.
pub proof fn lemma_excluded_functions_have_no_accessor(interface: InterfaceModel, k: int, i: int)
    requires
        0 <= k < interface.functions.len(),
        interface.functions[k].inputs.len() > 0 || !(interface.functions[k].mutability
            == Mutability::View || interface.functions[k].mutability == Mutability::Pure),
        0 <= i < accessors(interface).len(),
    ensures
        !(accessors(interface)[i].kind == AccessorKind::Call && accessors(interface)[i].descriptor
            == k),
{
    if accessors(interface)[i].kind == AccessorKind::Call {
        lemma_call_accessors_read_only(interface, i);
    }
}

} // verus!

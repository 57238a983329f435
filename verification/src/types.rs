//! Contract types and the host types that they are projected to.

use crate::error::FatalKind;
use crate::scalar::{digit_value, digits_value, is_digit};
use vstd::prelude::*;
use vstd::string::*;

verus! {

/// A type of the contract interface.
#[derive(Debug, PartialEq, Eq)]
pub enum SolidityType {
    Address,
    Bool,
    Text,
    Bytes,
    FixedBytes(u32),
    Int(u32),
    Uint(u32),
    Array(Box<SolidityType>),
    Tuple(Vec<Param>),
}

/// A named parameter of an event or a function, or a component of a tuple.
#[derive(Debug, PartialEq, Eq)]
pub struct Param {
    pub name: String,
    pub kind: SolidityType,
    /// Whether an event carries the parameter as a topic.
    pub indexed: bool,
}

/// The mathematical model of a [`SolidityType`].
pub enum TypeModel {
    Address,
    Bool,
    Text,
    Bytes,
    FixedBytes(nat),
    Int(nat),
    Uint(nat),
    Array(Box<TypeModel>),
    Tuple(Seq<ParamModel>),
}

/// The mathematical model of a [`Param`].
pub struct ParamModel {
    pub name: Seq<char>,
    pub kind: TypeModel,
    pub indexed: bool,
}

impl SolidityType {
    /// The model of a type: a tuple by the models of its components.
    pub open spec fn model(self) -> TypeModel
        decreases self,
    {
        match self {
            SolidityType::Address => TypeModel::Address,
            SolidityType::Bool => TypeModel::Bool,
            SolidityType::Text => TypeModel::Text,
            SolidityType::Bytes => TypeModel::Bytes,
            SolidityType::FixedBytes(n) => TypeModel::FixedBytes(n as nat),
            SolidityType::Int(n) => TypeModel::Int(n as nat),
            SolidityType::Uint(n) => TypeModel::Uint(n as nat),
            SolidityType::Array(inner) => TypeModel::Array(Box::new((*inner).model())),
            SolidityType::Tuple(parts) => TypeModel::Tuple(
                Seq::new(
                    parts@.len(),
                    |i: int|
                        if 0 <= i < parts@.len() {
                            ParamModel {
                                name: parts@[i].name@,
                                kind: parts@[i].kind.model(),
                                indexed: parts@[i].indexed,
                            }
                        } else {
                            ParamModel { name: Seq::empty(), kind: TypeModel::Bool, indexed: false }
                        },
                ),
            ),
        }
    }
}

impl View for SolidityType {
    type V = TypeModel;

    open spec fn view(&self) -> TypeModel {
        self.model()
    }
}

impl View for Param {
    type V = ParamModel;

    open spec fn view(&self) -> ParamModel {
        ParamModel { name: self.name@, kind: self.kind@, indexed: self.indexed }
    }
}

/// The models of a sequence of parameters, one by one.
pub open spec fn param_models(params: Seq<Param>) -> Seq<ParamModel> {
    Seq::new(params.len(), |i: int| params[i]@)
}

/// A tuple type shows the models of its components.
pub proof fn lemma_tuple_view(parts: Vec<Param>)
    ensures
        SolidityType::Tuple(parts)@ == TypeModel::Tuple(param_models(parts@)),
{
    assert(SolidityType::Tuple(parts)@->Tuple_0 =~= param_models(parts@));
}

/// What a type name says before any `[]`.
#[derive(Debug, Clone, Copy, PartialEq, Eq, Structural)]
pub enum BaseKind {
    Address,
    Bool,
    Text,
    Bytes,
    FixedBytes(u32),
    Int(u32),
    Uint(u32),
    Tuple,
}

/// Whether a type name ends in `[]`.
pub open spec fn ends_with_brackets(s: Seq<char>) -> bool {
    s.len() >= 2 && s[s.len() - 2] == '[' && s[s.len() - 1] == ']'
}

/// How many `[]` a type name ends in.
pub open spec fn array_depth(s: Seq<char>) -> nat
    decreases s.len(),
{
    if ends_with_brackets(s) {
        1 + array_depth(s.take(s.len() - 2))
    } else {
        0
    }
}

/// A type name without the `[]` that it ends in.
pub open spec fn element_name(s: Seq<char>) -> Seq<char>
    decreases s.len(),
{
    if ends_with_brackets(s) {
        element_name(s.take(s.len() - 2))
    } else {
        s
    }
}

/// Whether a text is one decimal digit or more.
pub open spec fn is_number(s: Seq<char>) -> bool {
    s.len() > 0 && forall|i: int| 0 <= i < s.len() ==> is_digit(#[trigger] s[i])
}

/// The width that a text gives, if it is a number that fits 32 bits.
pub open spec fn width_of(s: Seq<char>) -> Option<u32> {
    if is_number(s) && digits_value(s) <= u32::MAX {
        Some(digits_value(s) as u32)
    } else {
        None
    }
}

/// Whether `s` is longer than `word` and begins with it.
pub open spec fn extends(s: Seq<char>, word: Seq<char>) -> bool {
    s.len() > word.len() && s.take(word.len() as int) == word
}

/// What a type name without `[]` stands for: `address`, `bool`, `string`,
/// `bytes`, `tuple`, `uint` and `int` (both of 256 bits), or one of `bytes`,
/// `uint` and `int` followed by a width.
pub open spec fn base_kind(name: Seq<char>) -> Option<BaseKind> {
    if name == "address"@ {
        Some(BaseKind::Address)
    } else if name == "bool"@ {
        Some(BaseKind::Bool)
    } else if name == "string"@ {
        Some(BaseKind::Text)
    } else if name == "tuple"@ {
        Some(BaseKind::Tuple)
    } else if name == "bytes"@ {
        Some(BaseKind::Bytes)
    } else if name == "uint"@ {
        Some(BaseKind::Uint(256))
    } else if name == "int"@ {
        Some(BaseKind::Int(256))
    } else if extends(name, "bytes"@) {
        match width_of(name.skip("bytes"@.len() as int)) {
            Some(n) => Some(BaseKind::FixedBytes(n)),
            None => None,
        }
    } else if extends(name, "uint"@) {
        match width_of(name.skip("uint"@.len() as int)) {
            Some(n) => Some(BaseKind::Uint(n)),
            None => None,
        }
    } else if extends(name, "int"@) {
        match width_of(name.skip("int"@.len() as int)) {
            Some(n) => Some(BaseKind::Int(n)),
            None => None,
        }
    } else {
        None
    }
}

/// The characters of a text.
fn chars_of(text: &str) -> (r: Vec<char>)
    ensures
        r@ == text@,
{
    let n = text.unicode_len();
    let mut out: Vec<char> = Vec::new();
    let mut i: usize = 0;
    while i < n
        invariant
            n == text@.len(),
            i <= n,
            out@ == text@.take(i as int),
        decreases n - i,
    {
        out.push(text.get_char(i));
        assert(text@.take(i as int).push(text@[i as int]) =~= text@.take(i as int + 1));
        i += 1;
    }
    assert(text@.take(n as int) =~= text@);
    out
}

/// Whether the characters from `from` up to `to` spell `word`.
fn spells(chars: &Vec<char>, from: usize, to: usize, word: &str) -> (r: bool)
    requires
        from <= to <= chars.len(),
    ensures
        r == (chars@.subrange(from as int, to as int) == word@),
{
    let n = word.unicode_len();
    if to - from != n {
        return false;
    }
    let ghost part = chars@.subrange(from as int, to as int);
    let mut i: usize = 0;
    while i < n
        invariant
            from <= to <= chars.len(),
            n == word@.len(),
            to - from == n,
            i <= n,
            part == chars@.subrange(from as int, to as int),
            forall|j: int| 0 <= j < i ==> part[j] == word@[j],
        decreases n - i,
    {
        if chars[from + i] != word.get_char(i) {
            assert(part[i as int] != word@[i as int]);
            return false;
        }
        i += 1;
    }
    assert(part =~= word@);
    true
}

/// Digits read from the left never give less than a shorter run of them.
proof fn lemma_digits_value_grows(s: Seq<char>, i: int, j: int)
    requires
        0 <= i <= j <= s.len(),
        forall|k: int| 0 <= k < s.len() ==> is_digit(#[trigger] s[k]),
    ensures
        digits_value(s.take(i)) <= digits_value(s.take(j)),
    decreases j - i,
{
    if i < j {
        lemma_digits_value_grows(s, i, j - 1);
        assert(s.take(j).drop_last() =~= s.take(j - 1));
        assert(s.take(j).last() == s[j - 1]);
    }
}

/// The number of a decimal digit.
fn digit_of(c: char) -> (r: Option<u64>)
    ensures
        r.is_some() == is_digit(c),
        r matches Some(d) ==> d == digit_value(c),
{
    match c {
        '0' => Some(0),
        '1' => Some(1),
        '2' => Some(2),
        '3' => Some(3),
        '4' => Some(4),
        '5' => Some(5),
        '6' => Some(6),
        '7' => Some(7),
        '8' => Some(8),
        '9' => Some(9),
        _ => None,
    }
}

/// The width that the characters from `from` up to `to` give.
fn width_at(chars: &Vec<char>, from: usize, to: usize) -> (r: Option<u32>)
    requires
        from <= to <= chars.len(),
    ensures
        r == width_of(chars@.subrange(from as int, to as int)),
{
    let ghost part = chars@.subrange(from as int, to as int);
    if from == to {
        return None;
    }
    let mut value: u64 = 0;
    let mut i: usize = from;
    assert(part.take(0) =~= Seq::<char>::empty());
    while i < to
        invariant
            from <= i <= to <= chars.len(),
            part == chars@.subrange(from as int, to as int),
            forall|k: int| 0 <= k < i - from ==> is_digit(#[trigger] part[k]),
            value == digits_value(part.take(i - from)),
            value <= u32::MAX,
        decreases to - i,
    {
        let digit: u64 = match digit_of(chars[i]) {
            Some(d) => d,
            None => {
                assert(!is_digit(part[i - from]));
                return None;
            },
        };
        let next: u64 = value * 10 + digit;
        proof {
            assert(is_digit(part[i - from]));
            assert(part.take(i - from + 1).drop_last() =~= part.take(i - from));
            assert(part.take(i - from + 1).last() == part[i - from]);
            assert(next == digits_value(part.take(i - from + 1)));
        }
        if next > 0xffff_ffff {
            proof {
                if is_number(part) {
                    lemma_digits_value_grows(part, i - from + 1, part.len() as int);
                    assert(part.take(part.len() as int) =~= part);
                }
            }
            return None;
        }
        value = next;
        i += 1;
    }
    assert(part.take(to - from) =~= part);
    Some(value as u32)
}

/// What the first `end` characters stand for as a type name without `[]`.
fn base_kind_at(chars: &Vec<char>, end: usize) -> (r: Option<BaseKind>)
    requires
        end <= chars.len(),
    ensures
        r == base_kind(chars@.take(end as int)),
{
    let ghost name = chars@.take(end as int);
    proof {
        reveal_strlit("bytes");
        reveal_strlit("uint");
        reveal_strlit("int");
        assert(name =~= chars@.subrange(0, end as int));
        if end > 5 {
            assert(name.take(5) =~= chars@.subrange(0, 5));
            assert(name.skip(5) =~= chars@.subrange(5, end as int));
        }
        if end > 4 {
            assert(name.take(4) =~= chars@.subrange(0, 4));
            assert(name.skip(4) =~= chars@.subrange(4, end as int));
        }
        if end > 3 {
            assert(name.take(3) =~= chars@.subrange(0, 3));
            assert(name.skip(3) =~= chars@.subrange(3, end as int));
        }
    }
    if spells(chars, 0, end, "address") {
        Some(BaseKind::Address)
    } else if spells(chars, 0, end, "bool") {
        Some(BaseKind::Bool)
    } else if spells(chars, 0, end, "string") {
        Some(BaseKind::Text)
    } else if spells(chars, 0, end, "tuple") {
        Some(BaseKind::Tuple)
    } else if spells(chars, 0, end, "bytes") {
        Some(BaseKind::Bytes)
    } else if spells(chars, 0, end, "uint") {
        Some(BaseKind::Uint(256))
    } else if spells(chars, 0, end, "int") {
        Some(BaseKind::Int(256))
    } else if end > 5 && spells(chars, 0, 5, "bytes") {
        match width_at(chars, 5, end) {
            Some(n) => Some(BaseKind::FixedBytes(n)),
            None => None,
        }
    } else if end > 4 && spells(chars, 0, 4, "uint") {
        match width_at(chars, 4, end) {
            Some(n) => Some(BaseKind::Uint(n)),
            None => None,
        }
    } else if end > 3 && spells(chars, 0, 3, "int") {
        match width_at(chars, 3, end) {
            Some(n) => Some(BaseKind::Int(n)),
            None => None,
        }
    } else {
        None
    }
}

/// Reads a type name: what it stands for before any `[]`, and how many `[]`
/// follow. `None` for a name that stands for nothing known.
pub fn parse_shape(kind: &str) -> (r: Option<(BaseKind, usize)>)
    ensures
        match base_kind(element_name(kind@)) {
            Some(b) => r matches Some(shape) && shape.0 == b && shape.1 == array_depth(kind@),
            None => r is None,
        },
{
    let chars = chars_of(kind);
    let mut end: usize = chars.len();
    let mut depth: usize = 0;
    assert(chars@.take(end as int) =~= chars@);
    while end >= 2 && chars[end - 2] == '[' && chars[end - 1] == ']'
        invariant
            end <= chars.len(),
            depth + end <= chars.len(),
            element_name(kind@) == element_name(chars@.take(end as int)),
            array_depth(kind@) == depth + array_depth(chars@.take(end as int)),
        decreases end,
    {
        proof {
            let rest = chars@.take(end as int);
            assert(ends_with_brackets(rest));
            assert(rest.take(end - 2) =~= chars@.take(end - 2));
            assert(element_name(rest) == element_name(rest.take(end - 2)));
            assert(array_depth(rest) == 1 + array_depth(rest.take(end - 2)));
        }
        end -= 2;
        depth += 1;
    }
    proof {
        let rest = chars@.take(end as int);
        assert(!ends_with_brackets(rest));
        assert(element_name(rest) == rest);
        assert(array_depth(rest) == 0);
    }
    match base_kind_at(&chars, end) {
        Some(b) => Some((b, depth)),
        None => None,
    }
}

/// The type of a name that stands for no tuple.
pub open spec fn leaf_type(b: BaseKind) -> TypeModel {
    match b {
        BaseKind::Address => TypeModel::Address,
        BaseKind::Bool => TypeModel::Bool,
        BaseKind::Text => TypeModel::Text,
        BaseKind::Bytes => TypeModel::Bytes,
        BaseKind::FixedBytes(n) => TypeModel::FixedBytes(n as nat),
        BaseKind::Int(n) => TypeModel::Int(n as nat),
        BaseKind::Uint(n) => TypeModel::Uint(n as nat),
        BaseKind::Tuple => TypeModel::Tuple(Seq::empty()),
    }
}

/// A type inside `depth` levels of arrays.
pub open spec fn nested(t: TypeModel, depth: nat) -> TypeModel
    decreases depth,
{
    if depth == 0 {
        t
    } else {
        TypeModel::Array(Box::new(nested(t, (depth - 1) as nat)))
    }
}

/// The type that a type name stands for, given the components that come
/// with it. A name that ends in `[]` is an array of what the rest stands
/// for; `tuple` stands for the product of the components and for nothing
/// without at least one of them; a name that is none of the known ones
/// stands for nothing.
pub open spec fn resolve(kind: Seq<char>, components: Option<Seq<ParamModel>>) -> Result<
    TypeModel,
    FatalKind,
> {
    match base_kind(element_name(kind)) {
        None => Err(FatalKind::UnrecognizedType),
        Some(BaseKind::Tuple) => match components {
            Some(parts) if parts.len() > 0 => Ok(
                nested(TypeModel::Tuple(parts), array_depth(kind)),
            ),
            _ => Err(FatalKind::MissingComponents),
        },
        Some(b) => Ok(nested(leaf_type(b), array_depth(kind))),
    }
}

/// Puts a type inside `depth` levels of arrays.
fn nest(t: SolidityType, depth: usize) -> (r: SolidityType)
    ensures
        r@ == nested(t@, depth as nat),
{
    let mut out = t;
    let mut i: usize = 0;
    while i < depth
        invariant
            i <= depth,
            out@ == nested(t@, i as nat),
        decreases depth - i,
    {
        out = SolidityType::Array(Box::new(out));
        i += 1;
    }
    out
}

/// The type that a type name stands for, given the components that come
/// with it.
pub fn resolve_type(kind: &str, components: Option<Vec<Param>>) -> (r: Result<
    SolidityType,
    FatalKind,
>)
    ensures
        match resolve(
            kind@,
            match components {
                Some(parts) => Some(param_models(parts@)),
                None => None,
            },
        ) {
            Ok(t) => r matches Ok(v) && v@ == t,
            Err(e) => r == Err::<SolidityType, FatalKind>(e),
        },
{
    match parse_shape(kind) {
        None => Err(FatalKind::UnrecognizedType),
        Some((base, depth)) => {
            let leaf = match base {
                BaseKind::Address => SolidityType::Address,
                BaseKind::Bool => SolidityType::Bool,
                BaseKind::Text => SolidityType::Text,
                BaseKind::Bytes => SolidityType::Bytes,
                BaseKind::FixedBytes(n) => SolidityType::FixedBytes(n),
                BaseKind::Int(n) => SolidityType::Int(n),
                BaseKind::Uint(n) => SolidityType::Uint(n),
                BaseKind::Tuple => match components {
                    None => {
                        return Err(FatalKind::MissingComponents);
                    },
                    Some(parts) => {
                        if parts.len() == 0 {
                            return Err(FatalKind::MissingComponents);
                        }
                        proof {
                            lemma_tuple_view(parts);
                        }
                        SolidityType::Tuple(parts)
                    },
                },
            };
            Ok(nest(leaf, depth))
        },
    }
}

/// How the host represents values of a contract type.
#[derive(Debug, PartialEq, Eq)]
pub enum HostType {
    /// A byte array; `address` says whether it came from an address type.
    ByteArray { address: bool },
    /// A text.
    Text,
    /// A boolean.
    Boolean,
    /// An arbitrary-precision integer, whatever the declared width.
    BigInt,
    /// A sequence of values of one type.
    Sequence(Box<HostType>),
    /// An ordered product of values.
    Tuple(Vec<HostType>),
}

/// The mathematical model of a [`HostType`].
pub enum HostModel {
    ByteArray { address: bool },
    Text,
    Boolean,
    BigInt,
    Sequence(Box<HostModel>),
    Tuple(Seq<HostModel>),
}

impl HostType {
    /// The model of a host type.
    pub open spec fn model(self) -> HostModel
        decreases self,
    {
        match self {
            HostType::ByteArray { address } => HostModel::ByteArray { address },
            HostType::Text => HostModel::Text,
            HostType::Boolean => HostModel::Boolean,
            HostType::BigInt => HostModel::BigInt,
            HostType::Sequence(inner) => HostModel::Sequence(Box::new((*inner).model())),
            HostType::Tuple(parts) => HostModel::Tuple(
                Seq::new(
                    parts@.len(),
                    |i: int|
                        if 0 <= i < parts@.len() {
                            parts@[i].model()
                        } else {
                            HostModel::Boolean
                        },
                ),
            ),
        }
    }
}

impl View for HostType {
    type V = HostModel;

    open spec fn view(&self) -> HostModel {
        self.model()
    }
}

/// The models of a sequence of host types, one by one.
pub open spec fn host_models(parts: Seq<HostType>) -> Seq<HostModel> {
    Seq::new(parts.len(), |i: int| parts[i]@)
}

/// A product shows the models of its parts.
pub proof fn lemma_host_tuple_view(parts: Vec<HostType>)
    ensures
        HostType::Tuple(parts)@ == HostModel::Tuple(host_models(parts@)),
{
    assert(HostType::Tuple(parts)@->Tuple_0 =~= host_models(parts@));
}

/// The host type of a contract type: addresses and byte strings of any
/// width are byte arrays, integers of any width and sign are big integers,
/// arrays are sequences and tuples are products, component by component.
pub open spec fn host_of(t: TypeModel) -> HostModel
    decreases t,
{
    match t {
        TypeModel::Address => HostModel::ByteArray { address: true },
        TypeModel::Bool => HostModel::Boolean,
        TypeModel::Text => HostModel::Text,
        TypeModel::Bytes => HostModel::ByteArray { address: false },
        TypeModel::FixedBytes(_) => HostModel::ByteArray { address: false },
        TypeModel::Int(_) => HostModel::BigInt,
        TypeModel::Uint(_) => HostModel::BigInt,
        TypeModel::Array(inner) => HostModel::Sequence(Box::new(host_of(*inner))),
        TypeModel::Tuple(parts) => HostModel::Tuple(
            Seq::new(
                parts.len(),
                |i: int|
                    if 0 <= i < parts.len() {
                        host_of(parts[i].kind)
                    } else {
                        HostModel::Boolean
                    },
            ),
        ),
    }
}

/// The host type that a type name is projected to, given the components
/// that come with it.
pub open spec fn projected(kind: Seq<char>, components: Option<Seq<ParamModel>>) -> Result<
    HostModel,
    FatalKind,
> {
    match resolve(kind, components) {
        Ok(t) => Ok(host_of(t)),
        Err(e) => Err(e),
    }
}

impl SolidityType {
    /// The host type of the type.
    #[verifier::loop_isolation(false)]
    pub fn host_type(&self) -> (r: HostType)
        ensures
            r@ == host_of(self@),
        decreases self,
    {
        match self {
            SolidityType::Address => HostType::ByteArray { address: true },
            SolidityType::Bool => HostType::Boolean,
            SolidityType::Text => HostType::Text,
            SolidityType::Bytes => HostType::ByteArray { address: false },
            SolidityType::FixedBytes(_) => HostType::ByteArray { address: false },
            SolidityType::Int(_) => HostType::BigInt,
            SolidityType::Uint(_) => HostType::BigInt,
            SolidityType::Array(inner) => HostType::Sequence(Box::new(inner.host_type())),
            SolidityType::Tuple(parts) => {
                proof {
                    lemma_tuple_view(*parts);
                }
                let mut out: Vec<HostType> = Vec::new();
                let mut i: usize = 0;
                while i < parts.len()
                    invariant
                        i <= parts.len(),
                        out.len() == i,
                        forall|j: int| 0 <= j < i ==> out@[j]@ == host_of(parts@[j].kind@),
                    decreases parts.len() - i,
                {
                    proof {
                        vstd::std_specs::vec::axiom_vec_index_decreases(*parts, i as int);
                    }
                    let h = parts[i].kind.host_type();
                    out.push(h);
                    i += 1;
                }
                let r = HostType::Tuple(out);
                assert(r@->Tuple_0 =~= host_of(self@)->Tuple_0);
                r
            },
        }
    }
}

/// Projects a type name, with the components that come with it, to the host
/// type of its values.
pub fn project(kind: &str, components: Option<Vec<Param>>) -> (r: Result<HostType, FatalKind>)
    ensures
        match projected(
            kind@,
            match components {
                Some(parts) => Some(param_models(parts@)),
                None => None,
            },
        ) {
            Ok(h) => r matches Ok(v) && v@ == h,
            Err(e) => r == Err::<HostType, FatalKind>(e),
        },
{
    match resolve_type(kind, components) {
        Ok(t) => Ok(t.host_type()),
        Err(e) => Err(e),
    }
}

} // verus!

use streamline::descriptor::{read_param, ContractInterface, FunctionDescriptor, Mutability};
use streamline::dynamic::DynamicValue;
use streamline::error::{FatalKind, GenerationFatal};
use streamline::generator::{assemble, generate, AccessorKind, AccessorSpec};
use streamline::json::{load_text, load_value};
use streamline::types::{parse_shape, project, resolve_type, BaseKind, HostType, Param, SolidityType};

const TOKEN: &str = r#"[
  {"type": "constructor", "inputs": [{"name": "supply", "type": "uint256"}]},
  {"type": "event", "name": "Transfer", "anonymous": false, "inputs": [
    {"name": "from", "type": "address", "indexed": true},
    {"name": "to", "type": "address", "indexed": true},
    {"name": "value", "type": "uint256", "indexed": false}]},
  {"type": "function", "name": "totalSupply", "stateMutability": "view", "inputs": [],
   "outputs": [{"name": "", "type": "uint256"}]},
  {"type": "function", "name": "balanceOf", "stateMutability": "view",
   "inputs": [{"name": "owner", "type": "address"}],
   "outputs": [{"name": "", "type": "uint256"}]},
  {"type": "function", "name": "transfer", "stateMutability": "nonpayable",
   "inputs": [{"name": "to", "type": "address"}, {"name": "value", "type": "uint256"}],
   "outputs": [{"name": "", "type": "bool"}]},
  {"type": "function", "name": "mint", "stateMutability": "nonpayable", "inputs": [], "outputs": []},
  {"type": "function", "name": "deposit", "stateMutability": "payable", "inputs": [], "outputs": []},
  {"type": "function", "name": "version", "stateMutability": "pure", "inputs": [],
   "outputs": [{"name": "", "type": "string"}]},
  {"type": "function", "name": "legacy", "constant": true, "inputs": [], "outputs": []},
  {"type": "event", "name": "approval_for_all", "inputs": []},
  {"type": "fallback"}
]"#;

fn text(s: &str) -> DynamicValue {
    DynamicValue::Text(s.to_string())
}

fn record(entries: Vec<(&str, DynamicValue)>) -> DynamicValue {
    DynamicValue::Record(entries.into_iter().map(|(k, v)| (k.to_string(), v)).collect())
}

fn param(name: &str, kind: SolidityType) -> Param {
    Param { name: name.to_string(), kind, indexed: false }
}

fn fatal(kind: FatalKind, descriptor: usize) -> GenerationFatal {
    GenerationFatal { kind, descriptor }
}

fn accessor(name: &str, kind: AccessorKind, descriptor: usize) -> AccessorSpec {
    AccessorSpec { contract: "token".to_string(), name: name.to_string(), kind, descriptor }
}

#[test]
fn type_names_are_read() {
    assert_eq!(parse_shape("address"), Some((BaseKind::Address, 0)));
    assert_eq!(parse_shape("bool"), Some((BaseKind::Bool, 0)));
    assert_eq!(parse_shape("string"), Some((BaseKind::Text, 0)));
    assert_eq!(parse_shape("bytes"), Some((BaseKind::Bytes, 0)));
    assert_eq!(parse_shape("bytes32"), Some((BaseKind::FixedBytes(32), 0)));
    assert_eq!(parse_shape("uint256"), Some((BaseKind::Uint(256), 0)));
    assert_eq!(parse_shape("uint"), Some((BaseKind::Uint(256), 0)));
    assert_eq!(parse_shape("int"), Some((BaseKind::Int(256), 0)));
    assert_eq!(parse_shape("int8"), Some((BaseKind::Int(8), 0)));
    assert_eq!(parse_shape("uint8[][]"), Some((BaseKind::Uint(8), 2)));
    assert_eq!(parse_shape("tuple[]"), Some((BaseKind::Tuple, 1)));
    assert_eq!(parse_shape("uint4294967295"), Some((BaseKind::Uint(4294967295), 0)));
}

#[test]
fn unknown_type_names_are_refused() {
    for bad in [
        "", "[]", "foo", "Address", "address ", "uint256[3]", "uint256[", "uint-8", "uintx",
        "bytes_1", "int8x", "uint4294967296", "uint99999999999999999999999", "fixed128x18",
        "function", "tuple2", "\u{663}",
    ] {
        assert_eq!(parse_shape(bad), None, "{bad:?} was read");
    }
}

#[test]
fn types_are_projected_by_rule() {
    assert_eq!(project("address", None), Ok(HostType::ByteArray { address: true }));
    assert_eq!(project("string", None), Ok(HostType::Text));
    assert_eq!(project("bool", None), Ok(HostType::Boolean));
    assert_eq!(project("bytes", None), Ok(HostType::ByteArray { address: false }));
    assert_eq!(project("bytes32", None), Ok(HostType::ByteArray { address: false }));
    for integer in ["uint256", "uint8", "int256", "int24", "uint", "int", "uint7"] {
        assert_eq!(project(integer, None), Ok(HostType::BigInt), "{integer}");
    }
    assert_eq!(project("uint256[]", None), Ok(HostType::Sequence(Box::new(HostType::BigInt))));
    assert_eq!(
        project("address[][]", None),
        Ok(HostType::Sequence(Box::new(HostType::Sequence(Box::new(HostType::ByteArray {
            address: true
        })))))
    );
}

#[test]
fn tuples_are_projected_component_by_component() {
    let components = || {
        vec![
            param("owner", SolidityType::Address),
            param("amounts", SolidityType::Array(Box::new(SolidityType::Uint(256)))),
            param("inner", SolidityType::Tuple(vec![param("flag", SolidityType::Bool)])),
        ]
    };
    let product = HostType::Tuple(vec![
        HostType::ByteArray { address: true },
        HostType::Sequence(Box::new(HostType::BigInt)),
        HostType::Tuple(vec![HostType::Boolean]),
    ]);
    assert_eq!(project("tuple", Some(components())), Ok(product));
}

#[test]
fn projection_fails_on_what_is_not_a_type() {
    assert_eq!(project("foo", None), Err(FatalKind::UnrecognizedType));
    assert_eq!(project("uint256[3]", None), Err(FatalKind::UnrecognizedType));
    assert_eq!(project("tuple", None), Err(FatalKind::MissingComponents));
    assert_eq!(project("tuple[]", None), Err(FatalKind::MissingComponents));
    assert_eq!(project("tuple", Some(vec![])), Err(FatalKind::MissingComponents));
    assert_eq!(project("foo", Some(vec![param("a", SolidityType::Bool)])), Err(FatalKind::UnrecognizedType));
}

#[test]
fn arrays_of_tuples_keep_their_components() {
    let resolved = resolve_type("tuple[]", Some(vec![param("flag", SolidityType::Bool)]));
    assert_eq!(
        resolved,
        Ok(SolidityType::Array(Box::new(SolidityType::Tuple(vec![param(
            "flag",
            SolidityType::Bool
        )]))))
    );
    assert_eq!(
        project("tuple[]", Some(vec![param("flag", SolidityType::Bool)])),
        Ok(HostType::Sequence(Box::new(HostType::Tuple(vec![HostType::Boolean]))))
    );
    assert_eq!(resolve_type("uint16", None), Ok(SolidityType::Uint(16)));
    assert_eq!(resolve_type("bytes4", Some(vec![])), Ok(SolidityType::FixedBytes(4)));
}

#[test]
fn parameters_are_loaded_from_objects() {
    let item = record(vec![
        ("name", text("amount")),
        ("type", text("uint128")),
        ("indexed", DynamicValue::Bool(true)),
    ]);
    assert_eq!(
        read_param(&item),
        Ok(Param { name: "amount".to_string(), kind: SolidityType::Uint(128), indexed: true })
    );
    let nested = record(vec![
        ("name", text("order")),
        ("type", text("tuple[]")),
        (
            "components",
            DynamicValue::Sequence(vec![
                record(vec![("name", text("maker")), ("type", text("address"))]),
                record(vec![
                    ("name", text("legs")),
                    ("type", text("tuple")),
                    (
                        "components",
                        DynamicValue::Sequence(vec![record(vec![
                            ("name", text("size")),
                            ("type", text("int64")),
                        ])]),
                    ),
                ]),
            ]),
        ),
    ]);
    assert_eq!(
        read_param(&nested),
        Ok(param(
            "order",
            SolidityType::Array(Box::new(SolidityType::Tuple(vec![
                param("maker", SolidityType::Address),
                param("legs", SolidityType::Tuple(vec![param("size", SolidityType::Int(64))])),
            ])))
        ))
    );
}

#[test]
fn malformed_parameters_are_fatal() {
    let no_name = record(vec![("type", text("uint8"))]);
    assert_eq!(read_param(&no_name), Err(FatalKind::MissingName));
    let name_is_no_text = record(vec![("name", DynamicValue::Bool(true)), ("type", text("uint8"))]);
    assert_eq!(read_param(&name_is_no_text), Err(FatalKind::MissingName));
    let no_type = record(vec![("name", text("a"))]);
    assert_eq!(read_param(&no_type), Err(FatalKind::MissingType));
    let unknown = record(vec![("name", text("a")), ("type", text("uint256[2]"))]);
    assert_eq!(read_param(&unknown), Err(FatalKind::UnrecognizedType));
    let bare_tuple = record(vec![("name", text("a")), ("type", text("tuple"))]);
    assert_eq!(read_param(&bare_tuple), Err(FatalKind::MissingComponents));
    let empty_tuple = record(vec![
        ("name", text("a")),
        ("type", text("tuple")),
        ("components", DynamicValue::Sequence(vec![])),
    ]);
    assert_eq!(read_param(&empty_tuple), Err(FatalKind::MissingComponents));
    let components_are_no_list = record(vec![
        ("name", text("a")),
        ("type", text("tuple")),
        ("components", text("uint8")),
    ]);
    assert_eq!(read_param(&components_are_no_list), Err(FatalKind::MissingComponents));
    let bad_component = record(vec![
        ("name", text("a")),
        ("type", text("tuple")),
        ("components", DynamicValue::Sequence(vec![record(vec![("name", text("b"))])])),
    ]);
    assert_eq!(read_param(&bad_component), Err(FatalKind::MissingType));
    assert_eq!(read_param(&DynamicValue::Unit), Err(FatalKind::MissingName));
    let unused_components = record(vec![
        ("name", text("a")),
        ("type", text("bool")),
        ("components", text("ignored")),
    ]);
    assert_eq!(read_param(&unused_components), Ok(param("a", SolidityType::Bool)));
}

#[test]
fn interface_is_loaded_in_order() {
    let interface = load_text("token", TOKEN).unwrap();
    assert_eq!(interface.name, "token");
    let events: Vec<&str> = interface.events.iter().map(|e| e.name.as_str()).collect();
    assert_eq!(events, vec!["Transfer", "approval_for_all"]);
    let functions: Vec<&str> = interface.functions.iter().map(|f| f.name.as_str()).collect();
    assert_eq!(
        functions,
        vec!["totalSupply", "balanceOf", "transfer", "mint", "deposit", "version", "legacy"]
    );
    let transfer = &interface.events[0];
    assert!(!transfer.anonymous);
    assert_eq!(
        transfer.inputs,
        vec![
            Param { name: "from".to_string(), kind: SolidityType::Address, indexed: true },
            Param { name: "to".to_string(), kind: SolidityType::Address, indexed: true },
            Param { name: "value".to_string(), kind: SolidityType::Uint(256), indexed: false },
        ]
    );
    let mutabilities: Vec<Mutability> = interface.functions.iter().map(|f| f.mutability).collect();
    assert_eq!(
        mutabilities,
        vec![
            Mutability::View,
            Mutability::View,
            Mutability::NonPayable,
            Mutability::NonPayable,
            Mutability::Payable,
            Mutability::Pure,
            Mutability::Unspecified,
        ]
    );
    assert_eq!(interface.functions[1].inputs, vec![param("owner", SolidityType::Address)]);
    assert_eq!(interface.functions[1].outputs, vec![param("", SolidityType::Uint(256))]);
}

#[test]
fn malformed_interface_is_fatal() {
    assert_eq!(load_text("c", "not json"), Err(fatal(FatalKind::MalformedInterface, 0)));
    assert_eq!(load_text("c", r#"{"type": "event"}"#), Err(fatal(FatalKind::MalformedInterface, 0)));
    assert_eq!(load_value("c", None), Err(fatal(FatalKind::MalformedInterface, 0)));
    assert_eq!(load_value("c", Some(&text("x"))), Err(fatal(FatalKind::MalformedInterface, 0)));
    let empty = load_text("c", "[]").unwrap();
    assert!(empty.events.is_empty() && empty.functions.is_empty());
}

#[test]
fn malformed_descriptor_is_fatal_with_its_position() {
    let cases = [
        (r#"[{"type": "fallback"}, {"name": "x"}]"#, fatal(FatalKind::MissingType, 1)),
        (r#"[{"type": 5, "name": "x"}]"#, fatal(FatalKind::MissingType, 0)),
        (r#"[7]"#, fatal(FatalKind::MissingType, 0)),
        (r#"[{"type": "event", "inputs": []}]"#, fatal(FatalKind::MissingName, 0)),
        (r#"[{"type": "event", "name": ["x"], "inputs": []}]"#, fatal(FatalKind::MissingName, 0)),
        (r#"[{"type": "event", "name": "E"}]"#, fatal(FatalKind::MalformedInputs, 0)),
        (r#"[{"type": "event", "name": "E", "inputs": {}}]"#, fatal(FatalKind::MalformedInputs, 0)),
        (
            r#"[{"type": "event", "name": "E", "inputs": []},
                {"type": "function", "name": "f", "outputs": []}]"#,
            fatal(FatalKind::MalformedInputs, 1),
        ),
        (
            r#"[{"type": "function", "name": "f", "inputs": []}]"#,
            fatal(FatalKind::MalformedOutputs, 0),
        ),
        (
            r#"[{"type": "function", "name": "f", "inputs": [], "outputs": "none"}]"#,
            fatal(FatalKind::MalformedOutputs, 0),
        ),
        (
            r#"[{"type": "function", "name": "f", "inputs": [{"type": "bool"}], "outputs": []}]"#,
            fatal(FatalKind::MissingName, 0),
        ),
        (
            r#"[{"type": "function", "name": "f", "inputs": [], "outputs": [{"name": "a"}]}]"#,
            fatal(FatalKind::MissingType, 0),
        ),
        (
            r#"[{"type": "error", "name": "ignored"},
                {"type": "event", "name": "E", "inputs": [{"name": "a", "type": "tuple"}]}]"#,
            fatal(FatalKind::MissingComponents, 1),
        ),
        (
            r#"[{"type": "event", "name": "E", "inputs": [{"name": "a", "type": "uint256[2]"}]}]"#,
            fatal(FatalKind::UnrecognizedType, 0),
        ),
        (
            r#"[{"type": "function", "name": "f", "stateMutability": "nonpayable",
                 "inputs": [{"name": "a", "type": "decimal"}], "outputs": []}]"#,
            fatal(FatalKind::UnrecognizedType, 0),
        ),
    ];
    for (text, expected) in cases {
        assert_eq!(load_text("c", text), Err(expected), "{text}");
    }
}

#[test]
fn the_first_malformed_descriptor_decides() {
    let text = r#"[{"type": "event", "name": "E"}, {"name": "no type"}]"#;
    assert_eq!(load_text("c", text), Err(fatal(FatalKind::MalformedInputs, 0)));
    let text = r#"[{"name": "no type"}, {"type": "event", "name": "E"}]"#;
    assert_eq!(load_text("c", text), Err(fatal(FatalKind::MissingType, 0)));
}

#[test]
fn interface_is_loaded_from_objects() {
    let descriptors = vec![
        record(vec![("type", text("receive"))]),
        record(vec![
            ("type", text("event")),
            ("name", text("Ping")),
            ("inputs", DynamicValue::Sequence(vec![])),
            ("anonymous", DynamicValue::Bool(true)),
        ]),
    ];
    let interface = ContractInterface::load("pinger", &descriptors).unwrap();
    assert_eq!(interface.events.len(), 1);
    assert!(interface.events[0].anonymous);
    assert!(interface.functions.is_empty());
    let broken = vec![record(vec![("type", text("event"))])];
    assert_eq!(ContractInterface::load("c", &broken), Err(fatal(FatalKind::MissingName, 0)));
}

#[test]
fn accessors_are_generated_for_events_and_readers() {
    let interface = load_text("token", TOKEN).unwrap();
    let table = generate(&interface).unwrap();
    assert_eq!(
        table,
        vec![
            accessor("Transfer", AccessorKind::Event, 0),
            accessor("ApprovalForAll", AccessorKind::Event, 1),
            accessor("totalSupply", AccessorKind::Call, 0),
            accessor("version", AccessorKind::Call, 5),
        ]
    );
}

#[test]
fn generation_is_repeatable() {
    let first = generate(&load_text("token", TOKEN).unwrap());
    let second = generate(&load_text("token", TOKEN).unwrap());
    assert_eq!(first, second);
}

#[test]
fn event_names_are_folded_to_upper_camel_case() {
    let text = r#"[
        {"type": "event", "name": "transfer", "inputs": []},
        {"type": "event", "name": "ownership_transferred", "inputs": []},
        {"type": "event", "name": "approvalForAll", "inputs": []},
        {"type": "event", "name": "Swap", "inputs": []}
    ]"#;
    let table = generate(&load_text("token", text).unwrap()).unwrap();
    let names: Vec<&str> = table.iter().map(|a| a.name.as_str()).collect();
    assert_eq!(names, vec!["Transfer", "OwnershipTransferred", "ApprovalForAll", "Swap"]);
}

#[test]
fn functions_that_write_or_take_inputs_get_no_accessor() {
    let function = |name: &str, mutability: Mutability, inputs: Vec<Param>| FunctionDescriptor {
        name: name.to_string(),
        inputs,
        outputs: vec![],
        mutability,
    };
    let functions = vec![
        function("a", Mutability::NonPayable, vec![]),
        function("b", Mutability::View, vec![param("x", SolidityType::Bool)]),
        function("c", Mutability::Pure, vec![param("x", SolidityType::Bool), param("y", SolidityType::Bool)]),
        function("d", Mutability::Payable, vec![]),
        function("e", Mutability::Unspecified, vec![]),
        function("f", Mutability::View, vec![]),
        function("g", Mutability::NonPayable, vec![param("x", SolidityType::Bool)]),
        function("h", Mutability::Pure, vec![]),
    ];
    let table = assemble("token", &vec![], &functions).unwrap();
    assert_eq!(
        table,
        vec![accessor("f", AccessorKind::Call, 5), accessor("h", AccessorKind::Call, 7)]
    );
}

#[test]
fn colliding_names_are_fatal() {
    let names = vec!["Transfer".to_string(), "Approval".to_string(), "Transfer".to_string()];
    assert_eq!(assemble("token", &names, &vec![]), Err(fatal(FatalKind::NameCollision, 2)));
    let reader = FunctionDescriptor {
        name: "Approval".to_string(),
        inputs: vec![],
        outputs: vec![],
        mutability: Mutability::View,
    };
    let names = vec!["Transfer".to_string(), "Approval".to_string()];
    assert_eq!(assemble("token", &names, &vec![reader]), Err(fatal(FatalKind::NameCollision, 2)));
    let text = r#"[
        {"type": "event", "name": "transfer", "inputs": []},
        {"type": "event", "name": "Approval", "inputs": []},
        {"type": "event", "name": "Transfer", "inputs": []},
        {"type": "event", "name": "approval", "inputs": []}
    ]"#;
    assert_eq!(
        generate(&load_text("token", text).unwrap()),
        Err(fatal(FatalKind::NameCollision, 2))
    );
}

#[test]
fn assembling_keeps_the_names_it_is_given() {
    let names = vec!["One".to_string(), "two".to_string()];
    let table = assemble("token", &names, &vec![]).unwrap();
    assert_eq!(
        table,
        vec![accessor("One", AccessorKind::Event, 0), accessor("two", AccessorKind::Event, 1)]
    );
    assert_eq!(assemble("token", &vec![], &vec![]), Ok(vec![]));
}

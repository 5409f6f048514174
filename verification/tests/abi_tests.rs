use fevm_tests::abi::{
    abi_decode, abi_encode, abi_load_contract, abi_load_function, abi_tokenize_function_inputs,
    abi_tokenize_function_outputs, signature, AbiError, AbiFunction,
};
use fevm_tests::abi_token::{same_token, same_tokens, AbiToken};
use fevm_tests::param_kind::{kind_name, ParamKind};

const IO_ABI: &str = r#"[
  {"type":"function","name":"uints1in1out","inputs":[{"name":"a","type":"uint32"}],"outputs":[{"name":"","type":"uint32"}],"stateMutability":"pure"},
  {"type":"function","name":"foo","inputs":[{"name":"a","type":"uint256"}],"outputs":[],"stateMutability":"nonpayable"},
  {"type":"function","name":"foo","inputs":[{"name":"a","type":"string"}],"outputs":[],"stateMutability":"nonpayable"},
  {"type":"function","name":"strings0in1out","inputs":[],"outputs":[{"name":"","type":"string"}],"stateMutability":"pure"},
  {"type":"function","name":"uints2in2out","inputs":[{"name":"a","type":"uint32"},{"name":"b","type":"uint32"}],"outputs":[{"name":"","type":"uint32"},{"name":"","type":"uint32"}],"stateMutability":"pure"}
]"#;

fn uint(n: u8) -> AbiToken {
    AbiToken::Uint([n as u64, 0, 0, 0])
}

/// The type that `name` stands for, for the few names these tests use.
fn kind(name: &str) -> ParamKind {
    match name {
        "address" => ParamKind::Address,
        "bool" => ParamKind::Bool,
        "string" => ParamKind::Str,
        "bytes32" => ParamKind::FixedBytes(32),
        "uint8" => ParamKind::Uint(8),
        "uint32" => ParamKind::Uint(32),
        "uint256" => ParamKind::Uint(256),
        "int256" => ParamKind::Int(256),
        "uint8[]" => ParamKind::Array(Box::new(ParamKind::Uint(8))),
        "string[]" => ParamKind::Array(Box::new(ParamKind::Str)),
        "(uint8,bool)[]" => ParamKind::Array(Box::new(ParamKind::Tuple(vec![ParamKind::Uint(8), ParamKind::Bool]))),
        other => panic!("no kind for {}", other),
    }
}

fn function(name: &str, inputs: &[&str], outputs: &[&str]) -> AbiFunction {
    AbiFunction {
        name: name.to_string(),
        inputs: inputs.iter().map(|s| kind(s)).collect(),
        outputs: outputs.iter().map(|s| kind(s)).collect(),
    }
}

fn kind_names(ks: &[ParamKind]) -> Vec<String> {
    ks.iter().map(kind_name).collect()
}

#[test]
fn loads_functions_grouped_by_name() {
    let c = abi_load_contract(IO_ABI.as_bytes()).unwrap();
    let names: Vec<&str> = c.functions.iter().map(|f| f.name.as_str()).collect();
    assert_eq!(names, vec!["foo", "foo", "strings0in1out", "uints1in1out", "uints2in2out"]);
    assert_eq!(kind_names(&c.functions[0].inputs), vec!["uint256".to_string()]);
    assert_eq!(kind_names(&c.functions[1].inputs), vec!["string".to_string()]);
    assert_eq!(kind_names(&c.functions[4].outputs), vec!["uint32".to_string(), "uint32".to_string()]);
}

#[test]
fn refuses_text_that_is_no_abi() {
    assert!(matches!(abi_load_contract(b"not json"), Err(AbiError::LoadContract)));
    assert!(matches!(abi_load_contract(b"{\"a\": 1}"), Err(AbiError::LoadContract)));
    assert_eq!(abi_load_contract(b"[]").unwrap().functions.len(), 0);
}

#[test]
fn signatures_as_ethabi_writes_them() {
    assert_eq!(signature(&function("baz", &["uint32", "bool"], &[])), "baz(uint32,bool)");
    assert_eq!(signature(&function("f", &[], &["uint256", "string"])), "f():(uint256,string)");
    assert_eq!(signature(&function("g", &["(uint8,bool)[]"], &["bytes32"])), "g((uint8,bool)[]):(bytes32)");
}

#[test]
fn finds_a_function_by_its_only_name() {
    let c = abi_load_contract(IO_ABI.as_bytes()).unwrap();
    let f = abi_load_function(&c, "uints1in1out").unwrap();
    assert_eq!(f.name, "uints1in1out");
    assert_eq!(kind_names(&f.inputs), vec!["uint32".to_string()]);
}

#[test]
fn unknown_and_overloaded_names_are_refused() {
    let c = abi_load_contract(IO_ABI.as_bytes()).unwrap();
    match abi_load_function(&c, "bar") {
        Err(AbiError::InvalidFunctionName(n)) => assert_eq!(n, "bar"),
        other => panic!("unexpected: {:?}", other),
    }
    match abi_load_function(&c, "foo") {
        Err(AbiError::AmbiguousFunctionName(n)) => assert_eq!(n, "foo"),
        other => panic!("unexpected: {:?}", other),
    }
}

#[test]
fn finds_an_overload_by_its_signature() {
    let c = abi_load_contract(IO_ABI.as_bytes()).unwrap();
    let f = abi_load_function(&c, "foo(string)").unwrap();
    assert_eq!(kind_names(&f.inputs), vec!["string".to_string()]);
    let g = abi_load_function(&c, "foo(uint256)").unwrap();
    assert_eq!(kind_names(&g.inputs), vec!["uint256".to_string()]);
    match abi_load_function(&c, "foo(bytes)") {
        Err(AbiError::InvalidFunctionSignature(s)) => assert_eq!(s, "foo(bytes)"),
        other => panic!("unexpected: {:?}", other),
    }
    match abi_load_function(&c, "nope(uint8)") {
        Err(AbiError::InvalidFunctionSignature(s)) => assert_eq!(s, "nope(uint8)"),
        other => panic!("unexpected: {:?}", other),
    }
}

#[test]
fn a_signature_names_the_results_too() {
    let c = abi_load_contract(IO_ABI.as_bytes()).unwrap();
    assert!(matches!(abi_load_function(&c, "uints1in1out(uint32)"), Err(AbiError::InvalidFunctionSignature(_))));
    let f = abi_load_function(&c, "uints1in1out(uint32):(uint32)").unwrap();
    assert_eq!(f.name, "uints1in1out");
}

#[test]
fn tokenizes_paired_by_position() {
    let f = function("uints2in2out", &["uint32", "uint32"], &["uint32", "uint32"]);
    let ts = abi_tokenize_function_inputs(&f, &vec!["5", "10"]).unwrap();
    assert!(same_tokens(&ts, &vec![uint(5), uint(10)]));
    // extra texts are ignored, missing ones leave parameters without a value
    assert_eq!(abi_tokenize_function_inputs(&f, &vec!["5", "10", "15"]).unwrap().len(), 2);
    assert_eq!(abi_tokenize_function_inputs(&f, &vec!["5"]).unwrap().len(), 1);
    assert_eq!(abi_tokenize_function_inputs(&f, &vec![]).unwrap().len(), 0);
}

#[test]
fn tokenize_refusals() {
    let f = function("uints1in1out", &["uint32"], &["string"]);
    assert!(matches!(abi_tokenize_function_inputs(&f, &vec!["five"]), Err(AbiError::TokenizeInputs)));
    let s = abi_tokenize_function_outputs(&f, &vec!["five"]).unwrap();
    assert!(same_tokens(&s, &vec![AbiToken::Str("five".to_string())]));
    let g = function("h", &[], &["bool"]);
    assert!(matches!(abi_tokenize_function_outputs(&g, &vec!["maybe"]), Err(AbiError::TokenizeOutputs)));
    let b = abi_tokenize_function_outputs(&g, &vec!["true"]).unwrap();
    assert!(same_tokens(&b, &vec![AbiToken::Bool(true)]));
}

#[test]
fn encodes_a_call_with_its_selector() {
    let f = function("baz", &["uint32", "bool"], &[]);
    let data = abi_encode(&f, &vec!["69", "true"]).unwrap();
    let mut expected = vec![0xcd, 0xcd, 0x77, 0xc0];
    let mut a = [0u8; 32];
    a[31] = 69;
    let mut b = [0u8; 32];
    b[31] = 1;
    expected.extend_from_slice(&a);
    expected.extend_from_slice(&b);
    assert_eq!(data, expected);
}

#[test]
fn selector_of_the_io_contract_function() {
    let c = abi_load_contract(IO_ABI.as_bytes()).unwrap();
    let f = abi_load_function(&c, "uints1in1out").unwrap();
    let data = abi_encode(&f, &vec!["5"]).unwrap();
    assert_eq!(&data[..4], &[0x96, 0x97, 0x6d, 0x81]);
    assert_eq!(data.len(), 36);
    assert_eq!(data[35], 5);
}

#[test]
fn encoding_needs_a_value_per_parameter() {
    let f = function("baz", &["uint32", "bool"], &[]);
    assert!(matches!(abi_encode(&f, &vec!["69"]), Err(AbiError::Encode)));
    assert!(matches!(abi_encode(&f, &vec!["x", "true"]), Err(AbiError::TokenizeInputs)));
    // extra texts are ignored
    assert_eq!(abi_encode(&f, &vec!["69", "true", "junk"]).unwrap().len(), 68);
}

#[test]
fn decodes_results() {
    let f = function("uints1in1out", &["uint32"], &["uint32"]);
    let mut data = vec![0u8; 32];
    data[31] = 15;
    let ts = abi_decode(&f, &data).unwrap();
    assert!(same_tokens(&ts, &vec![uint(15)]));
    assert!(matches!(abi_decode(&f, &vec![]), Err(AbiError::Decode)));
    let none = function("noop", &[], &[]);
    assert_eq!(abi_decode(&none, &vec![]).unwrap().len(), 0);
}

#[test]
fn decodes_a_string_result() {
    let f = function("strings0in1out", &[], &["string"]);
    let mut data = vec![0u8; 96];
    data[31] = 0x20;
    data[63] = 2;
    data[64] = b'h';
    data[65] = b'i';
    let ts = abi_decode(&f, &data).unwrap();
    assert!(same_tokens(&ts, &vec![AbiToken::Str("hi".to_string())]));
}

#[test]
fn token_equality_is_value_equality() {
    let a = AbiToken::Array(vec![uint(1), AbiToken::Tuple(vec![AbiToken::Bool(false), AbiToken::Bytes(vec![1, 2])])]);
    let b = AbiToken::Array(vec![uint(1), AbiToken::Tuple(vec![AbiToken::Bool(false), AbiToken::Bytes(vec![1, 2])])]);
    let c = AbiToken::Array(vec![uint(1), AbiToken::Tuple(vec![AbiToken::Bool(false), AbiToken::Bytes(vec![1, 3])])]);
    assert!(same_token(&a, &b));
    assert!(!same_token(&a, &c));
    assert!(!same_token(&uint(1), &AbiToken::Int([1, 0, 0, 0])));
    assert!(!same_token(&AbiToken::FixedArray(vec![uint(1)]), &AbiToken::Array(vec![uint(1)])));
}

#[test]
fn large_and_negative_integers() {
    let f = function("big", &["uint256", "int256"], &[]);
    let ts = abi_tokenize_function_inputs(&f, &vec!["340282366920938463463374607431768211456", "-1"]).unwrap();
    assert!(same_tokens(&ts, &vec![AbiToken::Uint([0, 0, 1, 0]), AbiToken::Int([u64::MAX; 4])]));
    let data = abi_encode(&f, &vec!["340282366920938463463374607431768211456", "-1"]).unwrap();
    assert_eq!(data.len(), 68);
    assert_eq!(data[4 + 15], 1);
    assert!(data[36..].iter().all(|b| *b == 0xff));
}

#[test]
fn addresses_and_arrays() {
    let f = function("g", &["address", "uint8[]"], &[]);
    let ts = abi_tokenize_function_inputs(&f, &vec!["0x00000000000000000000000000000000000000ff", "[1,2]"]).unwrap();
    let mut a = [0u8; 20];
    a[19] = 0xff;
    assert!(same_tokens(&ts, &vec![AbiToken::Address(a), AbiToken::Array(vec![uint(1), uint(2)])]));
}

#[test]
fn every_function_is_found_by_its_own_signature() {
    let c = abi_load_contract(IO_ABI.as_bytes()).unwrap();
    for f in &c.functions {
        let sig = signature(f);
        let g = abi_load_function(&c, &sig).unwrap();
        assert_eq!(g.name, f.name);
        assert_eq!(signature(&g), sig);
    }
}

#[test]
fn string_texts_are_taken_as_written() {
    let f = function("s", &["string", "string", "string"], &[]);
    let ts = abi_tokenize_function_inputs(&f, &vec!["", "[1,2]", "x, y"]).unwrap();
    assert!(same_tokens(
        &ts,
        &vec![AbiToken::Str(String::new()), AbiToken::Str("[1,2]".to_string()), AbiToken::Str("x, y".to_string())]
    ));
}

#[test]
fn bool_texts() {
    let f = function("b", &["bool", "bool", "bool", "bool"], &[]);
    let ts = abi_tokenize_function_inputs(&f, &vec!["true", "1", "false", "0"]).unwrap();
    assert!(same_tokens(
        &ts,
        &vec![AbiToken::Bool(true), AbiToken::Bool(true), AbiToken::Bool(false), AbiToken::Bool(false)]
    ));
    assert!(matches!(abi_tokenize_function_inputs(&f, &vec!["yes"]), Err(AbiError::TokenizeInputs)));
    assert!(matches!(abi_tokenize_function_inputs(&f, &vec!["True"]), Err(AbiError::TokenizeInputs)));
}

#[test]
fn type_names_as_ethabi_writes_them() {
    assert_eq!(kind_name(&ParamKind::FixedBytes(32)), "bytes32");
    assert_eq!(kind_name(&ParamKind::Int(64)), "int64");
    assert_eq!(kind_name(&ParamKind::Uint(8)), "uint8");
    assert_eq!(kind_name(&ParamKind::Bytes), "bytes");
    assert_eq!(kind_name(&ParamKind::FixedArray(Box::new(ParamKind::Array(Box::new(ParamKind::Bool))), 2)), "bool[][2]");
    let inner = ParamKind::Tuple(vec![ParamKind::Int(256), ParamKind::Uint(256)]);
    let t = ParamKind::Array(Box::new(ParamKind::Tuple(vec![
        ParamKind::Array(Box::new(inner)),
        ParamKind::FixedBytes(32),
    ])));
    assert_eq!(kind_name(&t), "((int256,uint256)[],bytes32)[]");
    assert_eq!(kind_name(&ParamKind::FixedArray(Box::new(ParamKind::Str), 10)), "string[10]");
}

#[test]
fn a_tuple_holding_an_empty_tuple_keeps_its_shape() {
    let f = AbiFunction {
        name: "f".to_string(),
        inputs: vec![ParamKind::Tuple(vec![ParamKind::Tuple(vec![])])],
        outputs: vec![],
    };
    assert_eq!(kind_name(&f.inputs[0]), "(())");
    assert_eq!(signature(&f), "f((()))");
}

#[test]
fn tuple_parameters_are_read_from_their_components() {
    let json = r#"[{"type":"function","name":"t","inputs":[{"name":"p","type":"tuple","components":[{"name":"a","type":"uint8"},{"name":"b","type":"bool[]"}]}],"outputs":[],"stateMutability":"pure"}]"#;
    let c = abi_load_contract(json.as_bytes()).unwrap();
    assert_eq!(signature(&c.functions[0]), "t((uint8,bool[]))");
    let f = abi_load_function(&c, "t((uint8,bool[]))").unwrap();
    let ts = abi_tokenize_function_inputs(&f, &vec!["(7,[true,false])"]).unwrap();
    assert!(same_tokens(
        &ts,
        &vec![AbiToken::Tuple(vec![uint(7), AbiToken::Array(vec![AbiToken::Bool(true), AbiToken::Bool(false)])])]
    ));
}

#[test]
fn type_names_that_cannot_be_read_are_refused() {
    let unclosed = r#"[{"type":"function","name":"f","inputs":[{"name":"a","type":"]"}],"outputs":[]}]"#;
    assert!(matches!(abi_load_contract(unclosed.as_bytes()), Err(AbiError::LoadContract)));
    let count_only = r#"[{"type":"function","name":"f","inputs":[{"name":"a","type":"5]"}],"outputs":[]}]"#;
    assert!(matches!(abi_load_contract(count_only.as_bytes()), Err(AbiError::LoadContract)));
    let wide_tuple = "[{\"type\":\"function\",\"name\":\"f\",\"inputs\":[{\"name\":\"a\",\"type\":\"(uint8,\u{e9})\"}],\"outputs\":[]}]";
    assert!(matches!(abi_load_contract(wide_tuple.as_bytes()), Err(AbiError::LoadContract)));
    let wide_name = "[{\"type\":\"function\",\"name\":\"caf\u{e9}\",\"inputs\":[],\"outputs\":[]}]";
    let c = abi_load_contract(wide_name.as_bytes()).unwrap();
    assert_eq!(c.functions[0].name, "caf\u{e9}");
    let escaped_name = r#"[{"type":"function","name":"f\u0041]","inputs":[],"outputs":[]}]"#;
    let c = abi_load_contract(escaped_name.as_bytes()).unwrap();
    assert_eq!(c.functions[0].name, "fA]");
    let escaped_type = r#"[{"type":"function","name":"f","inputs":[{"name":"a","type":"uint\u0038"}],"outputs":[]}]"#;
    assert!(matches!(abi_load_contract(escaped_type.as_bytes()), Err(AbiError::LoadContract)));
    let in_tuple = r#"[{"type":"function","name":"f","inputs":[{"name":"a","type":"(uint8,5])"}],"outputs":[]}]"#;
    assert!(matches!(abi_load_contract(in_tuple.as_bytes()), Err(AbiError::LoadContract)));
    let prefix = r#"[{"type":"function","name":"f","inputs":[{"name":"a","type":"5][]"}],"outputs":[]}]"#;
    assert!(matches!(abi_load_contract(prefix.as_bytes()), Err(AbiError::LoadContract)));
    // a `]` that ends no array part is read (as an enum, `uint8`)
    let inner = r#"[{"type":"function","name":"f","inputs":[{"name":"a","type":"a]b[]"}],"outputs":[]}]"#;
    let c = abi_load_contract(inner.as_bytes()).unwrap();
    assert_eq!(kind_names(&c.functions[0].inputs), vec!["uint8[]".to_string()]);
    let deep = format!(
        r#"[{{"type":"function","name":"f","inputs":[{{"name":"a","type":"uint8{}"}}],"outputs":[]}}]"#,
        "[]".repeat(1025)
    );
    assert!(matches!(abi_load_contract(deep.as_bytes()), Err(AbiError::LoadContract)));
    let fairly_deep = format!(
        r#"[{{"type":"function","name":"f","inputs":[{{"name":"a","type":"uint8{}"}}],"outputs":[]}}]"#,
        "[]".repeat(200)
    );
    assert!(abi_load_contract(fairly_deep.as_bytes()).is_ok());
    let arrays = r#"[{"type":"function","name":"f","inputs":[{"name":"a","type":"uint8[2][]"}],"outputs":[]}]"#;
    let c = abi_load_contract(arrays.as_bytes()).unwrap();
    assert_eq!(kind_names(&c.functions[0].inputs), vec!["uint8[2][]".to_string()]);
}

#[test]
fn array_texts_must_be_ascii() {
    let f = function("s", &["string[]"], &[]);
    assert!(matches!(abi_tokenize_function_inputs(&f, &vec!["[\u{e9},a]"]), Err(AbiError::TokenizeInputs)));
    let ts = abi_tokenize_function_inputs(&f, &vec!["[x,a]"]).unwrap();
    assert!(same_tokens(&ts, &vec![AbiToken::Array(vec![AbiToken::Str("x".to_string()), AbiToken::Str("a".to_string())])]));
    // texts that are not in brackets are refused by `ethabi` itself
    assert!(matches!(abi_tokenize_function_inputs(&f, &vec!["\u{e9}"]), Err(AbiError::TokenizeInputs)));
    let g = function("t", &["string"], &[]);
    let us = abi_tokenize_function_inputs(&g, &vec!["\u{e9}"]).unwrap();
    assert!(same_tokens(&us, &vec![AbiToken::Str("\u{e9}".to_string())]));
}

#[test]
fn tuple_arguments_are_encoded() {
    let f = AbiFunction {
        name: "t".to_string(),
        inputs: vec![ParamKind::Tuple(vec![ParamKind::Uint(8), ParamKind::Bool])],
        outputs: vec![],
    };
    let data = abi_encode(&f, &vec!["(7,true)"]).unwrap();
    assert_eq!(data.len(), 4 + 64);
    assert_eq!(data[4 + 31], 7);
    assert_eq!(data[4 + 63], 1);
    assert!(matches!(abi_encode(&f, &vec!["(7,true,1)"]), Err(AbiError::TokenizeInputs)));
}

#[test]
fn results_decoded_as_ethabi_decodes_them() {
    let empty_tuples = AbiFunction {
        name: "e".to_string(),
        inputs: vec![],
        outputs: vec![ParamKind::FixedArray(Box::new(ParamKind::Tuple(vec![])), 3)],
    };
    let ts = abi_decode(&empty_tuples, &vec![0u8; 32]).unwrap();
    assert!(same_tokens(
        &ts,
        &vec![AbiToken::FixedArray(vec![AbiToken::Tuple(vec![]), AbiToken::Tuple(vec![]), AbiToken::Tuple(vec![])])]
    ));
    let huge = AbiFunction {
        name: "h".to_string(),
        inputs: vec![],
        outputs: vec![ParamKind::Uint(256), ParamKind::FixedBytes(usize::MAX)],
    };
    assert!(matches!(abi_decode(&huge, &vec![0u8; 64]), Err(AbiError::Decode)));
    let long = AbiFunction { name: "l".to_string(), inputs: vec![], outputs: vec![ParamKind::FixedBytes(40)] };
    let ts = abi_decode(&long, &vec![7u8; 40]).unwrap();
    assert!(same_tokens(&ts, &vec![AbiToken::FixedBytes(vec![7u8; 40])]));
    let bytes_entries = AbiFunction {
        name: "b".to_string(),
        inputs: vec![],
        outputs: vec![ParamKind::Array(Box::new(ParamKind::Uint(8)))],
    };
    let mut two = vec![0u8; 128];
    two[31] = 0x20;
    two[63] = 2;
    two[95] = 4;
    two[127] = 5;
    let ts = abi_decode(&bytes_entries, &two).unwrap();
    assert!(same_tokens(&ts, &vec![AbiToken::Array(vec![uint(4), uint(5)])]));
}

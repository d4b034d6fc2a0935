use grat::call::{format_decoded_value, FunctionCallDecoder};
use grat::spec::{ContractFunction, ContractSpec};
use grat::type_def::{format_type_def, TypeDef};
use serde_json::Value;

fn function(name: &str, doc: &str) -> ContractFunction {
    ContractFunction {
        name: name.to_string(),
        params: vec![
            ("to".to_string(), "Address".to_string()),
            ("amount".to_string(), "I128".to_string()),
        ],
        return_type: "Bool".to_string(),
        doc: Some(doc.to_string()),
        return_type_def: Some(TypeDef::Bool),
        param_defs: vec![
            ("to".to_string(), TypeDef::Address),
            ("amount".to_string(), TypeDef::I128),
        ],
    }
}

fn spec_with(functions: Vec<ContractFunction>) -> ContractSpec {
    ContractSpec {
        errors: vec![],
        functions,
        structs: vec![],
        name: None,
        version: None,
        enums: vec![],
        unions: vec![],
    }
}

#[test]
fn matching_function_is_first_by_name() {
    let decoder = FunctionCallDecoder::new();
    let spec = spec_with(vec![
        function("mint", "m"),
        function("transfer", "first"),
        function("transfer", "second"),
    ]);
    let f = decoder.matching_function(&spec, "transfer").unwrap();
    assert_eq!(f.doc.as_deref(), Some("first"));
    assert!(decoder.matching_function(&spec, "burn").is_none());
}

#[test]
fn argument_types_follow_parameters() {
    let decoder = FunctionCallDecoder::new();
    let f = function("transfer", "");
    assert_eq!(format_type_def(decoder.argument_type(&f, 0).unwrap()), "Address");
    assert_eq!(format_type_def(decoder.argument_type(&f, 1).unwrap()), "I128");
    assert!(decoder.argument_type(&f, 2).is_none());
}

#[test]
fn decoded_call_formats_values() {
    let decoder = FunctionCallDecoder::new();
    let decoded = decoder.decoded_call(
        "transfer",
        vec![Value::String("recipient".to_string()), Value::from(500)],
        Some(Value::Bool(true)),
    );
    assert_eq!(decoded.function_name, "transfer");
    assert_eq!(decoded.arguments.len(), 2);
    assert_eq!(decoded.formatted_arguments, vec!["recipient".to_string(), "500".to_string()]);
    assert_eq!(decoded.return_value, Some(Value::Bool(true)));
    assert_eq!(decoded.formatted_return_value, Some("true".to_string()));
}

#[test]
fn values_display_as_json_except_strings() {
    assert_eq!(format_decoded_value(&Value::Null), "null");
    assert_eq!(format_decoded_value(&Value::String("a\"b".to_string())), "a\"b");
    let arr = Value::Array(vec![Value::from(1), Value::String("x".to_string())]);
    assert_eq!(format_decoded_value(&arr), "[1,\"x\"]");
}

#[test]
fn call_without_return_value() {
    let decoded = FunctionCallDecoder::new().decoded_call("init", vec![], None);
    assert!(decoded.arguments.is_empty());
    assert!(decoded.return_value.is_none());
    assert!(decoded.formatted_return_value.is_none());
}

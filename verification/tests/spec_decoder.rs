use grat::entry::{SpecEntry, SpecEnumCase, SpecEnumEntry, SpecFunctionEntry, SpecFunctionInput};
use grat::error::GratError;
use grat::spec::{
    decode_contract_spec, decode_spec_entries, resolve_error_code, ContractErrorEntry, ContractSpec,
};
use grat::type_def::{format_type_def, TypeDef};
use grat::wasm::SpecParser;
use grat::xdr::read_spec_entries;

use stellar_xdr::curr::{
    Limits, ScSpecEntry, ScSpecFunctionInputV0, ScSpecFunctionV0, ScSpecTypeDef, ScSpecTypeVec,
    ScSpecUdtErrorEnumCaseV0, ScSpecUdtErrorEnumV0, ScSymbol, WriteXdr,
};

fn leb128(mut n: usize, out: &mut Vec<u8>) {
    loop {
        let byte = (n & 0x7f) as u8;
        n >>= 7;
        if n == 0 {
            out.push(byte);
            break;
        }
        out.push(byte | 0x80);
    }
}

fn wasm_with_custom_section(name: &str, data: &[u8]) -> Vec<u8> {
    let mut wasm = vec![0x00, 0x61, 0x73, 0x6D, 0x01, 0x00, 0x00, 0x00];
    let mut payload = Vec::new();
    leb128(name.len(), &mut payload);
    payload.extend_from_slice(name.as_bytes());
    payload.extend_from_slice(data);
    wasm.push(0);
    leb128(payload.len(), &mut wasm);
    wasm.extend(payload);
    wasm
}

fn empty_spec() -> ContractSpec {
    ContractSpec {
        errors: Vec::new(),
        functions: Vec::new(),
        structs: Vec::new(),
        name: None,
        version: None,
        enums: Vec::new(),
        unions: Vec::new(),
    }
}

#[test]
fn test_resolve_error_code_not_found() {
    let mut spec = empty_spec();
    spec.errors = vec![ContractErrorEntry {
        code: 1,
        name: "NotFound".to_string(),
        doc: None,
    }];
    assert!(resolve_error_code(&spec, 99).is_none());
    assert!(resolve_error_code(&spec, 1).is_some());
}

#[test]
fn test_extract_spec_success() {
    let mut wasm = vec![0x00, 0x61, 0x73, 0x6D, 0x01, 0x00, 0x00, 0x00];
    let section_name = "contractspecv0";
    let section_data = vec![1, 2, 3, 4];

    let mut custom_payload = Vec::new();
    custom_payload.push(section_name.len() as u8);
    custom_payload.extend_from_slice(section_name.as_bytes());
    custom_payload.extend_from_slice(&section_data);

    wasm.push(0);
    wasm.push(custom_payload.len() as u8);
    wasm.extend(custom_payload);

    let result = SpecParser::extract_spec(&wasm).expect("Should find section");
    assert_eq!(result, section_data);
}

#[test]
fn test_extract_spec_not_found() {
    let wasm = vec![0x00, 0x61, 0x73, 0x6D, 0x01, 0x00, 0x00, 0x00];
    let result = SpecParser::extract_spec(&wasm);
    assert!(result.is_err());
    match result {
        Err(GratError::SpecError(msg)) => assert!(msg.contains("not found")),
        _ => panic!("Expected SpecError"),
    }
}

#[test]
fn extract_spec_reports_not_found_message() {
    let wasm = wasm_with_custom_section("name", &[9, 9]);
    match SpecParser::extract_spec(&wasm) {
        Err(GratError::SpecError(msg)) => {
            assert_eq!(msg, "contractspecv0 custom section not found")
        }
        other => panic!("unexpected {other:?}"),
    }
}

#[test]
fn extract_spec_reports_parse_error() {
    let wasm = vec![0x00, 0x61, 0x73, 0x6D, 0x02, 0x00, 0x00, 0x00];
    match SpecParser::extract_spec(&wasm) {
        Err(GratError::SpecError(msg)) => assert!(msg.starts_with("WASM parse error: ")),
        other => panic!("unexpected {other:?}"),
    }
}

#[test]
fn extract_spec_takes_first_matching_section() {
    let mut wasm = wasm_with_custom_section("other", &[7]);
    let second = wasm_with_custom_section("contractspecv0", &[5, 6]);
    wasm.extend_from_slice(&second[8..]);
    let third = wasm_with_custom_section("contractspecv0", &[8]);
    wasm.extend_from_slice(&third[8..]);
    assert_eq!(SpecParser::extract_spec(&wasm).unwrap(), vec![5, 6]);
}

fn transfer_entry() -> ScSpecEntry {
    ScSpecEntry::FunctionV0(ScSpecFunctionV0 {
        doc: "Moves tokens.".try_into().unwrap(),
        name: ScSymbol("transfer".try_into().unwrap()),
        inputs: vec![
            ScSpecFunctionInputV0 {
                doc: "".try_into().unwrap(),
                name: "to".try_into().unwrap(),
                type_: ScSpecTypeDef::Address,
            },
            ScSpecFunctionInputV0 {
                doc: "".try_into().unwrap(),
                name: "amounts".try_into().unwrap(),
                type_: ScSpecTypeDef::Vec(Box::new(ScSpecTypeVec {
                    element_type: Box::new(ScSpecTypeDef::I128),
                })),
            },
        ]
        .try_into()
        .unwrap(),
        outputs: vec![ScSpecTypeDef::Bool].try_into().unwrap(),
    })
}

fn error_entry() -> ScSpecEntry {
    ScSpecEntry::UdtErrorEnumV0(ScSpecUdtErrorEnumV0 {
        doc: "".try_into().unwrap(),
        lib: "".try_into().unwrap(),
        name: "Error".try_into().unwrap(),
        cases: vec![
            ScSpecUdtErrorEnumCaseV0 {
                doc: "No balance.".try_into().unwrap(),
                name: "NoBalance".try_into().unwrap(),
                value: 1,
            },
            ScSpecUdtErrorEnumCaseV0 {
                doc: "".try_into().unwrap(),
                name: "Expired".try_into().unwrap(),
                value: 7,
            },
        ]
        .try_into()
        .unwrap(),
    })
}

#[test]
fn decode_contract_spec_reads_functions_and_errors() {
    let mut raw = transfer_entry().to_xdr(Limits::none()).unwrap();
    raw.extend(error_entry().to_xdr(Limits::none()).unwrap());
    let wasm = wasm_with_custom_section("contractspecv0", &raw);
    let spec = decode_contract_spec(&wasm).unwrap();

    assert_eq!(spec.functions.len(), 1);
    let f = &spec.functions[0];
    assert_eq!(f.name, "transfer");
    assert_eq!(f.doc.as_deref(), Some("Moves tokens."));
    assert_eq!(
        f.params,
        vec![
            ("to".to_string(), "Address".to_string()),
            ("amounts".to_string(), "Vec<I128>".to_string())
        ]
    );
    assert_eq!(f.return_type, "Bool");
    assert!(matches!(f.return_type_def, Some(TypeDef::Bool)));
    assert_eq!(f.param_defs.len(), 2);

    assert_eq!(spec.errors.len(), 2);
    assert_eq!(spec.errors[0].code, 1);
    assert_eq!(spec.errors[0].name, "Error::NoBalance");
    assert_eq!(spec.errors[0].doc.as_deref(), Some("No balance."));
    assert_eq!(spec.errors[1].name, "Error::Expired");
    assert_eq!(spec.errors[1].doc, None);
    assert!(spec.name.is_none() && spec.version.is_none());

    let found = resolve_error_code(&spec, 7).unwrap();
    assert_eq!(found.name, "Error::Expired");
}

#[test]
fn decode_contract_spec_stops_at_undecodable_bytes() {
    let mut raw = transfer_entry().to_xdr(Limits::none()).unwrap();
    raw.extend_from_slice(&[0xff, 0xff, 0xff, 0xff, 0x01]);
    let entries = read_spec_entries(&raw);
    assert_eq!(entries.len(), 1);
    let wasm = wasm_with_custom_section("contractspecv0", &raw);
    let spec = decode_contract_spec(&wasm).unwrap();
    assert_eq!(spec.functions.len(), 1);
    assert!(spec.errors.is_empty());
}

#[test]
fn decode_contract_spec_without_section_fails() {
    let wasm = wasm_with_custom_section("other", &[1]);
    assert!(matches!(decode_contract_spec(&wasm), Err(GratError::SpecError(_))));
}

#[test]
fn function_without_output_returns_void() {
    let entries = vec![SpecEntry::Function(SpecFunctionEntry {
        doc: String::new(),
        name: "init".to_string(),
        inputs: vec![SpecFunctionInput {
            doc: String::new(),
            name: "admin".to_string(),
            type_def: TypeDef::Address,
        }],
        outputs: Vec::new(),
    })];
    let spec = decode_spec_entries(entries);
    let f = &spec.functions[0];
    assert_eq!(f.return_type, "Void");
    assert!(matches!(f.return_type_def, Some(TypeDef::Void)));
    assert_eq!(f.doc, None);
    assert_eq!(format_type_def(&f.param_defs[0].1), "Address");
}

#[test]
fn resolve_error_code_takes_first_match() {
    let spec = decode_spec_entries(vec![SpecEntry::ErrorEnum(SpecEnumEntry {
        doc: String::new(),
        name: "E".to_string(),
        cases: vec![
            SpecEnumCase { doc: String::new(), name: "A".to_string(), value: 3 },
            SpecEnumCase { doc: String::new(), name: "B".to_string(), value: 3 },
        ],
    })]);
    assert_eq!(resolve_error_code(&spec, 3).unwrap().name, "E::A");
}

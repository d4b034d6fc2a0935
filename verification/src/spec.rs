//! A contract's specification as the library presents it: its functions with
//! their parameters and return types, its error codes, and its user-defined
//! structs, enums and unions.

use vstd::prelude::*;

use crate::entry::{
    SpecEntry, SpecEnumCase, SpecEnumEntry, SpecFunctionEntry, SpecFunctionInput, SpecStructEntry,
    SpecStructField, SpecUnionCase, SpecUnionEntry,
};
use crate::error::{GratError, GratResult};
use crate::type_def::{format_type_def, type_label, TypeDef};
use crate::wasm::{spec_section, wasm_payloads, SpecParser};
use crate::xdr::{read_spec_entries, xdr_spec_entries};

verus! {

/// One error code of the contract, named `Enum::Case`.
#[derive(Debug, Clone)]
pub struct ContractErrorEntry {
    pub code: u32,
    pub name: String,
    pub doc: Option<String>,
}

/// A function of the contract.
#[derive(Debug, Clone)]
pub struct ContractFunction {
    pub name: String,
    /// Each parameter's name and the name of its type.
    pub params: Vec<(String, String)>,
    /// The name of the return type (`Void` when the function returns nothing).
    pub return_type: String,
    pub doc: Option<String>,
    pub return_type_def: Option<TypeDef>,
    /// Each parameter's name and type.
    pub param_defs: Vec<(String, TypeDef)>,
}

/// One field of a struct.
#[derive(Debug, Clone)]
pub struct ContractStructField {
    pub name: String,
    /// The name of the field's type.
    pub type_str: String,
    pub doc: Option<String>,
    pub type_def: Option<TypeDef>,
}

/// A user-defined struct.
#[derive(Debug, Clone)]
pub struct ContractStructDef {
    pub name: String,
    pub fields: Vec<ContractStructField>,
    pub doc: Option<String>,
}

/// One case of an enum.
#[derive(Debug, Clone)]
pub struct ContractEnumCase {
    pub name: String,
    pub value: u32,
    pub doc: Option<String>,
}

/// A user-defined enum.
#[derive(Debug, Clone)]
pub struct ContractEnumDef {
    pub name: String,
    pub cases: Vec<ContractEnumCase>,
    pub doc: Option<String>,
}

/// One case of a union: `value_types` is set for a case that carries values.
#[derive(Debug, Clone)]
pub struct ContractUnionCase {
    pub name: String,
    pub doc: Option<String>,
    pub value_types: Option<Vec<TypeDef>>,
    pub fields: Option<Vec<ContractStructField>>,
}

/// A user-defined union.
#[derive(Debug, Clone)]
pub struct ContractUnionDef {
    pub name: String,
    pub cases: Vec<ContractUnionCase>,
    pub doc: Option<String>,
}

/// Everything a contract's specification declares.
#[derive(Debug, Clone)]
pub struct ContractSpec {
    pub errors: Vec<ContractErrorEntry>,
    pub functions: Vec<ContractFunction>,
    pub structs: Vec<ContractStructDef>,
    pub name: Option<String>,
    pub version: Option<String>,
    pub enums: Vec<ContractEnumDef>,
    pub unions: Vec<ContractUnionDef>,
}

/// The text of an optional string.
pub open spec fn opt_text(o: Option<String>) -> Option<Seq<char>> {
    match o {
        Some(s) => Some(s@),
        None => None,
    }
}

/// Documentation as the specification presents it: absent when empty.
pub open spec fn doc_text(doc: String) -> Option<Seq<char>> {
    if doc@.len() == 0 {
        None
    } else {
        Some(doc@)
    }
}

/// The return type of a function entry: its output, or `Void` when it has none.
pub open spec fn return_type_of(f: SpecFunctionEntry) -> TypeDef {
    if f.outputs@.len() == 0 {
        TypeDef::Void
    } else {
        f.outputs@[0]
    }
}

/// `d` is the function that entry `f` declares.
pub open spec fn function_decoded(d: ContractFunction, f: SpecFunctionEntry) -> bool {
    &&& d.name@ == f.name@
    &&& opt_text(d.doc) == doc_text(f.doc)
    &&& d.params@.len() == f.inputs@.len()
    &&& d.param_defs@.len() == f.inputs@.len()
    &&& forall|i: int|
        0 <= i < f.inputs@.len() ==> {
            &&& (#[trigger] d.params@[i]).0@ == f.inputs@[i].name@
            &&& d.params@[i].1@ == type_label(f.inputs@[i].type_def)
            &&& d.param_defs@[i].0@ == f.inputs@[i].name@
            &&& d.param_defs@[i].1 == f.inputs@[i].type_def
        }
    &&& d.return_type_def == Some(return_type_of(f))
    &&& d.return_type@ == type_label(return_type_of(f))
}

/// `d` is the struct field that entry `f` declares.
pub open spec fn field_decoded(d: ContractStructField, f: SpecStructField) -> bool {
    &&& d.name@ == f.name@
    &&& d.type_str@ == type_label(f.type_def)
    &&& opt_text(d.doc) == doc_text(f.doc)
    &&& d.type_def == Some(f.type_def)
}

/// `d` is the struct that entry `s` declares.
pub open spec fn struct_decoded(d: ContractStructDef, s: SpecStructEntry) -> bool {
    &&& d.name@ == s.name@
    &&& opt_text(d.doc) == doc_text(s.doc)
    &&& d.fields@.len() == s.fields@.len()
    &&& forall|i: int|
        0 <= i < s.fields@.len() ==> field_decoded(#[trigger] d.fields@[i], s.fields@[i])
}

/// `d` is the enum case that entry `c` declares.
pub open spec fn enum_case_decoded(d: ContractEnumCase, c: SpecEnumCase) -> bool {
    &&& d.name@ == c.name@
    &&& d.value == c.value
    &&& opt_text(d.doc) == doc_text(c.doc)
}

/// `d` is the enum that entry `e` declares.
pub open spec fn enum_decoded(d: ContractEnumDef, e: SpecEnumEntry) -> bool {
    &&& d.name@ == e.name@
    &&& opt_text(d.doc) == doc_text(e.doc)
    &&& d.cases@.len() == e.cases@.len()
    &&& forall|i: int|
        0 <= i < e.cases@.len() ==> enum_case_decoded(#[trigger] d.cases@[i], e.cases@[i])
}

/// `d` is the union case that entry `c` declares.
pub open spec fn union_case_decoded(d: ContractUnionCase, c: SpecUnionCase) -> bool {
    &&& d.fields is None
    &&& match c {
        SpecUnionCase::Void { doc, name } => {
            &&& d.name@ == name@
            &&& opt_text(d.doc) == doc_text(doc)
            &&& d.value_types is None
        },
        SpecUnionCase::Tuple { doc, name, types } => {
            &&& d.name@ == name@
            &&& opt_text(d.doc) == doc_text(doc)
            &&& d.value_types matches Some(v) && v@ == types@
        },
    }
}

/// `d` is the union that entry `u` declares.
pub open spec fn union_decoded(d: ContractUnionDef, u: SpecUnionEntry) -> bool {
    &&& d.name@ == u.name@
    &&& opt_text(d.doc) == doc_text(u.doc)
    &&& d.cases@.len() == u.cases@.len()
    &&& forall|i: int|
        0 <= i < u.cases@.len() ==> union_case_decoded(#[trigger] d.cases@[i], u.cases@[i])
}

/// A decoded union case carries value types exactly when its entry is a
/// case with values, and then exactly the types that the entry lists, in
/// order; a void case carries none.
pub proof fn lemma_union_case_value_types(d: ContractUnionDef, u: SpecUnionEntry, i: int)
    requires
        union_decoded(d, u),
        0 <= i < u.cases@.len(),
    ensures
        d.cases@[i].value_types is Some <==> u.cases@[i] is Tuple,
        u.cases@[i] matches SpecUnionCase::Tuple { types, .. } ==> d.cases@[i].value_types
            matches Some(v) && v@ == types@,
        d.cases@[i].fields is None,
{
    assert(union_case_decoded(d.cases@[i], u.cases@[i]));
}

/// An error code as the specification lists it: code, `Enum::Case` name, documentation.
pub open spec fn error_view(e: ContractErrorEntry) -> (u32, Seq<char>, Option<Seq<char>>) {
    (e.code, e.name@, opt_text(e.doc))
}

/// The error codes that error enum `e` declares, in order.
pub open spec fn error_codes_of(e: SpecEnumEntry) -> Seq<(u32, Seq<char>, Option<Seq<char>>)> {
    e.cases@.map_values(
        |c: SpecEnumCase| (c.value, e.name@ + "::"@ + c.name@, doc_text(c.doc)),
    )
}

/// The function entries among `es`, in order.
pub open spec fn function_entries(es: Seq<SpecEntry>) -> Seq<SpecFunctionEntry>
    decreases es.len(),
{
    if es.len() == 0 {
        Seq::empty()
    } else {
        let rest = function_entries(es.drop_last());
        match es.last() {
            SpecEntry::Function(f) => rest.push(f),
            _ => rest,
        }
    }
}

/// The struct entries among `es`, in order.
pub open spec fn struct_entries(es: Seq<SpecEntry>) -> Seq<SpecStructEntry>
    decreases es.len(),
{
    if es.len() == 0 {
        Seq::empty()
    } else {
        let rest = struct_entries(es.drop_last());
        match es.last() {
            SpecEntry::Struct(s) => rest.push(s),
            _ => rest,
        }
    }
}

/// The union entries among `es`, in order.
pub open spec fn union_entries(es: Seq<SpecEntry>) -> Seq<SpecUnionEntry>
    decreases es.len(),
{
    if es.len() == 0 {
        Seq::empty()
    } else {
        let rest = union_entries(es.drop_last());
        match es.last() {
            SpecEntry::Union(u) => rest.push(u),
            _ => rest,
        }
    }
}

/// The enum entries among `es` (not the error enums), in order.
pub open spec fn enum_entries(es: Seq<SpecEntry>) -> Seq<SpecEnumEntry>
    decreases es.len(),
{
    if es.len() == 0 {
        Seq::empty()
    } else {
        let rest = enum_entries(es.drop_last());
        match es.last() {
            SpecEntry::Enum(e) => rest.push(e),
            _ => rest,
        }
    }
}

/// The error codes of all error enums among `es`, enum after enum.
pub open spec fn error_codes(es: Seq<SpecEntry>) -> Seq<(u32, Seq<char>, Option<Seq<char>>)>
    decreases es.len(),
{
    if es.len() == 0 {
        Seq::empty()
    } else {
        let rest = error_codes(es.drop_last());
        match es.last() {
            SpecEntry::ErrorEnum(e) => rest + error_codes_of(e),
            _ => rest,
        }
    }
}

/// `spec` presents exactly what the entries `es` declare, each kind of
/// declaration in the order of the entries, and names no contract or version.
pub open spec fn spec_decoded(spec: ContractSpec, es: Seq<SpecEntry>) -> bool {
    &&& spec.name is None
    &&& spec.version is None
    &&& spec.errors@.map_values(|e: ContractErrorEntry| error_view(e)) == error_codes(es)
    &&& spec.functions@.len() == function_entries(es).len()
    &&& forall|i: int|
        0 <= i < spec.functions@.len() ==> function_decoded(
            #[trigger] spec.functions@[i],
            function_entries(es)[i],
        )
    &&& spec.structs@.len() == struct_entries(es).len()
    &&& forall|i: int|
        0 <= i < spec.structs@.len() ==> struct_decoded(
            #[trigger] spec.structs@[i],
            struct_entries(es)[i],
        )
    &&& spec.enums@.len() == enum_entries(es).len()
    &&& forall|i: int|
        0 <= i < spec.enums@.len() ==> enum_decoded(#[trigger] spec.enums@[i], enum_entries(es)[i])
    &&& spec.unions@.len() == union_entries(es).len()
    &&& forall|i: int|
        0 <= i < spec.unions@.len() ==> union_decoded(
            #[trigger] spec.unions@[i],
            union_entries(es)[i],
        )
}

/// Documentation as the specification presents it: `None` when empty.
fn doc_option(doc: String) -> (res: Option<String>)
    ensures
        opt_text(res) == doc_text(doc),
{
    if doc.as_str().is_empty() {
        None
    } else {
        Some(doc)
    }
}

/// The function that a function entry declares, with each type also named.
pub fn decode_function(f: SpecFunctionEntry) -> (res: ContractFunction)
    ensures
        function_decoded(res, f),
{
    let SpecFunctionEntry { doc, name, inputs, outputs } = f;
    let ghost orig = inputs@;
    let total: usize = inputs.len();
    let mut inputs = inputs;
    let mut params: Vec<(String, String)> = Vec::new();
    let mut param_defs: Vec<(String, TypeDef)> = Vec::new();
    let mut i: usize = 0;
    while inputs.len() > 0
        invariant
            orig == f.inputs@,
            i <= orig.len(),
            orig.len() == total,
            inputs@ == orig.skip(i as int),
            params@.len() == i,
            param_defs@.len() == i,
            forall|k: int|
                0 <= k < i ==> {
                    &&& (#[trigger] params@[k]).0@ == orig[k].name@
                    &&& params@[k].1@ == type_label(orig[k].type_def)
                    &&& param_defs@[k].0@ == orig[k].name@
                    &&& param_defs@[k].1 == orig[k].type_def
                },
        decreases inputs@.len(),
    {
        let input = inputs.remove(0);
        assert(input == orig[i as int]);
        let SpecFunctionInput { doc: _, name: param_name, type_def } = input;
        let param_type = format_type_def(&type_def);
        params.push((param_name.clone(), param_type));
        param_defs.push((param_name, type_def));
        i = i + 1;
        assert(inputs@ =~= orig.skip(i as int));
    }
    let mut outputs = outputs;
    let (return_type_def, return_type) = if outputs.len() == 0 {
        (TypeDef::Void, format_type_def(&TypeDef::Void))
    } else {
        let first = outputs.remove(0);
        let text = format_type_def(&first);
        (first, text)
    };
    ContractFunction {
        name,
        params,
        return_type,
        doc: doc_option(doc),
        return_type_def: Some(return_type_def),
        param_defs,
    }
}

/// The struct that a struct entry declares, with each field's type also named.
pub fn decode_struct(s: SpecStructEntry) -> (res: ContractStructDef)
    ensures
        struct_decoded(res, s),
{
    let SpecStructEntry { doc, name, fields } = s;
    let ghost orig = fields@;
    let total: usize = fields.len();
    let mut rest = fields;
    let mut out: Vec<ContractStructField> = Vec::new();
    let mut i: usize = 0;
    while rest.len() > 0
        invariant
            orig == s.fields@,
            i <= orig.len(),
            orig.len() == total,
            rest@ == orig.skip(i as int),
            out@.len() == i,
            forall|k: int| 0 <= k < i ==> field_decoded(#[trigger] out@[k], orig[k]),
        decreases rest@.len(),
    {
        let field = rest.remove(0);
        assert(field == orig[i as int]);
        let SpecStructField { doc: field_doc, name: field_name, type_def } = field;
        let type_str = format_type_def(&type_def);
        out.push(
            ContractStructField {
                name: field_name,
                type_str,
                doc: doc_option(field_doc),
                type_def: Some(type_def),
            },
        );
        i = i + 1;
        assert(rest@ =~= orig.skip(i as int));
    }
    ContractStructDef { name, fields: out, doc: doc_option(doc) }
}

/// The enum that an enum entry declares.
pub fn decode_enum(e: SpecEnumEntry) -> (res: ContractEnumDef)
    ensures
        enum_decoded(res, e),
{
    let SpecEnumEntry { doc, name, cases } = e;
    let ghost orig = cases@;
    let total: usize = cases.len();
    let mut rest = cases;
    let mut out: Vec<ContractEnumCase> = Vec::new();
    let mut i: usize = 0;
    while rest.len() > 0
        invariant
            orig == e.cases@,
            i <= orig.len(),
            orig.len() == total,
            rest@ == orig.skip(i as int),
            out@.len() == i,
            forall|k: int| 0 <= k < i ==> enum_case_decoded(#[trigger] out@[k], orig[k]),
        decreases rest@.len(),
    {
        let case = rest.remove(0);
        assert(case == orig[i as int]);
        let SpecEnumCase { doc: case_doc, name: case_name, value } = case;
        out.push(ContractEnumCase { name: case_name, value, doc: doc_option(case_doc) });
        i = i + 1;
        assert(rest@ =~= orig.skip(i as int));
    }
    ContractEnumDef { name, cases: out, doc: doc_option(doc) }
}

/// The union that a union entry declares.
pub fn decode_union(u: SpecUnionEntry) -> (res: ContractUnionDef)
    ensures
        union_decoded(res, u),
{
    let SpecUnionEntry { doc, name, cases } = u;
    let ghost orig = cases@;
    let total: usize = cases.len();
    let mut rest = cases;
    let mut out: Vec<ContractUnionCase> = Vec::new();
    let mut i: usize = 0;
    while rest.len() > 0
        invariant
            orig == u.cases@,
            i <= orig.len(),
            orig.len() == total,
            rest@ == orig.skip(i as int),
            out@.len() == i,
            forall|k: int| 0 <= k < i ==> union_case_decoded(#[trigger] out@[k], orig[k]),
        decreases rest@.len(),
    {
        let case = rest.remove(0);
        assert(case == orig[i as int]);
        let decoded = match case {
            SpecUnionCase::Void { doc: case_doc, name: case_name } => ContractUnionCase {
                name: case_name,
                doc: doc_option(case_doc),
                value_types: None,
                fields: None,
            },
            SpecUnionCase::Tuple { doc: case_doc, name: case_name, types } => ContractUnionCase {
                name: case_name,
                doc: doc_option(case_doc),
                value_types: Some(types),
                fields: None,
            },
        };
        out.push(decoded);
        i = i + 1;
        assert(rest@ =~= orig.skip(i as int));
    }
    ContractUnionDef { name, cases: out, doc: doc_option(doc) }
}

/// Appends the error codes of an error enum, each named `Enum::Case`.
pub fn push_error_codes(errors: &mut Vec<ContractErrorEntry>, e: SpecEnumEntry)
    ensures
        final(errors)@.map_values(|x: ContractErrorEntry| error_view(x)) == old(errors)@.map_values(
            |x: ContractErrorEntry| error_view(x),
        ) + error_codes_of(e),
{
    let ghost start = errors@.map_values(|x: ContractErrorEntry| error_view(x));
    let SpecEnumEntry { doc: _, name: enum_name, cases } = e;
    let ghost orig = cases@;
    let total: usize = cases.len();
    let ghost wanted = error_codes_of(e);
    let mut rest = cases;
    let mut i: usize = 0;
    while rest.len() > 0
        invariant
            orig == e.cases@,
            enum_name@ == e.name@,
            wanted == error_codes_of(e),
            wanted.len() == orig.len(),
            i <= orig.len(),
            orig.len() == total,
            rest@ == orig.skip(i as int),
            errors@.map_values(|x: ContractErrorEntry| error_view(x)) == start + wanted.take(
                i as int,
            ),
        decreases rest@.len(),
    {
        let case = rest.remove(0);
        assert(case == orig[i as int]);
        let SpecEnumCase { doc: case_doc, name: case_name, value } = case;
        let mut full_name = enum_name.clone();
        full_name.append("::");
        full_name.append(case_name.as_str());
        let ghost before = errors@;
        errors.push(ContractErrorEntry { code: value, name: full_name, doc: doc_option(case_doc) });
        assert(wanted[i as int] == (value, e.name@ + "::"@ + case_name@, doc_text(case_doc)));
        assert(errors@.map_values(|x: ContractErrorEntry| error_view(x)) =~= before.map_values(
            |x: ContractErrorEntry| error_view(x),
        ).push(wanted[i as int]));
        assert(wanted.take(i + 1) =~= wanted.take(i as int).push(wanted[i as int]));
        i = i + 1;
        assert(rest@ =~= orig.skip(i as int));
    }
    assert(wanted.take(i as int) =~= wanted);
}

/// The specification that the entries `entries` declare: functions, error
/// codes, structs, enums and unions, each in the order of the entries.
pub fn decode_spec_entries(entries: Vec<SpecEntry>) -> (res: ContractSpec)
    ensures
        spec_decoded(res, entries@),
{
    let ghost orig = entries@;
    let total: usize = entries.len();
    let mut rest = entries;
    let mut errors: Vec<ContractErrorEntry> = Vec::new();
    let mut functions: Vec<ContractFunction> = Vec::new();
    let mut structs: Vec<ContractStructDef> = Vec::new();
    let mut enums: Vec<ContractEnumDef> = Vec::new();
    let mut unions: Vec<ContractUnionDef> = Vec::new();
    let mut i: usize = 0;
    while rest.len() > 0
        invariant
            i <= orig.len(),
            orig.len() == total,
            rest@ == orig.skip(i as int),
            errors@.map_values(|e: ContractErrorEntry| error_view(e)) == error_codes(
                orig.take(i as int),
            ),
            functions@.len() == function_entries(orig.take(i as int)).len(),
            forall|k: int|
                0 <= k < functions@.len() ==> function_decoded(
                    #[trigger] functions@[k],
                    function_entries(orig.take(i as int))[k],
                ),
            structs@.len() == struct_entries(orig.take(i as int)).len(),
            forall|k: int|
                0 <= k < structs@.len() ==> struct_decoded(
                    #[trigger] structs@[k],
                    struct_entries(orig.take(i as int))[k],
                ),
            enums@.len() == enum_entries(orig.take(i as int)).len(),
            forall|k: int|
                0 <= k < enums@.len() ==> enum_decoded(
                    #[trigger] enums@[k],
                    enum_entries(orig.take(i as int))[k],
                ),
            unions@.len() == union_entries(orig.take(i as int)).len(),
            forall|k: int|
                0 <= k < unions@.len() ==> union_decoded(
                    #[trigger] unions@[k],
                    union_entries(orig.take(i as int))[k],
                ),
        decreases rest@.len(),
    {
        let entry = rest.remove(0);
        assert(entry == orig[i as int]);
        let ghost prefix = orig.take(i as int);
        let ghost next = orig.take(i + 1);
        assert(next.drop_last() =~= prefix);
        assert(next.last() == entry);
        match entry {
            SpecEntry::Function(f) => {
                functions.push(decode_function(f));
            },
            SpecEntry::Struct(s) => {
                structs.push(decode_struct(s));
            },
            SpecEntry::Union(u) => {
                unions.push(decode_union(u));
            },
            SpecEntry::Enum(e) => {
                enums.push(decode_enum(e));
            },
            SpecEntry::ErrorEnum(e) => {
                push_error_codes(&mut errors, e);
            },
        }
        i = i + 1;
        assert(rest@ =~= orig.skip(i as int));
    }
    assert(orig.take(i as int) =~= orig);
    ContractSpec { errors, functions, structs, name: None, version: None, enums, unions }
}

/// `res` is what decoding the WebAssembly module `wasm` gives: the
/// specification that the entries of its `contractspecv0` section declare, or
/// the error that kept the section from being found.
pub open spec fn contract_spec_decoded(wasm: Seq<u8>, res: GratResult<ContractSpec>) -> bool {
    match spec_section(wasm_payloads(wasm)) {
        Ok(raw) => res matches Ok(spec) && spec_decoded(spec, xdr_spec_entries(raw)),
        Err(msg) => res matches Err(GratError::SpecError(m)) && m@ == msg,
    }
}

/// Decodes the specification of a contract from its WebAssembly module: the
/// entries of its `contractspecv0` section, read one after another until one
/// cannot be read, become the contract's functions, error codes, structs,
/// enums and unions.
pub fn decode_contract_spec(wasm_bytes: &[u8]) -> (res: GratResult<ContractSpec>)
    ensures
        contract_spec_decoded(wasm_bytes@, res),
{
    let raw = match SpecParser::extract_spec(wasm_bytes) {
        Ok(raw) => raw,
        Err(e) => return Err(e),
    };
    let entries = read_spec_entries(raw.as_slice());
    Ok(decode_spec_entries(entries))
}

/// The position of the first error entry with code `code`, if any.
pub open spec fn first_with_code(errors: Seq<ContractErrorEntry>, code: u32, i: int) -> bool {
    &&& 0 <= i < errors.len()
    &&& errors[i].code == code
    &&& forall|j: int| 0 <= j < i ==> (#[trigger] errors[j]).code != code
}

/// The error entry for an error code: the first one with that code.
pub fn resolve_error_code(spec: &ContractSpec, error_code: u32) -> (res: Option<&ContractErrorEntry>)
    ensures
        match res {
            Some(e) => exists|i: int| first_with_code(spec.errors@, error_code, i) && spec.errors@[i] == *e,
            None => forall|i: int| 0 <= i < spec.errors@.len() ==> (#[trigger] spec.errors@[i]).code != error_code,
        },
{
    let mut i: usize = 0;
    while i < spec.errors.len()
        invariant
            i <= spec.errors@.len(),
            forall|j: int| 0 <= j < i ==> (#[trigger] spec.errors@[j]).code != error_code,
        decreases spec.errors@.len() - i,
    {
        if spec.errors[i].code == error_code {
            assert(first_with_code(spec.errors@, error_code, i as int));
            return Some(&spec.errors[i]);
        }
        i = i + 1;
    }
    None
}

} // verus!

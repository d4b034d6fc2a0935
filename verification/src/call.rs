//! Decoding of contract function calls: which of the contract's functions a
//! call is decoded by, by which type each argument is decoded, and how the
//! decoded values are shown.

use vstd::prelude::*;

use serde_json::Value;

use crate::spec::{ContractFunction, ContractSpec};
use crate::text::str_eq;
use crate::type_def::TypeDef;

verus! {

/// `serde_json::Value`, a decoded argument or return value.
#[verifier::external_type_specification]
#[verifier::external_body]
pub struct ExJsonValue(Value);

/// A fully decoded representation of a Soroban contract function invocation.
#[derive(Debug, Clone, PartialEq)]
pub struct DecodedFunctionCall {
    pub function_name: String,
    pub arguments: Vec<Value>,
    pub formatted_arguments: Vec<String>,
    pub return_value: Option<Value>,
    pub formatted_return_value: Option<String>,
}

/// Decoder for contract function calls: it finds the function that a call is
/// decoded by and puts the decoded values together with their display text.
#[derive(Debug, Clone, Copy, Default)]
pub struct FunctionCallDecoder;

/// What `serde_json::Value::as_str` gives for a value: the contents of a
/// JSON string, `None` for any other value.
pub uninterp spec fn json_str_contents(v: Value) -> Option<Seq<char>>;

/// The contents of a JSON string value; `None` for any other value.
///
/// Claim of `Value::as_str`: its result depends on the value alone.
#[verifier::external_body]
fn json_string_contents(v: &Value) -> (res: Option<String>)
    ensures
        match res {
            Some(s) => json_str_contents(*v) == Some(s@),
            None => json_str_contents(*v) is None,
        },
{
    v.as_str().map(|s| s.to_string())
}

/// The compact JSON text that `serde_json::to_string` writes for a value (or
/// its `Display` text should that fail).
pub uninterp spec fn json_serialized(v: Value) -> Seq<char>;

/// The compact JSON text of a value, as `serde_json::to_string` writes it
/// (or its `Display` text should that fail).
///
/// Claim of `serde_json::to_string`: its result depends on the value alone.
#[verifier::external_body]
fn json_text(v: &Value) -> (res: String)
    ensures
        res@ == json_serialized(*v),
{
    serde_json::to_string(v).unwrap_or_else(|_| v.to_string())
}

/// How a decoded value is shown: a JSON string as its contents, any other
/// value as its JSON text.
pub open spec fn decoded_value_text(v: Value) -> Seq<char> {
    match json_str_contents(v) {
        Some(s) => s,
        None => json_serialized(v),
    }
}

/// The display text of a decoded value: a string as its contents, any other
/// value as JSON.
pub fn format_decoded_value(v: &Value) -> (res: String)
    ensures
        res@ == decoded_value_text(*v),
{
    match json_string_contents(v) {
        Some(s) => s,
        None => json_text(v),
    }
}

/// `f` is the first function of `fs` named `name`.
pub open spec fn first_named(fs: Seq<ContractFunction>, name: Seq<char>, i: int) -> bool {
    &&& 0 <= i < fs.len()
    &&& fs[i].name@ == name
    &&& forall|j: int| 0 <= j < i ==> (#[trigger] fs[j]).name@ != name
}

impl FunctionCallDecoder {
    /// A new decoder.
    pub fn new() -> (res: Self)
        ensures
            res == FunctionCallDecoder,
    {
        FunctionCallDecoder
    }

    /// The function of the contract that a call of `func_name` is decoded by:
    /// the first one with that name, if any.
    pub fn matching_function<'a>(&self, contract_spec: &'a ContractSpec, func_name: &str) -> (res: Option<&'a ContractFunction>)
        ensures
            match res {
                Some(f) => exists|i: int| first_named(contract_spec.functions@, func_name@, i) && contract_spec.functions@[i] == *f,
                None => forall|i: int| 0 <= i < contract_spec.functions@.len() ==> (#[trigger] contract_spec.functions@[i]).name@ != func_name@,
            },
    {
        let fs = &contract_spec.functions;
        let mut i: usize = 0;
        while i < fs.len()
            invariant
                fs == &contract_spec.functions,
                i <= fs@.len(),
                forall|j: int| 0 <= j < i ==> (#[trigger] fs@[j]).name@ != func_name@,
            decreases fs@.len() - i,
        {
            if str_eq(fs[i].name.as_str(), func_name) {
                assert(first_named(fs@, func_name@, i as int));
                return Some(&fs[i]);
            }
            i = i + 1;
        }
        None
    }

    /// The type by which argument `i` of a call of `func` is decoded: that of
    /// its `i`-th parameter, if it has one.
    pub fn argument_type<'a>(&self, func: &'a ContractFunction, i: usize) -> (res: Option<&'a TypeDef>)
        ensures
            i < func.param_defs@.len() ==> res == Some(&func.param_defs@[i as int].1),
            i >= func.param_defs@.len() ==> res is None,
    {
        if i < func.param_defs.len() {
            Some(&func.param_defs[i].1)
        } else {
            None
        }
    }

    /// Puts a decoded call together: its name, its decoded arguments and
    /// return value, and the display text of each.
    pub fn decoded_call(&self, func_name: &str, arguments: Vec<Value>, return_value: Option<Value>) -> (res: DecodedFunctionCall)
        ensures
            res.function_name@ == func_name@,
            res.arguments@ == arguments@,
            res.formatted_arguments@.len() == arguments@.len(),
            res.return_value == return_value,
            res.formatted_return_value is Some <==> return_value is Some,
            forall|i: int|
                0 <= i < arguments@.len() ==> (#[trigger] res.formatted_arguments@[i])@
                    == decoded_value_text(arguments@[i]),
            res.formatted_return_value matches Some(t) ==> return_value matches Some(v)
                && t@ == decoded_value_text(v),
    {
        let mut formatted_arguments: Vec<String> = Vec::new();
        let mut i: usize = 0;
        while i < arguments.len()
            invariant
                i <= arguments@.len(),
                formatted_arguments@.len() == i,
                forall|k: int|
                    0 <= k < i ==> (#[trigger] formatted_arguments@[k])@ == decoded_value_text(
                        arguments@[k],
                    ),
            decreases arguments@.len() - i,
        {
            formatted_arguments.push(format_decoded_value(&arguments[i]));
            i = i + 1;
        }
        let formatted_return_value = match &return_value {
            Some(v) => Some(format_decoded_value(v)),
            None => None,
        };
        DecodedFunctionCall {
            function_name: String::from_str(func_name),
            arguments,
            formatted_arguments,
            return_value,
            formatted_return_value,
        }
    }
}

} // verus!

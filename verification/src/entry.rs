//! The entries of a contract's `contractspecv0` section, as the library reads
//! them: one entry per function, struct, union, enum or error enum that the
//! contract declares, with the names, documentation and types that it gives.

use vstd::prelude::*;

use crate::type_def::TypeDef;

verus! {

/// One parameter of a function entry.
#[derive(Debug, Clone)]
pub struct SpecFunctionInput {
    pub doc: String,
    pub name: String,
    pub type_def: TypeDef,
}

/// A function that the contract exports.
#[derive(Debug, Clone)]
pub struct SpecFunctionEntry {
    pub doc: String,
    pub name: String,
    pub inputs: Vec<SpecFunctionInput>,
    /// At most one output type; none means the function returns nothing.
    pub outputs: Vec<TypeDef>,
}

/// One field of a struct entry.
#[derive(Debug, Clone)]
pub struct SpecStructField {
    pub doc: String,
    pub name: String,
    pub type_def: TypeDef,
}

/// A user-defined struct.
#[derive(Debug, Clone)]
pub struct SpecStructEntry {
    pub doc: String,
    pub name: String,
    pub fields: Vec<SpecStructField>,
}

/// One case of a union entry: without a value, or carrying a tuple of values.
#[derive(Debug, Clone)]
pub enum SpecUnionCase {
    Void { doc: String, name: String },
    Tuple { doc: String, name: String, types: Vec<TypeDef> },
}

/// A user-defined union.
#[derive(Debug, Clone)]
pub struct SpecUnionEntry {
    pub doc: String,
    pub name: String,
    pub cases: Vec<SpecUnionCase>,
}

/// One case of an enum or of an error enum, with its numeric value.
#[derive(Debug, Clone)]
pub struct SpecEnumCase {
    pub doc: String,
    pub name: String,
    pub value: u32,
}

/// A user-defined enum, or an enum of the contract's error codes.
#[derive(Debug, Clone)]
pub struct SpecEnumEntry {
    pub doc: String,
    pub name: String,
    pub cases: Vec<SpecEnumCase>,
}

/// One entry of a contract specification.
#[derive(Debug, Clone)]
pub enum SpecEntry {
    Function(SpecFunctionEntry),
    Struct(SpecStructEntry),
    Union(SpecUnionEntry),
    Enum(SpecEnumEntry),
    ErrorEnum(SpecEnumEntry),
}

} // verus!

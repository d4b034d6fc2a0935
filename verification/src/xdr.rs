//! Reading the XDR-encoded entries of a contract specification section.
//!
//! The decoding itself is done by the `stellar-xdr` crate; what it returns is
//! carried over one for one into the library's [`SpecEntry`] model.

use vstd::prelude::*;

use stellar_xdr::curr::{
    Limited, Limits, ReadXdr, ScSpecEntry, ScSpecFunctionV0, ScSpecTypeDef, ScSpecUdtEnumV0,
    ScSpecUdtErrorEnumV0, ScSpecUdtStructV0, ScSpecUdtUnionCaseV0, ScSpecUdtUnionV0,
};

use crate::entry::{
    SpecEntry, SpecEnumCase, SpecEnumEntry, SpecFunctionEntry, SpecFunctionInput, SpecStructEntry,
    SpecStructField, SpecUnionCase, SpecUnionEntry,
};
use crate::type_def::TypeDef;

verus! {

/// `stellar_xdr::curr::ScSpecEntry`, an entry of a specification section.
#[verifier::external_type_specification]
#[verifier::external_body]
pub struct ExScSpecEntry(ScSpecEntry);

/// `stellar_xdr::curr::ScSpecTypeDef`, a type in a specification entry.
#[verifier::external_type_specification]
#[verifier::external_body]
pub struct ExScSpecTypeDef(ScSpecTypeDef);

/// `stellar_xdr::curr::ScSpecFunctionV0`, a function entry.
#[verifier::external_type_specification]
#[verifier::external_body]
pub struct ExScSpecFunctionV0(ScSpecFunctionV0);

/// `stellar_xdr::curr::ScSpecUdtStructV0`, a struct entry.
#[verifier::external_type_specification]
#[verifier::external_body]
pub struct ExScSpecUdtStructV0(ScSpecUdtStructV0);

/// `stellar_xdr::curr::ScSpecUdtUnionV0`, a union entry.
#[verifier::external_type_specification]
#[verifier::external_body]
pub struct ExScSpecUdtUnionV0(ScSpecUdtUnionV0);

/// `stellar_xdr::curr::ScSpecUdtEnumV0`, an enum entry.
#[verifier::external_type_specification]
#[verifier::external_body]
pub struct ExScSpecUdtEnumV0(ScSpecUdtEnumV0);

/// `stellar_xdr::curr::ScSpecUdtErrorEnumV0`, an error enum entry.
#[verifier::external_type_specification]
#[verifier::external_body]
pub struct ExScSpecUdtErrorEnumV0(ScSpecUdtErrorEnumV0);

/// Carries a decoded `ScSpecTypeDef` over into a [`TypeDef`], variant for
/// variant; the variants without parameters are carried over by
/// `scalar_type_model`.
#[verifier::external_body]
fn type_def_model(t: &ScSpecTypeDef) -> TypeDef {
    let b = |inner: &ScSpecTypeDef| Box::new(type_def_model(inner));
    match t {
        ScSpecTypeDef::Option(o) => TypeDef::OptionOf(b(&o.value_type)),
        ScSpecTypeDef::Result(r) => TypeDef::ResultOf(b(&r.ok_type), b(&r.error_type)),
        ScSpecTypeDef::Vec(v) => TypeDef::VecOf(b(&v.element_type)),
        ScSpecTypeDef::Map(m) => TypeDef::MapOf(b(&m.key_type), b(&m.value_type)),
        ScSpecTypeDef::Tuple(u) => TypeDef::Tuple(u.value_types.iter().map(type_def_model).collect()),
        ScSpecTypeDef::BytesN(n) => TypeDef::BytesN(n.n),
        ScSpecTypeDef::Udt(u) => TypeDef::Udt(u.name.to_string()),
        other => scalar_type_model(other),
    }
}

/// Carries a decoded `ScSpecTypeDef` variant without parameters over into the
/// [`TypeDef`] variant of the same name (`String` into `Str`); the variants
/// with parameters go back to `type_def_model`.
#[verifier::external_body]
fn scalar_type_model(t: &ScSpecTypeDef) -> TypeDef {
    match t {
        ScSpecTypeDef::Val => TypeDef::Val, ScSpecTypeDef::Bool => TypeDef::Bool,
        ScSpecTypeDef::Void => TypeDef::Void, ScSpecTypeDef::Error => TypeDef::Error,
        ScSpecTypeDef::U32 => TypeDef::U32, ScSpecTypeDef::I32 => TypeDef::I32,
        ScSpecTypeDef::U64 => TypeDef::U64, ScSpecTypeDef::I64 => TypeDef::I64,
        ScSpecTypeDef::Timepoint => TypeDef::Timepoint, ScSpecTypeDef::Duration => TypeDef::Duration,
        ScSpecTypeDef::U128 => TypeDef::U128, ScSpecTypeDef::I128 => TypeDef::I128,
        ScSpecTypeDef::U256 => TypeDef::U256, ScSpecTypeDef::I256 => TypeDef::I256,
        ScSpecTypeDef::Bytes => TypeDef::Bytes, ScSpecTypeDef::String => TypeDef::Str,
        ScSpecTypeDef::Symbol => TypeDef::Symbol, ScSpecTypeDef::Address => TypeDef::Address,
        _ => type_def_model(t),
    }
}

/// Carries a decoded `ScSpecFunctionV0` over into a [`SpecFunctionEntry`].
#[verifier::external_body]
fn function_model(f: ScSpecFunctionV0) -> SpecFunctionEntry {
    SpecFunctionEntry {
        doc: f.doc.to_string(),
        name: f.name.to_string(),
        inputs: f.inputs.iter().map(|i| SpecFunctionInput { doc: i.doc.to_string(), name: i.name.to_string(), type_def: type_def_model(&i.type_) }).collect(),
        outputs: f.outputs.iter().map(type_def_model).collect(),
    }
}

/// Carries a decoded `ScSpecUdtStructV0` over into a [`SpecStructEntry`].
#[verifier::external_body]
fn struct_model(s: ScSpecUdtStructV0) -> SpecStructEntry {
    SpecStructEntry {
        doc: s.doc.to_string(),
        name: s.name.to_string(),
        fields: s.fields.iter().map(|f| SpecStructField { doc: f.doc.to_string(), name: f.name.to_string(), type_def: type_def_model(&f.type_) }).collect(),
    }
}

/// Carries a decoded `ScSpecUdtUnionV0` over into a [`SpecUnionEntry`].
#[verifier::external_body]
fn union_model(u: ScSpecUdtUnionV0) -> SpecUnionEntry {
    SpecUnionEntry {
        doc: u.doc.to_string(),
        name: u.name.to_string(),
        cases: u.cases.iter().map(|c| match c {
            ScSpecUdtUnionCaseV0::VoidV0(v) => SpecUnionCase::Void { doc: v.doc.to_string(), name: v.name.to_string() },
            ScSpecUdtUnionCaseV0::TupleV0(t) => SpecUnionCase::Tuple { doc: t.doc.to_string(), name: t.name.to_string(), types: t.type_.iter().map(type_def_model).collect() },
        }).collect(),
    }
}

/// Carries a decoded `ScSpecUdtEnumV0` over into a [`SpecEnumEntry`].
#[verifier::external_body]
fn enum_model(e: ScSpecUdtEnumV0) -> SpecEnumEntry {
    SpecEnumEntry {
        doc: e.doc.to_string(),
        name: e.name.to_string(),
        cases: e.cases.iter().map(|c| SpecEnumCase { doc: c.doc.to_string(), name: c.name.to_string(), value: c.value }).collect(),
    }
}

/// Carries a decoded `ScSpecUdtErrorEnumV0` over into a [`SpecEnumEntry`].
#[verifier::external_body]
fn error_enum_model(e: ScSpecUdtErrorEnumV0) -> SpecEnumEntry {
    SpecEnumEntry {
        doc: e.doc.to_string(),
        name: e.name.to_string(),
        cases: e.cases.iter().map(|c| SpecEnumCase { doc: c.doc.to_string(), name: c.name.to_string(), value: c.value }).collect(),
    }
}

/// Carries a decoded `ScSpecEntry` over into a [`SpecEntry`], variant for variant.
#[verifier::external_body]
fn entry_model(e: ScSpecEntry) -> SpecEntry {
    match e {
        ScSpecEntry::FunctionV0(f) => SpecEntry::Function(function_model(f)),
        ScSpecEntry::UdtStructV0(s) => SpecEntry::Struct(struct_model(s)),
        ScSpecEntry::UdtUnionV0(u) => SpecEntry::Union(union_model(u)),
        ScSpecEntry::UdtEnumV0(n) => SpecEntry::Enum(enum_model(n)),
        ScSpecEntry::UdtErrorEnumV0(n) => SpecEntry::ErrorEnum(error_enum_model(n)),
    }
}

/// What `ScSpecEntry::read_xdr` (without limits) decodes from the start of
/// `bytes`, carried over into a [`SpecEntry`], with the number of bytes it
/// took; `None` where it reports an error.
pub uninterp spec fn xdr_spec_entry(bytes: Seq<u8>) -> Option<(SpecEntry, usize)>;

/// Decodes one entry with `ScSpecEntry::read_xdr` from the start of `bytes`,
/// and tells how many bytes it took.
///
/// Claims of `read_xdr`: the result is a function of the bytes alone, and an
/// entry that it decodes takes at least the four bytes of its discriminant
/// and no more bytes than there are.
#[verifier::external_body]
fn read_spec_entry(bytes: &[u8]) -> (res: Option<(SpecEntry, usize)>)
    ensures
        res == xdr_spec_entry(bytes@),
        res matches Some((_, taken)) ==> 4 <= taken <= bytes@.len(),
{
    let mut cursor = std::io::Cursor::new(bytes);
    let entry = ScSpecEntry::read_xdr(&mut Limited::new(&mut cursor, Limits::none())).ok()?;
    Some((entry_model(entry), cursor.position() as usize))
}

/// The entries decoded one after another from `raw`, starting at byte `pos`,
/// up to the first position where no entry can be decoded.
pub open spec fn xdr_spec_entries_from(raw: Seq<u8>, pos: int) -> Seq<SpecEntry>
    decreases raw.len() - pos,
{
    if 0 <= pos <= raw.len() {
        match xdr_spec_entry(raw.subrange(pos, raw.len() as int)) {
            Some((e, taken)) => if 0 < taken <= raw.len() - pos {
                seq![e] + xdr_spec_entries_from(raw, pos + taken)
            } else {
                Seq::empty()
            },
            None => Seq::empty(),
        }
    } else {
        Seq::empty()
    }
}

/// The entries of a specification section: all that can be decoded one after
/// another from its start.
pub open spec fn xdr_spec_entries(raw: Seq<u8>) -> Seq<SpecEntry> {
    xdr_spec_entries_from(raw, 0)
}

/// Decodes the entries of a specification section, one after another, until
/// one cannot be decoded or the bytes run out.
pub fn read_spec_entries(raw: &[u8]) -> (res: Vec<SpecEntry>)
    ensures
        res@ == xdr_spec_entries(raw@),
{
    let mut res: Vec<SpecEntry> = Vec::new();
    let mut pos: usize = 0;
    loop
        invariant
            pos <= raw@.len(),
            res@ + xdr_spec_entries_from(raw@, pos as int) == xdr_spec_entries(raw@),
        ensures
            res@ == xdr_spec_entries(raw@),
        decreases raw@.len() - pos,
    {
        let rest = vstd::slice::slice_subrange(raw, pos, raw.len());
        match read_spec_entry(rest) {
            Some((entry, taken)) => {
                let next = pos + taken;
                let ghost tail = xdr_spec_entries_from(raw@, next as int);
                assert(xdr_spec_entries_from(raw@, pos as int) == seq![entry] + tail);
                let ghost before = res@;
                res.push(entry);
                assert(res@ + tail =~= before + (seq![entry] + tail));
                pos = next;
            },
            None => {
                assert(res@ =~= res@ + xdr_spec_entries_from(raw@, pos as int));
                break;
            },
        }
    }
    res
}

} // verus!

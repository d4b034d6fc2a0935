//! The types that a contract specification speaks of, and their names.

use vstd::prelude::*;

use crate::text::{decimal, push_decimal};

verus! {

/// A type in a contract specification: a plain value type, or a type built
/// from others (`Option<T>`, `Result<T, E>`, `Vec<T>`, `Map<K, V>`, tuples),
/// a fixed-length byte array, or a user-defined type named by the contract.
#[derive(Debug)]
pub enum TypeDef {
    Val,
    Bool,
    Void,
    Error,
    U32,
    I32,
    U64,
    I64,
    Timepoint,
    Duration,
    U128,
    I128,
    U256,
    I256,
    Bytes,
    Str,
    Symbol,
    Address,
    OptionOf(Box<TypeDef>),
    ResultOf(Box<TypeDef>, Box<TypeDef>),
    VecOf(Box<TypeDef>),
    MapOf(Box<TypeDef>, Box<TypeDef>),
    Tuple(Vec<TypeDef>),
    BytesN(u32),
    Udt(String),
}

/// The name of a type as contract tooling displays it, such as `Vec<U32>`,
/// `Map<Symbol, I128>`, `(U32, Bool)` or `BytesN<32>`.
pub open spec fn type_label(t: TypeDef) -> Seq<char>
    decreases t, 1nat,
{
    match t {
        TypeDef::Val => "Val"@,
        TypeDef::Bool => "Bool"@,
        TypeDef::Void => "Void"@,
        TypeDef::Error => "Error"@,
        TypeDef::U32 => "U32"@,
        TypeDef::I32 => "I32"@,
        TypeDef::U64 => "U64"@,
        TypeDef::I64 => "I64"@,
        TypeDef::Timepoint => "Timepoint"@,
        TypeDef::Duration => "Duration"@,
        TypeDef::U128 => "U128"@,
        TypeDef::I128 => "I128"@,
        TypeDef::U256 => "U256"@,
        TypeDef::I256 => "I256"@,
        TypeDef::Bytes => "Bytes"@,
        TypeDef::Str => "String"@,
        TypeDef::Symbol => "Symbol"@,
        TypeDef::Address => "Address"@,
        TypeDef::OptionOf(v) => "Option<"@ + type_label(*v) + ">"@,
        TypeDef::ResultOf(ok, err) => "Result<"@ + type_label(*ok) + ", "@ + type_label(*err) + ">"@,
        TypeDef::VecOf(e) => "Vec<"@ + type_label(*e) + ">"@,
        TypeDef::MapOf(k, v) => "Map<"@ + type_label(*k) + ", "@ + type_label(*v) + ">"@,
        TypeDef::Tuple(elems) => "("@ + type_labels_joined(elems@, elems@.len() as int) + ")"@,
        TypeDef::BytesN(n) => "BytesN<"@ + decimal(n as nat) + ">"@,
        TypeDef::Udt(name) => name@,
    }
}

/// The names of the first `n` types of `ts`, separated by `", "`.
pub open spec fn type_labels_joined(ts: Seq<TypeDef>, n: int) -> Seq<char>
    decreases ts, 0nat, n,
{
    if n <= 0 || n > ts.len() {
        Seq::empty()
    } else if n == 1 {
        type_label(ts[0])
    } else {
        type_labels_joined(ts, n - 1) + ", "@ + type_label(ts[n - 1])
    }
}

/// The types without parameters: the scalar types that the XDR definition
/// names one by one.
pub open spec fn is_scalar(t: TypeDef) -> bool {
    !(t is OptionOf || t is ResultOf || t is VecOf || t is MapOf || t is Tuple || t is BytesN
        || t is Udt)
}

/// Different scalar types are never shown under the same name.
pub proof fn lemma_scalar_names_differ(a: TypeDef, b: TypeDef)
    requires
        is_scalar(a),
        is_scalar(b),
        a != b,
    ensures
        type_label(a) != type_label(b),
{
    reveal_strlit("Val");
    reveal_strlit("Bool");
    reveal_strlit("Void");
    reveal_strlit("Error");
    reveal_strlit("U32");
    reveal_strlit("I32");
    reveal_strlit("U64");
    reveal_strlit("I64");
    reveal_strlit("Timepoint");
    reveal_strlit("Duration");
    reveal_strlit("U128");
    reveal_strlit("I128");
    reveal_strlit("U256");
    reveal_strlit("I256");
    reveal_strlit("Bytes");
    reveal_strlit("String");
    reveal_strlit("Symbol");
    reveal_strlit("Address");
    let la = type_label(a);
    let lb = type_label(b);
    if la == lb {
        assert(la.len() == lb.len());
        assert(la[0] == lb[0]);
        assert(la[1] == lb[1]);
        assert(la.len() > 2 ==> la[2] == lb[2]);
    }
}

/// The integer types: whether they are signed, and how many bits wide.
pub open spec fn integer_width(t: TypeDef) -> Option<(bool, nat)> {
    match t {
        TypeDef::U32 => Some((false, 32)),
        TypeDef::I32 => Some((true, 32)),
        TypeDef::U64 => Some((false, 64)),
        TypeDef::I64 => Some((true, 64)),
        TypeDef::U128 => Some((false, 128)),
        TypeDef::I128 => Some((true, 128)),
        TypeDef::U256 => Some((false, 256)),
        TypeDef::I256 => Some((true, 256)),
        _ => None,
    }
}

/// An integer type is named by `I` when signed or `U` when unsigned,
/// followed by its width in bits: `I64` for the signed 64-bit integers.
pub proof fn lemma_integer_type_names(t: TypeDef)
    ensures
        integer_width(t) matches Some((signed, bits)) ==> type_label(t) == (if signed {
            "I"@
        } else {
            "U"@
        }) + decimal(bits),
{
    reveal_strlit("I");
    reveal_strlit("U");
    reveal_strlit("U32");
    reveal_strlit("I32");
    reveal_strlit("U64");
    reveal_strlit("I64");
    reveal_strlit("U128");
    reveal_strlit("I128");
    reveal_strlit("U256");
    reveal_strlit("I256");
    reveal_with_fuel(decimal, 3);
    assert(decimal(32) =~= seq!['3', '2']);
    assert(decimal(64) =~= seq!['6', '4']);
    assert(decimal(128) =~= seq!['1', '2', '8']);
    assert(decimal(256) =~= seq!['2', '5', '6']);
    if let Some((signed, bits)) = integer_width(t) {
        let prefix = if signed { "I"@ } else { "U"@ };
        assert(type_label(t) =~= prefix + decimal(bits));
    }
}

/// A new string holding the characters of `s`.
fn owned(s: &str) -> (res: String)
    ensures
        res@ == s@,
{
    String::from_str(s)
}

/// Formats a type the way contract tooling displays it: scalar types by
/// their XDR name, parameterised types with their parameters in angle
/// brackets, tuples in parentheses and user-defined types by their name.
pub fn format_type_def(t: &TypeDef) -> (res: String)
    ensures
        res@ == type_label(*t),
    decreases t,
{
    match t {
        TypeDef::Val => owned("Val"),
        TypeDef::Bool => owned("Bool"),
        TypeDef::Void => owned("Void"),
        TypeDef::Error => owned("Error"),
        TypeDef::U32 => owned("U32"),
        TypeDef::I32 => owned("I32"),
        TypeDef::U64 => owned("U64"),
        TypeDef::I64 => owned("I64"),
        TypeDef::Timepoint => owned("Timepoint"),
        TypeDef::Duration => owned("Duration"),
        TypeDef::U128 => owned("U128"),
        TypeDef::I128 => owned("I128"),
        TypeDef::U256 => owned("U256"),
        TypeDef::I256 => owned("I256"),
        TypeDef::Bytes => owned("Bytes"),
        TypeDef::Str => owned("String"),
        TypeDef::Symbol => owned("Symbol"),
        TypeDef::Address => owned("Address"),
        TypeDef::OptionOf(v) => {
            let mut s = owned("Option<");
            let inner = format_type_def(v);
            s.append(inner.as_str());
            s.append(">");
            s
        },
        TypeDef::ResultOf(ok, err) => {
            let mut s = owned("Result<");
            let a = format_type_def(ok);
            let b = format_type_def(err);
            s.append(a.as_str());
            s.append(", ");
            s.append(b.as_str());
            s.append(">");
            s
        },
        TypeDef::VecOf(e) => {
            let mut s = owned("Vec<");
            let inner = format_type_def(e);
            s.append(inner.as_str());
            s.append(">");
            s
        },
        TypeDef::MapOf(k, v) => {
            let mut s = owned("Map<");
            let a = format_type_def(k);
            let b = format_type_def(v);
            s.append(a.as_str());
            s.append(", ");
            s.append(b.as_str());
            s.append(">");
            s
        },
        TypeDef::Tuple(elems) => {
            let mut s = owned("(");
            let mut i: usize = 0;
            while i < elems.len()
                invariant
                    i <= elems@.len(),
                    *t == TypeDef::Tuple(*elems),
                    s@ == "("@ + type_labels_joined(elems@, i as int),
                decreases elems@.len() - i,
            {
                assert(decreases_to!(*t => (*t)->Tuple_0));
                assert(decreases_to!(*elems => elems@));
                assert(decreases_to!(elems@ => elems@[i as int]));
                let e = format_type_def(&elems[i]);
                if i > 0 {
                    s.append(", ");
                }
                s.append(e.as_str());
                i = i + 1;
            }
            s.append(")");
            s
        },
        TypeDef::BytesN(n) => {
            let mut s = owned("BytesN<");
            push_decimal(&mut s, *n);
            s.append(">");
            s
        },
        TypeDef::Udt(name) => name.clone(),
    }
}

/// Two types are the same variant for variant: the same plain type, the
/// same parameters, the same tuple elements in the same order, the same byte
/// length and the same user-defined name.
pub open spec fn same_type(a: TypeDef, b: TypeDef) -> bool
    decreases a, 1nat,
{
    match a {
        TypeDef::OptionOf(x) => b matches TypeDef::OptionOf(y) && same_type(*x, *y),
        TypeDef::ResultOf(x1, x2) => b matches TypeDef::ResultOf(y1, y2) && same_type(*x1, *y1)
            && same_type(*x2, *y2),
        TypeDef::VecOf(x) => b matches TypeDef::VecOf(y) && same_type(*x, *y),
        TypeDef::MapOf(x1, x2) => b matches TypeDef::MapOf(y1, y2) && same_type(*x1, *y1)
            && same_type(*x2, *y2),
        TypeDef::Tuple(xs) => b matches TypeDef::Tuple(ys) && xs@.len() == ys@.len()
            && same_types(xs@, ys@, xs@.len() as int),
        _ => a == b,
    }
}

/// The first `n` types of `xs` and of `ys` are the same, one by one.
pub open spec fn same_types(xs: Seq<TypeDef>, ys: Seq<TypeDef>, n: int) -> bool
    decreases xs, 0nat, n,
{
    if n <= 0 || n > xs.len() {
        true
    } else {
        same_types(xs, ys, n - 1) && same_type(xs[n - 1], ys[n - 1])
    }
}

/// Lists that are the same one by one are the same as lists.
proof fn lemma_same_types(xs: Seq<TypeDef>, ys: Seq<TypeDef>, n: int)
    requires
        0 <= n <= xs.len(),
        forall|k: int| 0 <= k < n ==> same_type(#[trigger] xs[k], ys[k]),
    ensures
        same_types(xs, ys, n),
    decreases n,
{
    if n > 0 {
        lemma_same_types(xs, ys, n - 1);
        assert(same_type(xs[n - 1], ys[n - 1]));
    }
}

impl Clone for TypeDef {
    /// A copy of the type, the same variant for variant.
    fn clone(&self) -> (res: Self)
        ensures
            same_type(res, *self),
        decreases self,
    {
        match self {
            TypeDef::Val => TypeDef::Val,
            TypeDef::Bool => TypeDef::Bool,
            TypeDef::Void => TypeDef::Void,
            TypeDef::Error => TypeDef::Error,
            TypeDef::U32 => TypeDef::U32,
            TypeDef::I32 => TypeDef::I32,
            TypeDef::U64 => TypeDef::U64,
            TypeDef::I64 => TypeDef::I64,
            TypeDef::Timepoint => TypeDef::Timepoint,
            TypeDef::Duration => TypeDef::Duration,
            TypeDef::U128 => TypeDef::U128,
            TypeDef::I128 => TypeDef::I128,
            TypeDef::U256 => TypeDef::U256,
            TypeDef::I256 => TypeDef::I256,
            TypeDef::Bytes => TypeDef::Bytes,
            TypeDef::Str => TypeDef::Str,
            TypeDef::Symbol => TypeDef::Symbol,
            TypeDef::Address => TypeDef::Address,
            TypeDef::OptionOf(v) => TypeDef::OptionOf(Box::new((**v).clone())),
            TypeDef::ResultOf(ok, err) => TypeDef::ResultOf(
                Box::new((**ok).clone()),
                Box::new((**err).clone()),
            ),
            TypeDef::VecOf(e) => TypeDef::VecOf(Box::new((**e).clone())),
            TypeDef::MapOf(k, v) => TypeDef::MapOf(Box::new((**k).clone()), Box::new((**v).clone())),
            TypeDef::Tuple(elems) => {
                let mut out: Vec<TypeDef> = Vec::new();
                let mut i: usize = 0;
                while i < elems.len()
                    invariant
                        i <= elems@.len(),
                        *self == TypeDef::Tuple(*elems),
                        out@.len() == i,
                        forall|k: int| 0 <= k < i ==> same_type(#[trigger] out@[k], elems@[k]),
                    decreases elems@.len() - i,
                {
                    assert(decreases_to!(*self => (*self)->Tuple_0));
                    assert(decreases_to!(*elems => elems@));
                    assert(decreases_to!(elems@ => elems@[i as int]));
                    out.push(elems[i].clone());
                    i = i + 1;
                }
                proof {
                    lemma_same_types(out@, elems@, i as int);
                }
                TypeDef::Tuple(out)
            },
            TypeDef::BytesN(n) => TypeDef::BytesN(*n),
            TypeDef::Udt(name) => TypeDef::Udt(name.clone()),
        }
    }
}

} // verus!

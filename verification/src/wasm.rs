//! Finding a contract's specification section in its WebAssembly module.

use vstd::prelude::*;

use crate::error::{GratError, GratResult};
use crate::text::str_eq;

verus! {

/// One payload of a WebAssembly module as the search for the specification
/// section sees it: a custom section with its name and contents, any other
/// payload, or the error that stopped the parse.
#[derive(Debug, Clone, PartialEq, Eq)]
pub enum WasmPayload {
    Custom { name: String, data: Vec<u8> },
    Other,
    Malformed(String),
}

/// The payloads that `wasmparser::Parser::new(0).parse_all` yields for a
/// module, in order, each carried over into a [`WasmPayload`] (an error as
/// its message).
pub uninterp spec fn wasm_payloads(module: Seq<u8>) -> Seq<WasmPayload>;

/// Runs `wasmparser::Parser::new(0).parse_all` over the module and carries
/// each payload over: a custom section by its name and contents, an error by
/// its `Display` text, any other payload as `Other`.
///
/// Claim of `parse_all`: the payloads are a function of the bytes alone.
#[verifier::external_body]
fn parse_wasm_payloads(module: &[u8]) -> (res: Vec<WasmPayload>)
    ensures
        res@ == wasm_payloads(module@),
{
    wasmparser::Parser::new(0).parse_all(module).map(|p| match p {
        Err(e) => WasmPayload::Malformed(e.to_string()),
        Ok(wasmparser::Payload::CustomSection(s)) => WasmPayload::Custom { name: s.name().to_string(), data: s.data().to_vec() },
        Ok(_) => WasmPayload::Other,
    }).collect()
}

/// The outcome of looking for the `contractspecv0` section among the
/// payloads, in order: its contents if it comes first, the parse error if
/// that comes first, and otherwise the message that it was not found.
pub open spec fn spec_section(ps: Seq<WasmPayload>) -> Result<Seq<u8>, Seq<char>>
    decreases ps.len(),
{
    if ps.len() == 0 {
        Err("contractspecv0 custom section not found"@)
    } else {
        match ps[0] {
            WasmPayload::Malformed(m) => Err("WASM parse error: "@ + m@),
            WasmPayload::Custom { name, data } => if name@ == "contractspecv0"@ {
                Ok(data@)
            } else {
                spec_section(ps.drop_first())
            },
            WasmPayload::Other => spec_section(ps.drop_first()),
        }
    }
}

/// `res` reports `outcome`: the bytes on success, a specification error with
/// the message otherwise.
pub open spec fn section_result_matches(res: GratResult<Vec<u8>>, outcome: Result<Seq<u8>, Seq<char>>) -> bool {
    match outcome {
        Ok(data) => res matches Ok(v) && v@ == data,
        Err(msg) => res matches Err(GratError::SpecError(m)) && m@ == msg,
    }
}

/// Looks for the `contractspecv0` custom section among the payloads of a
/// module, in order, stopping at the first parse error.
pub fn find_spec_section(payloads: Vec<WasmPayload>) -> (res: GratResult<Vec<u8>>)
    ensures
        section_result_matches(res, spec_section(payloads@)),
{
    let ghost orig = payloads@;
    let total: usize = payloads.len();
    let mut rest = payloads;
    let mut i: usize = 0;
    assert(orig.skip(0) =~= orig);
    while rest.len() > 0
        invariant
            orig == payloads@,
            orig.len() == total,
            i <= orig.len(),
            rest@ == orig.skip(i as int),
            spec_section(orig) == spec_section(orig.skip(i as int)),
        decreases rest@.len(),
    {
        let p = rest.remove(0);
        let ghost here = orig.skip(i as int);
        assert(p == here[0]);
        assert(here.len() > 0);
        assert(orig.skip(i as int).drop_first() =~= orig.skip(i + 1));
        match p {
            WasmPayload::Malformed(m) => {
                let mut msg = String::from_str("WASM parse error: ");
                msg.append(m.as_str());
                assert(spec_section(here) == Err::<Seq<u8>, Seq<char>>("WASM parse error: "@ + m@));
                return Err(GratError::SpecError(msg));
            },
            WasmPayload::Custom { name, data } => {
                if str_eq(name.as_str(), "contractspecv0") {
                    assert(spec_section(here) == Ok::<Seq<u8>, Seq<char>>(data@));
                    return Ok(data);
                }
            },
            WasmPayload::Other => {},
        }
        i = i + 1;
        assert(rest@ =~= orig.skip(i as int));
    }
    assert(orig.skip(i as int).len() == 0);
    Err(GratError::SpecError(String::from_str("contractspecv0 custom section not found")))
}

/// The raw bytes of a contract's specification.
#[derive(Debug, Clone, Copy, Default)]
pub struct SpecParser;

impl SpecParser {
    /// The contents of the `contractspecv0` custom section of a WebAssembly
    /// module: the first such section, unless the module fails to parse
    /// before it.
    pub fn extract_spec(wasm_bytes: &[u8]) -> (res: GratResult<Vec<u8>>)
        ensures
            section_result_matches(res, spec_section(wasm_payloads(wasm_bytes@))),
    {
        find_spec_section(parse_wasm_payloads(wasm_bytes))
    }
}

} // verus!

# grat

Tooling around Soroban contracts:

- `src/wasm.rs` finds the `contractspecv0` custom section of a contract's
  WebAssembly module (the module itself is parsed by `wasmparser`).
- `src/xdr.rs` reads the XDR-encoded entries of that section (decoded by
  `stellar-xdr`) into the model of `src/entry.rs`.
- `src/spec.rs` turns the entries into a `ContractSpec`: functions with named
  parameter and return types, error codes named `Enum::Case`, structs, enums
  and unions; `resolve_error_code` looks an error code up.
- `src/type_def.rs` names the types of a specification (`Vec<I128>`, ...).
- `src/call.rs` picks the function a call is decoded by and shows decoded
  values.
- `src/linter.rs` checks error taxonomies, entry by entry and across files.
- `src/summary.rs` groups diagnostic reports into summary rows, most severe
  and most frequent first.
- `src/text.rs` holds the character-level helpers.

`app/` reads taxonomy directories and prints summary tables; `tests/` runs
the library on concrete inputs.

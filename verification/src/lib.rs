//! Decoding of Soroban contract specifications, linting of error
//! taxonomies and summaries of diagnostic reports.

pub mod call;
pub mod entry;
pub mod error;
pub mod linter;
pub mod spec;
pub mod summary;
pub mod text;
pub mod type_def;
pub mod wasm;
pub mod xdr;

//! The library's error type.

use vstd::prelude::*;

verus! {

/// What can go wrong while decoding a contract or linting a taxonomy.
#[derive(Debug, Clone, PartialEq, Eq)]
pub enum GratError {
    /// The contract's WebAssembly or its specification section could not be read.
    SpecError(String),
    /// The taxonomy files could not be read.
    TaxonomyError(String),
}

/// The result of an operation that can fail with a [`GratError`].
pub type GratResult<T> = Result<T, GratError>;

} // verus!

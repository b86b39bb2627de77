//! Errors of the select operation.

use vstd::prelude::*;

verus! {

/// Errors that can occur during select operations.
#[derive(Debug)]
pub enum SelectError {
    /// The selector is not valid CSS for the engine
    InvalidSelector(String),
    /// No matches found
    NoMatches(String),
    /// Parser error
    ParseError(String),
    /// The selection engine failed
    ExecutionError(String),
    /// Selector type not supported
    SelectorTypeNotSupported(String),
    /// Operation not available
    NotImplemented(String),
    /// Other error
    Other(String),
}

} // verus!

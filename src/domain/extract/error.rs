//! Errors of the extract operation.

use vstd::prelude::*;

verus! {

/// Errors that can occur during extract operations.
#[derive(Debug)]
pub enum ExtractError {
    /// Invalid extraction rule
    InvalidRule(String),
    /// Validation error
    ValidationError(String),
    /// Parsing error
    ParsingError(String),
    /// Selection error
    SelectionError(String),
    /// Type conversion error
    ConversionError(String),
    /// Missing required field
    MissingRequiredField(String),
    /// Selector execution error
    SelectorError(String),
    /// Operation not available
    NotImplemented(String),
    /// Other error
    Other(String),
}

} // verus!

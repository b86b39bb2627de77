//! Errors of the parse operation.

use vstd::prelude::*;

verus! {

/// Errors that can occur during parse operations.
#[derive(Debug)]
pub enum ParseError {
    /// Invalid HTML
    InvalidHtml(String),
    /// Encoding error
    EncodingError(String),
    /// HTML size exceeded limit
    SizeExceeded(String),
    /// Parser error
    ParserError(String),
    /// Operation not available
    NotImplemented(String),
    /// The tokenizer refused the input
    ParsingFailed(String),
    /// Other error
    Other(String),
}

} // verus!

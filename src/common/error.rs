//! Errors shared by several modules.

use vstd::prelude::*;

verus! {

/// Errors that can occur across modules.
#[derive(Debug)]
pub enum CommonError {
    /// Configuration error
    ConfigError(String),
    /// Invalid input
    InvalidInput(String),
    /// I/O error, by its message
    IoError(String),
    /// Serialization or deserialization error
    SerializationError(String),
    /// Internal error
    InternalError(String),
}

impl CommonError {
    /// A configuration error.
    pub fn config(msg: String) -> (r: CommonError)
        ensures
            r matches CommonError::ConfigError(m) && m@ == msg@,
    {
        CommonError::ConfigError(msg)
    }

    /// An invalid-input error.
    pub fn invalid_input(msg: String) -> (r: CommonError)
        ensures
            r matches CommonError::InvalidInput(m) && m@ == msg@,
    {
        CommonError::InvalidInput(msg)
    }

    /// A serialization error.
    pub fn serialization(msg: String) -> (r: CommonError)
        ensures
            r matches CommonError::SerializationError(m) && m@ == msg@,
    {
        CommonError::SerializationError(msg)
    }

    /// An internal error.
    pub fn internal(msg: String) -> (r: CommonError)
        ensures
            r matches CommonError::InternalError(m) && m@ == msg@,
    {
        CommonError::InternalError(msg)
    }

    /// The HTTP status that the error maps onto: 400 for invalid input,
    /// 500 otherwise.
    pub fn status(&self) -> (r: u16)
        ensures
            r == if self is InvalidInput { 400u16 } else { 500u16 },
    {
        match self {
            CommonError::InvalidInput(_) => 400,
            _ => 500,
        }
    }
}

} // verus!

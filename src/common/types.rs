//! Small value types.

use vstd::prelude::*;

verus! {

/// Identifier of a request, for tracing it across the system.
#[derive(Debug, Clone)]
pub struct RequestId(pub String);

impl RequestId {
    /// A request id with the given text.
    pub fn from_string(id: String) -> (r: RequestId)
        ensures
            r.0@ == id@,
    {
        RequestId(id)
    }

    /// The id's text.
    pub fn as_str(&self) -> (r: &str)
        ensures
            r@ == self.0@,
    {
        self.0.as_str()
    }

    /// The id's text, by value.
    pub fn into_string(self) -> (r: String)
        ensures
            r@ == self.0@,
    {
        self.0
    }
}

/// A size in bytes that callers promise to be non-zero.
#[derive(Clone, Copy, Debug, PartialEq, Eq)]
pub struct ContentSize(pub usize);

impl ContentSize {
    /// Creates a content size, refusing zero.
    pub fn new(size: usize) -> (r: Result<ContentSize, String>)
        ensures
            r is Ok <==> size > 0,
            r matches Ok(c) ==> c.0 == size,
    {
        if size == 0 {
            Err("Content size cannot be zero".to_string())
        } else {
            Ok(ContentSize(size))
        }
    }

    /// Creates a content size without checking it.
    pub fn new_unchecked(size: usize) -> (r: ContentSize)
        ensures
            r.0 == size,
    {
        ContentSize(size)
    }

    /// The size in bytes.
    pub fn as_bytes(&self) -> (r: usize)
        ensures
            r == self.0,
    {
        self.0
    }
}

} // verus!

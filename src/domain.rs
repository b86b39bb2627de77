//! The four operations: fetch, parse, select and extract.

pub mod extract;
pub mod fetch;
pub mod parse;
pub mod select;

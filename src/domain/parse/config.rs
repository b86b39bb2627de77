//! Configuration for parse operations.

use vstd::prelude::*;

verus! {

/// Configuration for parse operations.
#[derive(Debug, Clone, Copy)]
pub struct ParseConfig {
    /// Detect encoding automatically
    pub detect_encoding: bool,
    /// Handle malformed HTML
    pub handle_malformed: bool,
    /// Maximum HTML size in bytes
    pub max_size_bytes: usize,
    /// Extract attributes during parsing
    pub extract_attributes: bool,
    /// Include hierarchy information
    pub include_hierarchy: bool,
}

impl Default for ParseConfig {
    fn default() -> (r: ParseConfig)
        ensures
            r.detect_encoding,
            r.handle_malformed,
            r.max_size_bytes == 104857600,
            r.extract_attributes,
            !r.include_hierarchy,
    {
        ParseConfig {
            detect_encoding: true,
            handle_malformed: true,
            max_size_bytes: 104857600,
            extract_attributes: true,
            include_hierarchy: false,
        }
    }
}

} // verus!

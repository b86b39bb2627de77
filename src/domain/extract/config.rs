//! Configuration for extract operations.

use vstd::prelude::*;

verus! {

/// Configuration for extract operations.
#[derive(Debug, Clone)]
pub struct ExtractConfig {
    /// Trim whitespace from extracted values
    pub trim_whitespace: bool,
    /// Decode HTML entities
    pub decode_html_entities: bool,
    /// Maximum number of fields to extract
    pub max_fields: usize,
    /// Validate extracted data types
    pub validate_types: bool,
    /// Default value for missing fields
    pub default_value: Option<String>,
    /// Fail on the first error
    pub strict_mode: bool,
}

impl Default for ExtractConfig {
    fn default() -> (r: ExtractConfig)
        ensures
            r.trim_whitespace,
            r.decode_html_entities,
            r.max_fields == 100,
            r.validate_types,
            r.default_value is None,
            !r.strict_mode,
    {
        ExtractConfig {
            trim_whitespace: true,
            decode_html_entities: true,
            max_fields: 100,
            validate_types: true,
            default_value: None,
            strict_mode: false,
        }
    }
}

} // verus!

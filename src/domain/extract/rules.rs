//! Extraction rule definitions.

use vstd::prelude::*;

verus! {

/// Selector language of a rule.
#[derive(Debug, Clone, Copy, PartialEq, Eq)]
pub enum SelectorType {
    /// CSS selector
    Css,
    /// XPath selector
    XPath,
}

/// Type of an extracted value.
#[derive(Debug, Clone, Copy, PartialEq, Eq)]
pub enum DataType {
    Text,
    Number,
    Boolean,
    DateTime,
    Url,
    Email,
}

/// Kind of a validation.
#[derive(Debug, Clone, Copy, PartialEq, Eq)]
pub enum ValidationType {
    Required,
    MinLength,
    MaxLength,
    Pattern,
    MinValue,
    MaxValue,
    Custom,
}

/// A validation with its parameters.
#[derive(Debug, Clone)]
pub struct ValidationRule {
    /// Validation type
    pub validation_type: ValidationType,
    /// Parameters, by name
    pub params: Vec<(String, String)>,
}

/// A field read by one selector.
#[derive(Debug, Clone)]
pub struct SimpleRule {
    /// Field name
    pub field: String,
    /// Selector
    pub selector: String,
    /// Selector type
    pub selector_type: SelectorType,
    /// Data type
    pub data_type: DataType,
    /// Whether the field is required
    pub required: bool,
    /// Default value if not found
    pub default: Option<String>,
}

/// A field read by the first selector that matches, then transformed.
#[derive(Debug, Clone)]
pub struct ComplexRule {
    /// Field name
    pub field: String,
    /// Selectors, tried in order
    pub selectors: Vec<String>,
    /// Data type
    pub data_type: DataType,
    /// Transformation name
    pub transform: Option<String>,
    /// Validations
    pub validation: Vec<ValidationRule>,
}

/// A field computed from other fields.
#[derive(Debug, Clone)]
pub struct ComputedRule {
    /// Field name
    pub field: String,
    /// Expression
    pub expression: String,
    /// Fields it depends on
    pub dependencies: Vec<String>,
    /// Data type
    pub data_type: DataType,
}

/// An extraction rule.
#[derive(Debug, Clone)]
pub enum ExtractionRule {
    Simple(SimpleRule),
    Complex(ComplexRule),
    Computed(ComputedRule),
}

} // verus!

//! XPath pattern recognition.

use crate::domain::select::selector::CssSelector;
use vstd::prelude::*;

verus! {

/// XPath pattern type.
#[derive(Debug, Clone, Copy, PartialEq, Eq)]
pub enum XPathPatternType {
    /// Simple path (`//div`)
    SimplePath,
    /// Attribute selector (`//div[@class='article']`)
    AttributeSelector,
    /// Text selector (`//div[text()='Hello']`)
    TextSelector,
    /// Position selector (`//div[1]`)
    PositionSelector,
    /// Anything else
    Complex,
}

/// A recognized XPath expression.
#[derive(Debug, Clone)]
pub struct XPathPattern {
    /// The expression as given
    pub expression: String,
    /// Its pattern type
    pub pattern_type: XPathPatternType,
}

impl XPathPattern {
    /// Recognizes an expression. No XPath engine is available, so every
    /// expression is kept as it is and classed as complex.
    pub fn recognize(input: &str) -> (r: Option<XPathPattern>)
        ensures
            r matches Some(p) && p.expression@ == input@ && p.pattern_type == XPathPatternType::Complex,
    {
        Some(XPathPattern { expression: input.to_string(), pattern_type: XPathPatternType::Complex })
    }

    /// Converts the pattern to a CSS selector; no conversion is available.
    pub fn to_css(&self) -> (r: Result<CssSelector, String>)
        ensures
            r is Err,
    {
        Err("XPath to CSS conversion not implemented".to_string())
    }
}

} // verus!

//! Configuration for select operations.

use vstd::prelude::*;

verus! {

/// Selector language.
#[derive(Debug, Clone, Copy, PartialEq, Eq)]
pub enum SelectorType {
    /// CSS selector
    Css,
    /// XPath selector
    XPath,
}

impl Default for SelectorType {
    fn default() -> (r: SelectorType)
        ensures
            r == SelectorType::Css,
    {
        SelectorType::Css
    }
}

/// Configuration for select operations.
#[derive(Debug, Clone, Copy)]
pub struct SelectConfig {
    /// Return only text content
    pub text_only: bool,
    /// Return only the first match
    pub first_only: bool,
    /// Maximum number of results
    pub max_results: usize,
    /// Selector type
    pub selector_type: SelectorType,
    /// Include HTML attributes in results
    pub include_attributes: bool,
    /// Include HTML content in results
    pub include_html: bool,
}

impl Default for SelectConfig {
    fn default() -> (r: SelectConfig)
        ensures
            !r.text_only,
            !r.first_only,
            r.max_results == 10000,
            r.selector_type == SelectorType::Css,
            r.include_attributes,
            !r.include_html,
    {
        SelectConfig {
            text_only: false,
            first_only: false,
            max_results: 10000,
            selector_type: SelectorType::Css,
            include_attributes: true,
            include_html: false,
        }
    }
}

} // verus!

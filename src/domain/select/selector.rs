//! Selector values.

use crate::domain::select::config::SelectorType;
use crate::domain::select::error::SelectError;
use crate::infra::parser::vdom::{NodeId, VDom};
use vstd::prelude::*;

verus! {

/// A selector with its language.
#[derive(Debug, Clone)]
pub struct Selector {
    /// Selector string
    pub selector_str: String,
    /// Selector type
    pub selector_type: SelectorType,
}

/// A selector language over arena trees.
pub trait SelectorStrategy: Sized {
    /// Reads a selector.
    fn parse(input: &str) -> Result<Self, SelectError>;

    /// The ids that the selector matches in a tree.
    fn select(&self, vdom: &VDom) -> Vec<NodeId>;
}

/// A CSS selector, kept as written; engines validate it when they run.
#[derive(Debug, Clone)]
pub struct CssSelector {
    /// CSS selector string
    pub selector: String,
}

/// An XPath expression, kept as written.
#[derive(Debug, Clone)]
pub struct XPathSelector {
    /// XPath expression
    pub expression: String,
}

impl CssSelector {
    /// Keeps the selector text.
    pub fn parse(input: &str) -> (r: Result<CssSelector, SelectError>)
        ensures
            r matches Ok(s) && s.selector@ == input@,
    {
        Ok(CssSelector { selector: input.to_string() })
    }

    /// Arena trees carry no CSS engine: nothing matches.
    pub fn select(&self, vdom: &VDom) -> (r: Vec<NodeId>)
        ensures
            r@.len() == 0,
    {
        Vec::new()
    }
}

impl XPathSelector {
    /// Keeps the expression text.
    pub fn parse(input: &str) -> (r: Result<XPathSelector, SelectError>)
        ensures
            r matches Ok(s) && s.expression@ == input@,
    {
        Ok(XPathSelector { expression: input.to_string() })
    }

    /// No XPath engine is available: nothing matches.
    pub fn select(&self, vdom: &VDom) -> (r: Vec<NodeId>)
        ensures
            r@.len() == 0,
    {
        Vec::new()
    }
}

impl SelectorStrategy for CssSelector {
    fn parse(input: &str) -> Result<CssSelector, SelectError> {
        CssSelector::parse(input)
    }

    fn select(&self, vdom: &VDom) -> Vec<NodeId> {
        CssSelector::select(self, vdom)
    }
}

impl SelectorStrategy for XPathSelector {
    fn parse(input: &str) -> Result<XPathSelector, SelectError> {
        XPathSelector::parse(input)
    }

    fn select(&self, vdom: &VDom) -> Vec<NodeId> {
        XPathSelector::select(self, vdom)
    }
}

} // verus!

//! Parse result models.

use vstd::prelude::*;

verus! {

/// Summary of a parsed tree.
#[derive(Debug)]
pub struct DomStructure {
    /// Tag of the root node
    pub root_tag: String,
    /// Number of direct children of the root
    pub child_count: usize,
    /// Whether the tree is well formed
    pub well_formed: bool,
    /// Number of nodes
    pub total_elements: usize,
    /// Largest depth of a node below the root
    pub max_depth: usize,
    /// Distinct non-empty tags, in order of first occurrence
    pub unique_tags: Vec<String>,
}

/// A nested element, for hierarchical output.
#[derive(Debug)]
pub struct Element {
    /// Tag name
    pub tag: String,
    /// Text content
    pub text: Option<String>,
    /// Attributes
    pub attributes: Vec<(String, String)>,
    /// Child elements
    pub children: Vec<Element>,
    /// Depth in the tree
    pub depth: usize,
}

/// Parse statistics.
#[derive(Debug, Clone, Copy)]
pub struct ParseStats {
    /// Time taken in milliseconds
    pub time_ms: u64,
    /// Memory usage in bytes
    pub memory_bytes: usize,
    /// Number of elements processed
    pub elements_processed: usize,
}

} // verus!

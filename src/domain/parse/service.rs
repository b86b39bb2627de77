//! The parse service: cached parsing plus a summary of the tree.

use crate::domain::parse::cache::{parse_step, ParseCache};
use crate::domain::parse::config::ParseConfig;
use crate::domain::parse::error::ParseError;
use crate::domain::parse::models::DomStructure;
use crate::infra::parser::vdom::{parent_ok, well_formed, NodeView, VDom, VDomView};
use std::sync::Arc;
use vstd::prelude::*;

verus! {

/// The distinct non-empty tags among the first `n` nodes, in order of first
/// occurrence.
pub open spec fn distinct_tags(nodes: Seq<NodeView>, n: int) -> Seq<Seq<char>>
    decreases n,
{
    if n <= 0 {
        Seq::empty()
    } else {
        let prev = distinct_tags(nodes, n - 1);
        let tag = nodes[n - 1].tag;
        if tag.len() > 0 && !prev.contains(tag) {
            prev.push(tag)
        } else {
            prev
        }
    }
}

/// The depth of node `i`: its distance from the root along parents.
pub open spec fn depth(t: VDomView, i: int) -> nat
    decreases i,
{
    if i <= 0 || i >= t.nodes.len() {
        0
    } else {
        match t.nodes[i].parent {
            Some(p) => if p < i {
                depth(t, p as int) + 1
            } else {
                0
            },
            None => 0,
        }
    }
}

/// The largest depth among the first `n` nodes.
pub open spec fn max_depth_below(t: VDomView, n: int) -> nat
    decreases n,
{
    if n <= 0 {
        0
    } else if depth(t, n - 1) > max_depth_below(t, n - 1) {
        depth(t, n - 1)
    } else {
        max_depth_below(t, n - 1)
    }
}

proof fn lemma_depth_bound(t: VDomView, i: int)
    ensures
        depth(t, i) <= if i > 0 { i } else { 0 },
    decreases i,
{
    if 0 < i < t.nodes.len() {
        if let Some(p) = t.nodes[i].parent {
            if p < i {
                lemma_depth_bound(t, p as int);
            }
        }
    }
}

/// The strings' views.
pub open spec fn strings_view(v: Seq<String>) -> Seq<Seq<char>> {
    Seq::new(v.len(), |i: int| v[i]@)
}

/// Whether `tag` is among `seen`.
fn contains_tag(seen: &Vec<String>, tag: &String) -> (r: bool)
    ensures
        r == strings_view(seen@).contains(tag@),
{
    let mut i: usize = 0;
    while i < seen.len()
        invariant
            i <= seen@.len(),
            forall|j: int| 0 <= j < i ==> seen@[j]@ != tag@,
        decreases seen@.len() - i,
    {
        if seen[i] == *tag {
            proof {
                assert(strings_view(seen@)[i as int] == tag@);
            }
            return true;
        }
        i += 1;
    }
    proof {
        if strings_view(seen@).contains(tag@) {
            let j = choose|j: int| 0 <= j < strings_view(seen@).len() && strings_view(seen@)[j] == tag@;
            assert(seen@[j]@ == tag@);
        }
    }
    false
}

/// The distinct non-empty tags of a tree, in order of first occurrence.
pub fn unique_tags(tree: &VDom) -> (r: Vec<String>)
    ensures
        strings_view(r@) == distinct_tags(tree@.nodes, tree@.nodes.len() as int),
{
    let mut out: Vec<String> = Vec::new();
    let mut i: usize = 0;
    while i < tree.nodes.len()
        invariant
            i <= tree@.nodes.len(),
            strings_view(out@) == distinct_tags(tree@.nodes, i as int),
        decreases tree@.nodes.len() - i,
    {
        let tag = &tree.nodes[i].tag;
        proof {
            assert(tree@.nodes[i as int].tag == tag@);
        }
        if !tag.as_str().is_empty() && !contains_tag(&out, tag) {
            let ghost before = out@;
            out.push(tag.clone());
            proof {
                assert(strings_view(out@) =~= strings_view(before).push(tag@));
            }
        }
        i += 1;
    }
    out
}

/// The largest depth of a node in a well-formed tree.
pub fn max_depth(tree: &VDom) -> (r: usize)
    requires
        well_formed(tree@),
    ensures
        r == max_depth_below(tree@, tree@.nodes.len() as int),
{
    let ghost t = tree@;
    let n = tree.nodes.len();
    let mut depths: Vec<usize> = Vec::new();
    let mut best: usize = 0;
    let mut i: usize = 0;
    while i < n
        invariant
            t == tree@,
            well_formed(t),
            n == t.nodes.len(),
            i <= n,
            depths@.len() == i,
            forall|j: int| 0 <= j < i ==> #[trigger] depths@[j] == depth(t, j),
            best == max_depth_below(t, i as int),
        decreases n - i,
    {
        proof {
            assert(tree.nodes@[i as int]@ == t.nodes[i as int]);
        }
        let d: usize = if i == 0 {
            0
        } else {
            match tree.nodes[i].parent {
                Some(p) => {
                    proof {
                        assert(parent_ok(t, i as int));
                        lemma_depth_bound(t, p as int);
                    }
                    depths[p] + 1
                },
                None => 0,
            }
        };
        proof {
            if i > 0 {
                assert(parent_ok(t, i as int));
            }
        }
        depths.push(d);
        if d > best {
            best = d;
        }
        i += 1;
    }
    best
}

/// Result of a parse operation.
#[derive(Debug)]
pub struct ParseResult {
    /// Number of nodes
    pub total_elements: usize,
    /// Largest depth of a node
    pub max_depth: usize,
    /// Summary of the tree
    pub structure: DomStructure,
    /// The shared tree
    pub vdom: Arc<VDom>,
}

/// A parse service, for callers that hold one behind an interface.
pub trait ParseService {
    /// Parses markup into a tree and its summary.
    fn parse(&mut self, html: &str, config: &ParseConfig) -> Result<ParseResult, ParseError>;
}

/// The default parse service: a tree cache of 100 entries.
pub struct DefaultParseService {
    pub cache: ParseCache,
}

/// The default number of cached trees.
pub const DEFAULT_CACHE_CAPACITY: usize = 100;

impl DefaultParseService {
    /// Creates the service with the default cache capacity.
    pub fn new() -> (r: DefaultParseService)
        ensures
            r.cache.inv(),
            r.cache.capacity() == DEFAULT_CACHE_CAPACITY,
            r.cache.entries().len() == 0,
    {
        DefaultParseService { cache: ParseCache::new(DEFAULT_CACHE_CAPACITY) }
    }

    /// Creates the service with a cache of the given capacity.
    pub fn with_capacity(capacity: usize) -> (r: DefaultParseService)
        ensures
            r.cache.inv(),
            r.cache.capacity() == capacity,
            r.cache.entries().len() == 0,
    {
        DefaultParseService { cache: ParseCache::new(capacity) }
    }

    /// Parses through the cache and summarizes the tree.
    pub fn parse(&mut self, html: &str, config: &ParseConfig) -> (r: Result<ParseResult, ParseError>)
        requires
            old(self).cache.inv(),
        ensures
            final(self).cache.inv(),
            final(self).cache.capacity() == old(self).cache.capacity(),
            parse_step(
                old(self).cache.entries(),
                old(self).cache.capacity(),
                html@,
                final(self).cache.entries(),
                match r {
                    Ok(p) => Some(p.vdom@),
                    Err(_) => None,
                },
            ),
            r matches Ok(p) ==> {
                &&& p.total_elements == p.vdom@.nodes.len()
                &&& p.structure.total_elements == p.total_elements
                &&& p.structure.root_tag@ == "document"@
                &&& p.structure.child_count == p.vdom@.nodes[0].children.len()
                &&& p.structure.well_formed
                &&& p.max_depth == max_depth_below(p.vdom@, p.vdom@.nodes.len() as int)
                &&& p.structure.max_depth == p.max_depth
                &&& strings_view(p.structure.unique_tags@) == distinct_tags(p.vdom@.nodes, p.vdom@.nodes.len() as int)
            },
            r matches Err(e) ==> e is ParsingFailed,
    {
        match self.cache.get_or_parse(html) {
            Ok(tree) => {
                let total = tree.nodes.len();
                let children = tree.nodes[0].children.len();
                let depth = max_depth(&tree);
                let structure = DomStructure {
                    root_tag: "document".to_string(),
                    child_count: children,
                    well_formed: true,
                    total_elements: total,
                    max_depth: depth,
                    unique_tags: unique_tags(&tree),
                };
                Ok(ParseResult { total_elements: total, max_depth: depth, structure, vdom: tree })
            },
            Err(e) => Err(e),
        }
    }
}

} // verus!

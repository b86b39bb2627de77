//! Extraction over parsed trees.

use crate::domain::parse::service::DefaultParseService;
use crate::infra::parser::vdom::{children_ok, well_formed, NodeId, VDom, VDomView};
use vstd::prelude::*;
use vstd::string::StringExecFns;

verus! {

/// Extraction statistics.
#[derive(Debug, Clone, Copy)]
pub struct ExtractionStats {
    /// Fields processed
    pub total_fields: usize,
    /// Successful extractions
    pub successful: usize,
    /// Failed extractions
    pub failed: usize,
    /// Time taken in milliseconds
    pub time_ms: u64,
}

/// The extract service, over the parse service.
pub struct DefaultExtractService {
    pub parse_service: DefaultParseService,
}

impl DefaultExtractService {
    /// Creates the service over a parse service.
    pub fn new(parse_service: DefaultParseService) -> (r: DefaultExtractService)
        ensures
            r.parse_service == parse_service,
    {
        DefaultExtractService { parse_service }
    }
}

/// The text content of node `id`: its own text, or else the text content of
/// its children, concatenated in order.
pub open spec fn text_content(t: VDomView, id: int) -> Seq<char>
    decreases t.nodes.len() - id, 1int, 0int,
{
    if id < 0 || id >= t.nodes.len() {
        Seq::empty()
    } else {
        match t.nodes[id].text {
            Some(x) => x,
            None => children_text(t, id, 0),
        }
    }
}

/// The text content of the children of node `id` from the `k`-th on.
pub open spec fn children_text(t: VDomView, id: int, k: int) -> Seq<char>
    decreases t.nodes.len() - id, 0int, t.nodes[id].children.len() - k,
{
    if id < 0 || id >= t.nodes.len() || k < 0 || k >= t.nodes[id].children.len() {
        Seq::empty()
    } else {
        let c = t.nodes[id].children[k] as int;
        (if id < c && c < t.nodes.len() {
            text_content(t, c)
        } else {
            Seq::empty()
        }) + children_text(t, id, k + 1)
    }
}

/// The text content of a node of a well-formed tree.
pub fn get_text_content(vdom: &VDom, id: NodeId) -> (r: String)
    requires
        well_formed(vdom@),
    ensures
        r@ == text_content(vdom@, id as int),
    decreases vdom@.nodes.len() - id, 1int,
{
    if id >= vdom.nodes.len() {
        return String::new();
    }
    let node = &vdom.nodes[id];
    proof {
        assert(vdom@.nodes[id as int] == node@);
    }
    match &node.text {
        Some(t) => {
            return t.clone();
        },
        None => {},
    }
    let ghost t = vdom@;
    let ghost i = id as int;
    proof {
        assert(children_ok(t, i));
    }
    let mut out = String::new();
    let mut k: usize = 0;
    while k < node.children.len()
        invariant
            t == vdom@,
            well_formed(t),
            0 <= i < t.nodes.len(),
            i == id,
            t.nodes[i].children == node.children@,
            t.nodes[i].text is None,
            children_ok(t, i),
            k <= node.children@.len(),
            out@ + children_text(t, i, k as int) == children_text(t, i, 0),
        decreases node.children@.len() - k,
    {
        let c = node.children[k];
        proof {
            assert(t.nodes[i].children[k as int] == c);
        }
        let part = get_text_content(vdom, c);
        let ghost before = out@;
        out.append(part.as_str());
        proof {
            assert(children_text(t, i, k as int) == part@ + children_text(t, i, k + 1));
            assert(before + (part@ + children_text(t, i, k + 1)) =~= out@ + children_text(t, i, k + 1));
        }
        k += 1;
    }
    proof {
        assert(out@ + children_text(t, i, k as int) =~= out@);
    }
    out
}

} // verus!

//! The arena tree: nodes addressed by stable integer ids.

use crate::infra::parser::tokens::pairs_view;
use vstd::prelude::*;

verus! {

/// Node id in the arena.
pub type NodeId = usize;

/// One node of the arena.
#[derive(Debug)]
pub struct Node {
    /// Tag name, or `text`, `comment`, `document` for the other kinds
    pub tag: String,
    /// Attributes, keys unique
    pub attributes: Vec<(String, String)>,
    /// Text payload of a text node
    pub text: Option<String>,
    /// Child ids, in document order
    pub children: Vec<NodeId>,
    /// Parent id; `None` only for the root
    pub parent: Option<NodeId>,
}

/// The mathematical value of a node.
pub struct NodeView {
    pub tag: Seq<char>,
    pub attributes: Seq<(Seq<char>, Seq<char>)>,
    pub text: Option<Seq<char>>,
    pub children: Seq<NodeId>,
    pub parent: Option<NodeId>,
}

pub open spec fn opt_str_view(o: Option<String>) -> Option<Seq<char>> {
    match o {
        Some(s) => Some(s@),
        None => None,
    }
}

impl View for Node {
    type V = NodeView;

    open spec fn view(&self) -> NodeView {
        NodeView {
            tag: self.tag@,
            attributes: pairs_view(self.attributes@),
            text: opt_str_view(self.text),
            children: self.children@,
            parent: self.parent,
        }
    }
}

/// An owning, insertion-ordered sequence of nodes with a designated root.
#[derive(Debug)]
pub struct VDom {
    /// All nodes, addressed by id
    pub nodes: Vec<Node>,
    /// Root node id
    pub root: NodeId,
}

/// The mathematical value of a tree.
pub struct VDomView {
    pub nodes: Seq<NodeView>,
    pub root: NodeId,
}

impl View for VDom {
    type V = VDomView;

    open spec fn view(&self) -> VDomView {
        VDomView { nodes: Seq::new(self.nodes@.len(), |i: int| self.nodes@[i]@), root: self.root }
    }
}

/// A node other than the root has a parent with a smaller id that lists it.
pub open spec fn parent_ok(t: VDomView, i: int) -> bool {
    match t.nodes[i].parent {
        Some(p) => 0 <= p < i && t.nodes[p as int].children.contains(i as NodeId),
        None => false,
    }
}

/// Every child id of `p` names a later node whose parent is `p`.
pub open spec fn children_ok(t: VDomView, p: int) -> bool {
    &&& t.nodes[p].children.no_duplicates()
    &&& forall|k: int|
        0 <= k < t.nodes[p].children.len() ==> {
            let c = #[trigger] t.nodes[p].children[k] as int;
            &&& p < c < t.nodes.len()
            &&& t.nodes[c].parent == Some(p as NodeId)
        }
}

/// A connected tree: one root without a parent, every other node with
/// exactly one parent that lists it, children always after their parent.
pub open spec fn well_formed(t: VDomView) -> bool {
    &&& t.nodes.len() >= 1
    &&& t.root == 0
    &&& t.nodes[0].parent is None
    &&& forall|i: int| 0 < i < t.nodes.len() ==> #[trigger] parent_ok(t, i)
    &&& forall|p: int| 0 <= p < t.nodes.len() ==> #[trigger] children_ok(t, p)
}

impl VDom {
    /// Creates a tree that holds only its root.
    pub fn new() -> (r: VDom)
        ensures
            r@.nodes.len() == 1,
            r@.root == 0,
            r@.nodes[0].tag == "root"@,
            r@.nodes[0].attributes.len() == 0,
            r@.nodes[0].text is None,
            r@.nodes[0].children.len() == 0,
            r@.nodes[0].parent is None,
            well_formed(r@),
    {
        let root = Node {
            tag: "root".to_string(),
            attributes: Vec::new(),
            text: None,
            children: Vec::new(),
            parent: None,
        };
        let mut nodes = Vec::new();
        nodes.push(root);
        let r = VDom { nodes, root: 0 };
        proof {
            assert(r@.nodes[0] == r.nodes@[0]@);
            assert(pairs_view(r.nodes@[0].attributes@).len() == 0);
        }
        r
    }

    /// The ids that a selector matches; this tree has no selector engine of
    /// its own, so none.
    pub fn query(&self, selector: &str) -> (r: Vec<NodeId>)
        ensures
            r@.len() == 0,
    {
        Vec::new()
    }

    /// The node with the given id, if there is one.
    pub fn get_node(&self, id: NodeId) -> (r: Option<&Node>)
        ensures
            id < self.nodes@.len() ==> r == Some(&self.nodes@[id as int]),
            id >= self.nodes@.len() ==> r is None,
    {
        if id < self.nodes.len() {
            Some(&self.nodes[id])
        } else {
            None
        }
    }

    /// Appends a node and returns its id, the former node count.
    pub fn add_node(&mut self, node: Node) -> (r: NodeId)
        requires
            old(self).nodes@.len() < usize::MAX,
        ensures
            r == old(self).nodes@.len(),
            final(self).nodes@ == old(self).nodes@.push(node),
            final(self).root == old(self).root,
    {
        let id = self.nodes.len();
        self.nodes.push(node);
        id
    }
}

} // verus!

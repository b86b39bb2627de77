//! The tree builder: a tag stream to a connected arena tree.

use crate::domain::parse::error::ParseError;
use crate::infra::parser::serialize::{
    keys_distinct, lemma_sorted_attributes, same_entries, sort_attrs, sorted_attributes, strictly_sorted,
};
use crate::infra::parser::tokens::{
    handles_ordered, markup_tokens, pairs_view, tokenize, tokens_match, tokens_view, MarkupToken, Token, TokenView,
};
use crate::infra::parser::vdom::{children_ok, parent_ok, well_formed, Node, NodeId, NodeView, VDom, VDomView};
use vstd::prelude::*;

verus! {

/// The child handles that a token reports (none but for an element).
pub open spec fn child_handles(t: TokenView) -> Seq<usize> {
    match t {
        TokenView::Element { children, .. } => children,
        _ => Seq::empty(),
    }
}

/// The first token before position `m` that lists `h` among its children.
pub open spec fn claimant_below(ts: Seq<TokenView>, h: int, m: int) -> Option<int>
    decreases m,
{
    if m <= 0 {
        None
    } else if claimant_below(ts, h, m - 1) is Some {
        claimant_below(ts, h, m - 1)
    } else if child_handles(ts[m - 1]).contains(h as usize) {
        Some(m - 1)
    } else {
        None
    }
}

/// The parent token of token `h`: the first earlier token that lists it.
/// A later token cannot adopt it, which keeps the tree free of cycles.
pub open spec fn claimant(ts: Seq<TokenView>, h: int) -> Option<int> {
    claimant_below(ts, h, h)
}

/// The arena ids of the first `k` child handles of token `j` that it keeps:
/// those naming a token that `j` claims, each once.
pub open spec fn kept_children(ts: Seq<TokenView>, j: int, k: int) -> Seq<NodeId>
    decreases k,
{
    if k <= 0 {
        Seq::empty()
    } else {
        let h = child_handles(ts[j])[k - 1];
        let prev = kept_children(ts, j, k - 1);
        if (h as int) < ts.len() && claimant(ts, h as int) == Some(j)
            && !child_handles(ts[j]).subrange(0, k - 1).contains(h) {
            prev.push((h + 1) as NodeId)
        } else {
            prev
        }
    }
}

/// The arena ids of the tokens before `m` that no token claims, in order.
pub open spec fn orphans(ts: Seq<TokenView>, m: int) -> Seq<NodeId>
    decreases m,
{
    if m <= 0 {
        Seq::empty()
    } else if claimant(ts, m - 1) is None {
        orphans(ts, m - 1).push(m as NodeId)
    } else {
        orphans(ts, m - 1)
    }
}

/// The first index before `n` whose key is `k`, or -1.
pub open spec fn key_position(m: Seq<(Seq<char>, Seq<char>)>, k: Seq<char>, n: int) -> int
    decreases n,
{
    if n <= 0 {
        -1
    } else if key_position(m, k, n - 1) >= 0 {
        key_position(m, k, n - 1)
    } else if m[n - 1].0 == k {
        n - 1
    } else {
        -1
    }
}

/// Sets key `k` to `v`: in place where the key is present, else at the end.
pub open spec fn with_attr(m: Seq<(Seq<char>, Seq<char>)>, k: Seq<char>, v: Seq<char>) -> Seq<
    (Seq<char>, Seq<char>),
> {
    let p = key_position(m, k, m.len() as int);
    if p >= 0 {
        m.update(p, (k, v))
    } else {
        m.push((k, v))
    }
}

/// The attribute map of the first `n` pairs: a later pair with the same key
/// replaces the value of an earlier one.
pub open spec fn merged_attrs(s: Seq<(Seq<char>, Seq<char>)>, n: int) -> Seq<(Seq<char>, Seq<char>)>
    decreases n,
{
    if n <= 0 {
        Seq::empty()
    } else {
        with_attr(merged_attrs(s, n - 1), s[n - 1].0, s[n - 1].1)
    }
}

/// The arena id of a parent token, if any.
pub open spec fn arena_parent(p: Option<int>) -> Option<NodeId> {
    match p {
        Some(j) => Some((j + 1) as NodeId),
        None => None,
    }
}

/// The tag of the node that a token becomes.
pub open spec fn token_node_tag(t: TokenView) -> Seq<char> {
    match t {
        TokenView::Element { name, .. } => name,
        TokenView::Text(_) => "text"@,
        TokenView::Comment => "comment"@,
    }
}

/// The attributes of the node that a token becomes.
pub open spec fn token_node_attrs(t: TokenView) -> Seq<(Seq<char>, Seq<char>)> {
    match t {
        TokenView::Element { attributes, .. } => sort_attrs(merged_attrs(attributes, attributes.len() as int)),
        _ => Seq::empty(),
    }
}

/// The text payload of the node that a token becomes.
pub open spec fn token_node_text(t: TokenView) -> Option<Seq<char>> {
    match t {
        TokenView::Text(t) => Some(t),
        _ => None,
    }
}

/// The node that token `j` becomes.
pub open spec fn token_node(ts: Seq<TokenView>, j: int) -> NodeView {
    NodeView {
        tag: token_node_tag(ts[j]),
        attributes: token_node_attrs(ts[j]),
        text: token_node_text(ts[j]),
        children: kept_children(ts, j, child_handles(ts[j]).len() as int),
        parent: Some(
            match claimant(ts, j) {
                Some(p) => (p + 1) as NodeId,
                None => 0,
            },
        ),
    }
}

/// The synthetic root: it adopts every unclaimed token.
pub open spec fn document_node(ts: Seq<TokenView>) -> NodeView {
    NodeView {
        tag: "document"@,
        attributes: Seq::empty(),
        text: None,
        children: orphans(ts, ts.len() as int),
        parent: None,
    }
}

/// The tree built from a token stream: the root at id 0, then token `j` at
/// id `j + 1`.
pub open spec fn built_tree(ts: Seq<TokenView>) -> VDomView {
    VDomView {
        nodes: seq![document_node(ts)] + Seq::new(ts.len(), |j: int| token_node(ts, j)),
        root: 0,
    }
}

proof fn lemma_claimant_range(ts: Seq<TokenView>, h: int, m: int)
    ensures
        claimant_below(ts, h, m) matches Some(p) ==> 0 <= p < m && child_handles(ts[p]).contains(
            h as usize,
        ),
    decreases m,
{
    if m > 0 {
        lemma_claimant_range(ts, h, m - 1);
    }
}

proof fn lemma_claimant_stable(ts: Seq<TokenView>, h: int, m: int, m2: int)
    requires
        m <= m2,
        claimant_below(ts, h, m) is Some,
    ensures
        claimant_below(ts, h, m2) == claimant_below(ts, h, m),
    decreases m2 - m,
{
    if m < m2 {
        lemma_claimant_stable(ts, h, m, m2 - 1);
    }
}


proof fn lemma_kept_children(ts: Seq<TokenView>, j: int, k: int)
    requires
        0 <= j < ts.len() < usize::MAX,
        0 <= k <= child_handles(ts[j]).len(),
    ensures
        kept_children(ts, j, k).no_duplicates(),
        forall|idx: int| 0 <= idx < kept_children(ts, j, k).len() ==> {
            let x = #[trigger] kept_children(ts, j, k)[idx] as int;
            &&& 1 <= x <= ts.len()
            &&& claimant(ts, x - 1) == Some(j)
            &&& exists|w: int| 0 <= w < k && child_handles(ts[j])[w] as int + 1 == x
        },
        forall|w: int|
            0 <= w < k && (child_handles(ts[j])[w] as int) < ts.len() && claimant(ts, child_handles(ts[j])[w] as int) == Some(j)
                ==> kept_children(ts, j, k).contains((#[trigger] child_handles(ts[j])[w] + 1) as NodeId),
    decreases k,
{
    if k > 0 {
        lemma_kept_children(ts, j, k - 1);
        let hs = child_handles(ts[j]);
        let h = hs[k - 1];
        let prev = kept_children(ts, j, k - 1);
        let cur = kept_children(ts, j, k);
        if (h as int) < ts.len() && claimant(ts, h as int) == Some(j) && !hs.subrange(0, k - 1).contains(h) {
            assert(cur == prev.push((h + 1) as NodeId));
            assert forall|idx: int| 0 <= idx < prev.len() implies prev[idx] != (h + 1) as NodeId by {
                let x = prev[idx] as int;
                let w = choose|w: int| 0 <= w < k - 1 && hs[w] as int + 1 == x;
                assert(hs.subrange(0, k - 1)[w] == hs[w]);
            }
            assert forall|idx: int| 0 <= idx < cur.len() implies ({
                let x = #[trigger] cur[idx] as int;
                &&& 1 <= x <= ts.len()
                &&& claimant(ts, x - 1) == Some(j)
                &&& exists|w: int| 0 <= w < k && hs[w] as int + 1 == x
            }) by {
                if idx < prev.len() {
                    assert(cur[idx] == prev[idx]);
                    let w = choose|w: int| 0 <= w < k - 1 && hs[w] as int + 1 == prev[idx] as int;
                    assert(hs[w] as int + 1 == cur[idx] as int);
                } else {
                    assert(hs[k - 1] as int + 1 == cur[idx] as int);
                }
            }
            assert forall|w: int|
                0 <= w < k && (hs[w] as int) < ts.len() && claimant(ts, hs[w] as int) == Some(j)
                    implies cur.contains((#[trigger] hs[w] + 1) as NodeId) by {
                if w < k - 1 {
                    let idx = choose|idx: int| 0 <= idx < prev.len() && prev[idx] == (hs[w] + 1) as NodeId;
                    assert(cur[idx] == prev[idx]);
                } else {
                    assert(cur[cur.len() - 1] == (h + 1) as NodeId);
                }
            }
        } else {
            assert(cur == prev);
            assert forall|idx: int| 0 <= idx < cur.len() implies ({
                let x = #[trigger] cur[idx] as int;
                &&& 1 <= x <= ts.len()
                &&& claimant(ts, x - 1) == Some(j)
                &&& exists|w: int| 0 <= w < k && hs[w] as int + 1 == x
            }) by {
                let w = choose|w: int| 0 <= w < k - 1 && hs[w] as int + 1 == prev[idx] as int;
                assert(hs[w] as int + 1 == cur[idx] as int);
            }
            assert forall|w: int|
                0 <= w < k && (hs[w] as int) < ts.len() && claimant(ts, hs[w] as int) == Some(j)
                    implies cur.contains((#[trigger] hs[w] + 1) as NodeId) by {
                if w == k - 1 {
                    let sub = hs.subrange(0, k - 1);
                    let w2 = choose|w2: int| 0 <= w2 < sub.len() && #[trigger] sub[w2] == h;
                    assert(hs[w2] == h);
                    assert(prev.contains((hs[w2] + 1) as NodeId));
                }
            }
        }
    }
}

proof fn lemma_orphans(ts: Seq<TokenView>, m: int)
    requires
        0 <= m <= ts.len() < usize::MAX,
    ensures
        orphans(ts, m).no_duplicates(),
        forall|idx: int| 0 <= idx < orphans(ts, m).len() ==> {
            let x = #[trigger] orphans(ts, m)[idx] as int;
            &&& 1 <= x <= m
            &&& claimant(ts, x - 1) is None
        },
        forall|h: int| 0 <= h < m && #[trigger] claimant(ts, h) is None ==> orphans(ts, m).contains((h + 1) as NodeId),
    decreases m,
{
    if m > 0 {
        lemma_orphans(ts, m - 1);
        let prev = orphans(ts, m - 1);
        let cur = orphans(ts, m);
        if claimant(ts, m - 1) is None {
            assert(cur == prev.push(m as NodeId));
            assert forall|idx: int| 0 <= idx < prev.len() implies prev[idx] != m as NodeId by {
                assert(1 <= prev[idx] as int <= m - 1);
            }
            assert forall|h: int| 0 <= h < m && #[trigger] claimant(ts, h) is None implies cur.contains((h + 1) as NodeId) by {
                if h < m - 1 {
                    let idx = choose|idx: int| 0 <= idx < prev.len() && prev[idx] == (h + 1) as NodeId;
                    assert(cur[idx] == prev[idx]);
                } else {
                    assert(cur[cur.len() - 1] == m as NodeId);
                }
            }
            assert forall|idx: int| 0 <= idx < cur.len() implies ({
                let x = #[trigger] cur[idx] as int;
                &&& 1 <= x <= m
                &&& claimant(ts, x - 1) is None
            }) by {
                if idx < prev.len() {
                    assert(cur[idx] == prev[idx]);
                }
            }
        } else {
            assert(cur == prev);
        }
    }
}

/// The built tree of any token stream is well formed.
proof fn lemma_built_tree_well_formed(ts: Seq<TokenView>)
    requires
        ts.len() < usize::MAX,
    ensures
        well_formed(built_tree(ts)),
{
    let t = built_tree(ts);
    let n = ts.len() as int;
    assert(t.nodes.len() == n + 1);
    assert(t.nodes[0] == document_node(ts));
    assert forall|i: int| 0 < i < n + 1 implies t.nodes[i] == token_node(ts, i - 1) by {}
    lemma_orphans(ts, n);
    assert forall|i: int| 0 < i < t.nodes.len() implies #[trigger] parent_ok(t, i) by {
        let h = i - 1;
        assert(t.nodes[i] == token_node(ts, h));
        lemma_claimant_range(ts, h, h);
        match claimant(ts, h) {
            Some(p) => {
                let hs = child_handles(ts[p]);
                let w = choose|w: int| 0 <= w < hs.len() && hs[w] == h as usize;
                lemma_kept_children(ts, p, hs.len() as int);
                assert(hs[w] as int == h);
                assert(t.nodes[p + 1] == token_node(ts, p));
                assert(kept_children(ts, p, hs.len() as int).contains((hs[w] + 1) as NodeId));
            },
            None => {
                assert(orphans(ts, n).contains((h + 1) as NodeId));
            },
        }
    }
    assert forall|p: int| 0 <= p < t.nodes.len() implies #[trigger] children_ok(t, p) by {
        if p == 0 {
            assert forall|k: int| 0 <= k < t.nodes[p].children.len() implies ({
                let c = #[trigger] t.nodes[p].children[k] as int;
                &&& p < c < t.nodes.len()
                &&& t.nodes[c].parent == Some(p as NodeId)
            }) by {
                let c = orphans(ts, n)[k] as int;
                assert(t.nodes[c] == token_node(ts, c - 1));
            }
        } else {
            let j = p - 1;
            assert(t.nodes[p] == token_node(ts, j));
            let len = child_handles(ts[j]).len() as int;
            lemma_kept_children(ts, j, len);
            assert forall|k: int| 0 <= k < t.nodes[p].children.len() implies ({
                let c = #[trigger] t.nodes[p].children[k] as int;
                &&& p < c < t.nodes.len()
                &&& t.nodes[c].parent == Some(p as NodeId)
            }) by {
                let c = kept_children(ts, j, len)[k] as int;
                assert(claimant(ts, c - 1) == Some(j));
                lemma_claimant_range(ts, c - 1, c - 1);
                assert(t.nodes[c] == token_node(ts, c - 1));
            }
        }
    }
}

/// Sets `key` to `value` in an attribute list whose keys are unique.
fn set_attribute(attrs: &mut Vec<(String, String)>, key: String, value: String)
    ensures
        pairs_view(final(attrs)@) == with_attr(pairs_view(old(attrs)@), key@, value@),
{
    let ghost m = pairs_view(attrs@);
    let n = attrs.len();
    let mut idx: usize = 0;
    let mut found: Option<usize> = None;
    while idx < n && found.is_none()
        invariant
            n == attrs@.len(),
            m == pairs_view(attrs@),
            idx <= n,
            found is None ==> key_position(m, key@, idx as int) == -1,
            found matches Some(f) ==> f < n && key_position(m, key@, n as int) == f as int,
        decreases n - idx,
    {
        proof {
            assert(m[idx as int] == (attrs@[idx as int].0@, attrs@[idx as int].1@));
        }
        if attrs[idx].0 == key {
            proof {
                assert(m[idx as int].0 == key@);
                assert(key_position(m, key@, idx as int + 1) == idx as int);
                lemma_key_position_stable(m, key@, idx as int + 1, n as int);
            }
            found = Some(idx);
        }
        idx += 1;
    }
    assert(m.len() == n);
    match found {
        Some(f) => {
            attrs.set(f, (key, value));
            proof {
                assert(pairs_view(attrs@) =~= m.update(f as int, (key@, value@)));
            }
        },
        None => {
            attrs.push((key, value));
            proof {
                assert(pairs_view(attrs@) =~= m.push((key@, value@)));
            }
        },
    }
}

pub(crate) proof fn lemma_key_position_stable(m: Seq<(Seq<char>, Seq<char>)>, k: Seq<char>, n: int, n2: int)
    requires
        n <= n2,
        key_position(m, k, n) >= 0,
    ensures
        key_position(m, k, n2) == key_position(m, k, n),
    decreases n2 - n,
{
    if n < n2 {
        lemma_key_position_stable(m, k, n, n2 - 1);
    }
}

/// The attribute map of a tag: a repeated key keeps its last value.
fn merge_attributes(attrs: &Vec<(String, String)>) -> (r: Vec<(String, String)>)
    ensures
        pairs_view(r@) == merged_attrs(pairs_view(attrs@), attrs@.len() as int),
{
    let ghost s = pairs_view(attrs@);
    let mut out: Vec<(String, String)> = Vec::new();
    let mut i: usize = 0;
    while i < attrs.len()
        invariant
            s == pairs_view(attrs@),
            i <= attrs@.len(),
            pairs_view(out@) == merged_attrs(s, i as int),
        decreases attrs@.len() - i,
    {
        let key = attrs[i].0.clone();
        let value = attrs[i].1.clone();
        set_attribute(&mut out, key, value);
        i += 1;
    }
    out
}

/// The node for one token, with its resolved children and parent.
fn token_to_node(tok: &Token, children: Vec<NodeId>, parent: NodeId) -> (r: Node)
    ensures
        r@.tag == token_node_tag(tok@),
        r@.attributes == token_node_attrs(tok@),
        r@.text == token_node_text(tok@),
        r@.children == children@,
        r@.parent == Some(parent),
{
    match tok {
        Token::Element { name, attributes, .. } => {
            let merged = merge_attributes(attributes);
            Node { tag: name.clone(), attributes: sorted_attributes(&merged), text: None, children, parent: Some(parent) }
        },
        Token::Text(t) => {
            let r = Node { tag: "text".to_string(), attributes: Vec::new(), text: Some(t.clone()), children, parent: Some(parent) };
            proof {
                assert(pairs_view(r.attributes@) =~= Seq::empty());
            }
            r
        },
        Token::Comment => {
            let r = Node { tag: "comment".to_string(), attributes: Vec::new(), text: None, children, parent: Some(parent) };
            proof {
                assert(pairs_view(r.attributes@) =~= Seq::empty());
            }
            r
        },
    }
}

/// Builds the arena tree of a token stream in one linear pass over the
/// tokens: each element's child handles are resolved to arena ids (a handle
/// out of range, not after its parent, or already claimed is skipped), and
/// every token left without a parent is adopted by the synthetic root.
pub fn build_tree(tokens: &Vec<Token>) -> (r: VDom)
    requires
        tokens@.len() < usize::MAX,
    ensures
        r@ == built_tree(tokens_view(tokens@)),
        well_formed(r@),
{
    let n = tokens.len();
    let ghost ts = tokens_view(tokens@);
    let mut parent_of: Vec<Option<NodeId>> = Vec::new();
    let mut z: usize = 0;
    while z < n
        invariant
            z <= n,
            parent_of@.len() == z,
            forall|h: int| 0 <= h < z ==> parent_of@[h] is None,
        decreases n - z,
    {
        parent_of.push(None);
        z += 1;
    }
    let mut nodes: Vec<Node> = Vec::new();
    nodes.push(Node { tag: String::new(), attributes: Vec::new(), text: None, children: Vec::new(), parent: None });
    let mut root_children: Vec<NodeId> = Vec::new();
    let mut i: usize = 0;
    while i < n
        invariant
            n == tokens@.len(),
            n < usize::MAX,
            ts == tokens_view(tokens@),
            i <= n,
            parent_of@.len() == n,
            forall|h: int| 0 <= h < n ==> #[trigger] parent_of@[h] == arena_parent(claimant_below(ts, h, if i < h { i as int } else { h })),
            nodes@.len() == i + 1,
            forall|j: int| 0 <= j < i ==> #[trigger] nodes@[j + 1]@ == token_node(ts, j),
            root_children@ == orphans(ts, i as int),
        decreases n - i,
    {
        let mut row: Vec<NodeId> = Vec::new();
        let ghost hs = child_handles(ts[i as int]);
        if let Token::Element { children, .. } = &tokens[i] {
            let mut k: usize = 0;
            while k < children.len()
                invariant
                    n == tokens@.len(),
                    ts == tokens_view(tokens@),
                    i < n,
                    hs == children@,
                    hs == child_handles(ts[i as int]),
                    k <= hs.len(),
                    parent_of@.len() == n,
                    forall|h: int| 0 <= h < n ==> #[trigger] parent_of@[h] == (
                        if i < h && claimant_below(ts, h, i as int) is None && hs.subrange(0, k as int).contains(h as usize) {
                            Some((i + 1) as NodeId)
                        } else {
                            arena_parent(claimant_below(ts, h, if i < h { i as int } else { h }))
                        }),
                    row@ == kept_children(ts, i as int, k as int),
                decreases hs.len() - k,
            {
                let hh = children[k];
                proof {
                    assert(hs[k as int] == hh);
                    assert(hs.contains(hh));
                    assert(hs.subrange(0, k + 1) =~= hs.subrange(0, k as int).push(hh));
                    lemma_claimant_range(ts, hh as int, hh as int);
                    lemma_claimant_range(ts, hh as int, i as int);
                    if (hh as int) < n && i < hh && claimant_below(ts, hh as int, i as int) is Some {
                        lemma_claimant_stable(ts, hh as int, i as int, hh as int);
                    }
                    if (hh as int) < n && i < hh && claimant_below(ts, hh as int, i as int) is None {
                        assert(hs[k as int] == hh);
                        assert(claimant_below(ts, hh as int, i + 1) == Some(i as int));
                        lemma_claimant_stable(ts, hh as int, i + 1, hh as int);
                    }
                }
                proof {
                    assert(hs[k as int] == hh);
                    assert(kept_children(ts, i as int, k + 1) == if (hh as int) < ts.len() && claimant(ts, hh as int) == Some(i as int)
                        && !hs.subrange(0, k as int).contains(hh) {
                        kept_children(ts, i as int, k as int).push((hh + 1) as NodeId)
                    } else {
                        kept_children(ts, i as int, k as int)
                    });
                }
                if hh < n && hh > i && parent_of[hh].is_none() {
                    row.push(hh + 1);
                    parent_of.set(hh, Some(i + 1));
                }
                proof {
                    let pre = hs.subrange(0, k as int);
                    let post = hs.subrange(0, k + 1);
                    assert forall|h: int| 0 <= h < n implies #[trigger] post.contains(h as usize) == (pre.contains(h as usize) || h as usize == hh) by {
                        if post.contains(h as usize) {
                            let w = choose|w: int| 0 <= w < post.len() && post[w] == h as usize;
                            if w < k {
                                assert(pre[w] == h as usize);
                            }
                        }
                        if pre.contains(h as usize) {
                            let w = choose|w: int| 0 <= w < pre.len() && pre[w] == h as usize;
                            assert(post[w] == h as usize);
                        }
                        if h as usize == hh {
                            assert(post[k as int] == hh);
                        }
                    }
                }
                k += 1;
            }
            proof {
                assert(hs.subrange(0, hs.len() as int) =~= hs);
            }
        }
        proof {
            assert forall|h: int| 0 <= h < n implies #[trigger] parent_of@[h] == arena_parent(claimant_below(ts, h, if i + 1 < h { i + 1 } else { h })) by {
                if i < h {
                    assert(claimant_below(ts, h, i + 1) == if claimant_below(ts, h, i as int) is Some {
                        claimant_below(ts, h, i as int)
                    } else if hs.contains(h as usize) { Some(i as int) } else { None });
                }
            }
            assert(row@ == kept_children(ts, i as int, hs.len() as int));
        }
        let parent: NodeId = match parent_of[i] {
            Some(p) => p,
            None => {
                root_children.push(i + 1);
                0
            },
        };
        let node = token_to_node(&tokens[i], row, parent);
        nodes.push(node);
        proof {
            assert(nodes@[i + 1]@ == token_node(ts, i as int));
        }
        i += 1;
    }
    let root = Node { tag: "document".to_string(), attributes: Vec::new(), text: None, children: root_children, parent: None };
    nodes.set(0, root);
    let r = VDom { nodes, root: 0 };
    proof {
        assert(pairs_view(r.nodes@[0].attributes@) =~= Seq::empty());
        assert forall|j: int| 0 < j <= n implies r@.nodes[j] == built_tree(ts).nodes[j] by {
            assert(nodes@[(j - 1) + 1]@ == token_node(ts, j - 1));
        }
        assert(r@.nodes =~= built_tree(ts).nodes);
        lemma_built_tree_well_formed(ts);
    }
    r
}

proof fn lemma_key_position(m: Seq<(Seq<char>, Seq<char>)>, k: Seq<char>, n: int)
    requires
        0 <= n <= m.len(),
    ensures
        key_position(m, k, n) < 0 <==> forall|j: int| 0 <= j < n ==> #[trigger] m[j].0 != k,
        key_position(m, k, n) >= 0 ==> key_position(m, k, n) < n && m[key_position(m, k, n)].0 == k,
    decreases n,
{
    if n > 0 {
        lemma_key_position(m, k, n - 1);
    }
}

proof fn lemma_merged_distinct(s: Seq<(Seq<char>, Seq<char>)>, n: int)
    requires
        0 <= n <= s.len(),
    ensures
        keys_distinct(merged_attrs(s, n)),
    decreases n,
{
    if n > 0 {
        lemma_merged_distinct(s, n - 1);
        let prev = merged_attrs(s, n - 1);
        let k = s[n - 1].0;
        let v = s[n - 1].1;
        lemma_key_position(prev, k, prev.len() as int);
        let r = with_attr(prev, k, v);
        let p = key_position(prev, k, prev.len() as int);
        assert forall|i: int, j: int| 0 <= i < j < r.len() implies #[trigger] r[i].0 != #[trigger] r[j].0 by {
            if p >= 0 {
                assert(r[i].0 == prev[i].0 && r[j].0 == prev[j].0);
            } else if j < prev.len() {
                assert(r[i] == prev[i] && r[j] == prev[j]);
            } else {
                assert(r[i] == prev[i]);
            }
        }
    }
}

/// Whether the tokenizer accepts `html`, with few enough tokens to number.
pub open spec fn parses(html: Seq<char>) -> bool {
    markup_tokens(html) matches Some(ms) && ms.len() < usize::MAX
}

/// The tree of a document: the tree built from a token list that agrees
/// with the tokenizer's stream. Every such list builds the same tree
/// (`lemma_built_tree_determined`).
pub open spec fn markup_tree(html: Seq<char>) -> VDomView {
    built_tree(choose|ts: Seq<TokenView>| tokens_match(ts, markup_tokens(html)->Some_0))
}

/// Sibling order is document order: every child list increases.
pub open spec fn siblings_ordered(t: VDomView) -> bool {
    forall|p: int, a: int, b: int|
        0 <= p < t.nodes.len() && 0 <= a < b < t.nodes[p].children.len() ==> #[trigger] t.nodes[p].children[a]
            < #[trigger] t.nodes[p].children[b]
}

/// Every node lists its attributes once each, in strictly increasing key
/// order.
pub open spec fn attributes_sorted(t: VDomView) -> bool {
    forall|i: int| 0 <= i < t.nodes.len() ==> strictly_sorted(#[trigger] t.nodes[i].attributes)
}

/// Two token lists with the same length and the same child handles.
pub open spec fn same_handles(ts1: Seq<TokenView>, ts2: Seq<TokenView>) -> bool {
    &&& ts1.len() == ts2.len()
    &&& forall|i: int| 0 <= i < ts1.len() ==> #[trigger] child_handles(ts1[i]) == child_handles(ts2[i])
}

proof fn lemma_same_handles_claimant(ts1: Seq<TokenView>, ts2: Seq<TokenView>, h: int, m: int)
    requires
        same_handles(ts1, ts2),
        m <= ts1.len(),
    ensures
        claimant_below(ts1, h, m) == claimant_below(ts2, h, m),
    decreases m,
{
    if m > 0 {
        lemma_same_handles_claimant(ts1, ts2, h, m - 1);
        assert(child_handles(ts1[m - 1]) == child_handles(ts2[m - 1]));
    }
}

proof fn lemma_same_handles_kept(ts1: Seq<TokenView>, ts2: Seq<TokenView>, j: int, k: int)
    requires
        same_handles(ts1, ts2),
        0 <= j < ts1.len(),
        k <= child_handles(ts1[j]).len(),
    ensures
        kept_children(ts1, j, k) == kept_children(ts2, j, k),
    decreases k,
{
    if k > 0 {
        lemma_same_handles_kept(ts1, ts2, j, k - 1);
        assert(child_handles(ts1[j]) == child_handles(ts2[j]));
        let h = child_handles(ts1[j])[k - 1] as int;
        if h < ts1.len() {
            lemma_same_handles_claimant(ts1, ts2, h, h);
        }
    }
}

proof fn lemma_same_handles_orphans(ts1: Seq<TokenView>, ts2: Seq<TokenView>, m: int)
    requires
        same_handles(ts1, ts2),
        m <= ts1.len(),
    ensures
        orphans(ts1, m) == orphans(ts2, m),
    decreases m,
{
    if m > 0 {
        lemma_same_handles_orphans(ts1, ts2, m - 1);
        lemma_same_handles_claimant(ts1, ts2, m - 1, m - 1);
    }
}

/// Any two token lists that agree with one tokenizer stream build the same
/// tree: the attributes' order is the only freedom, and the builder sorts it
/// away.
pub proof fn lemma_built_tree_determined(ts1: Seq<TokenView>, ts2: Seq<TokenView>, ms: Seq<MarkupToken>)
    requires
        tokens_match(ts1, ms),
        tokens_match(ts2, ms),
    ensures
        built_tree(ts1) == built_tree(ts2),
{
    assert(same_handles(ts1, ts2)) by {
        assert forall|i: int| 0 <= i < ts1.len() implies #[trigger] child_handles(ts1[i]) == child_handles(ts2[i]) by {
            assert(crate::infra::parser::tokens::token_matches(ts1[i], ms[i]));
            assert(crate::infra::parser::tokens::token_matches(ts2[i], ms[i]));
        }
    }
    let n = ts1.len() as int;
    lemma_same_handles_orphans(ts1, ts2, n);
    assert forall|j: int| 0 <= j < n implies token_node(ts1, j) == token_node(ts2, j) by {
        assert(crate::infra::parser::tokens::token_matches(ts1[j], ms[j]));
        assert(crate::infra::parser::tokens::token_matches(ts2[j], ms[j]));
        lemma_same_handles_kept(ts1, ts2, j, child_handles(ts1[j]).len() as int);
        lemma_same_handles_claimant(ts1, ts2, j, j);
        if let TokenView::Element { attributes: a1, .. } = ts1[j] {
            if let TokenView::Element { attributes: a2, .. } = ts2[j] {
                let m1 = merged_attrs(a1, a1.len() as int);
                let m2 = merged_attrs(a2, a2.len() as int);
                lemma_merged_distinct(a1, a1.len() as int);
                lemma_merged_distinct(a2, a2.len() as int);
                assert(same_entries(m1, m2));
                lemma_sorted_attributes(m1, m2);
            }
        }
    }
    assert(built_tree(ts1).nodes =~= built_tree(ts2).nodes);
}

proof fn lemma_kept_increasing(ts: Seq<TokenView>, j: int, k: int)
    requires
        0 <= j < ts.len() < usize::MAX,
        0 <= k <= child_handles(ts[j]).len(),
        handles_ordered(ts),
    ensures
        forall|a: int, b: int| 0 <= a < b < kept_children(ts, j, k).len() ==> #[trigger] kept_children(ts, j, k)[a]
            < #[trigger] kept_children(ts, j, k)[b],
    decreases k,
{
    if k > 0 {
        lemma_kept_increasing(ts, j, k - 1);
        lemma_kept_children(ts, j, k - 1);
        let hs = child_handles(ts[j]);
        let prev = kept_children(ts, j, k - 1);
        let cur = kept_children(ts, j, k);
        assert forall|a: int, b: int| 0 <= a < b < cur.len() implies #[trigger] cur[a] < #[trigger] cur[b] by {
            if b < prev.len() {
                assert(cur[a] == prev[a] && cur[b] == prev[b]);
            } else {
                assert(cur[a] == prev[a]);
                assert(cur[b] == (hs[k - 1] + 1) as NodeId);
                let x = prev[a] as int;
                let w = choose|w: int| 0 <= w < k - 1 && hs[w] as int + 1 == x;
                assert(hs[w] < hs[k - 1]);
            }
        }
    }
}

proof fn lemma_built_tree_ordered(ts: Seq<TokenView>)
    requires
        ts.len() < usize::MAX,
        handles_ordered(ts),
    ensures
        siblings_ordered(built_tree(ts)),
        attributes_sorted(built_tree(ts)),
{
    let t = built_tree(ts);
    let n = ts.len() as int;
    lemma_orphans(ts, n);
    assert forall|p: int, a: int, b: int|
        0 <= p < t.nodes.len() && 0 <= a < b < t.nodes[p].children.len() implies #[trigger] t.nodes[p].children[a]
            < #[trigger] t.nodes[p].children[b] by {
        if p == 0 {
            assert(t.nodes[0] == document_node(ts));
            orphans_increasing(ts, n, a, b);
        } else {
            assert(t.nodes[p] == token_node(ts, p - 1));
            lemma_kept_increasing(ts, p - 1, child_handles(ts[p - 1]).len() as int);
        }
    }
    assert forall|i: int| 0 <= i < t.nodes.len() implies strictly_sorted(#[trigger] t.nodes[i].attributes) by {
        if i > 0 {
            assert(t.nodes[i] == token_node(ts, i - 1));
            if let TokenView::Element { attributes: a1, .. } = ts[i - 1] {
                let m1 = merged_attrs(a1, a1.len() as int);
                lemma_merged_distinct(a1, a1.len() as int);
                lemma_sorted_attributes(m1, m1);
            }
        } else {
            assert(t.nodes[0] == document_node(ts));
        }
    }
}

proof fn orphans_increasing(ts: Seq<TokenView>, m: int, a: int, b: int)
    requires
        0 <= m <= ts.len() < usize::MAX,
        0 <= a < b < orphans(ts, m).len(),
    ensures
        orphans(ts, m)[a] < orphans(ts, m)[b],
    decreases m,
{
    if m > 0 {
        let prev = orphans(ts, m - 1);
        lemma_orphans(ts, m - 1);
        if claimant(ts, m - 1) is None {
            if b < prev.len() {
                orphans_increasing(ts, m - 1, a, b);
            } else {
                assert(orphans(ts, m)[a] == prev[a]);
                assert(1 <= prev[a] as int <= m - 1);
            }
        } else {
            orphans_increasing(ts, m - 1, a, b);
        }
    }
}

/// A parser backend: markup to an arena tree.
pub trait ParserBackend {
    /// Parses markup into a tree.
    fn parse(&self, html: &str) -> Result<VDom, ParseError>;
}

impl ParserBackend for HtmlParser {
    fn parse(&self, html: &str) -> Result<VDom, ParseError> {
        HtmlParser::parse(self, html)
    }
}

/// The HTML parser: the markup tokenizer followed by the tree builder.
#[derive(Debug, Clone, Copy)]
pub struct HtmlParser;

impl HtmlParser {
    /// Creates a parser.
    pub fn new() -> (r: HtmlParser) {
        HtmlParser
    }

    /// Parses markup into a connected arena tree. Fails with `ParsingFailed`
    /// exactly when the tokenizer refuses the input or yields more tokens
    /// than an arena can number.
    pub fn parse(&self, html: &str) -> (r: Result<VDom, ParseError>)
        ensures
            r is Ok <==> parses(html@),
            r matches Ok(t) ==> {
                &&& t@ == markup_tree(html@)
                &&& well_formed(t@)
                &&& siblings_ordered(t@)
                &&& attributes_sorted(t@)
            },
            r matches Err(e) ==> e is ParsingFailed,
    {
        match tokenize(html) {
            Some(tokens) => {
                if tokens.len() == usize::MAX {
                    Err(ParseError::ParsingFailed("too many nodes".to_string()))
                } else {
                    let r = build_tree(&tokens);
                    proof {
                        let ts = tokens_view(tokens@);
                        let ms = markup_tokens(html@)->Some_0;
                        let cts = choose|c: Seq<TokenView>| tokens_match(c, ms);
                        lemma_built_tree_determined(ts, cts, ms);
                        lemma_built_tree_ordered(ts);
                    }
                    Ok(r)
                }
            },
            None => Err(ParseError::ParsingFailed("input too long".to_string())),
        }
    }
}

/// The parser's tree is connected for every input it accepts: each node but
/// the root has a parent, and no node is listed as a child by two different
/// parents. `ts` is the token list that `tokenize` gives for `html`.
pub proof fn lemma_parse_connected(html: Seq<char>, ts: Seq<TokenView>)
    requires
        parses(html),
        tokens_match(ts, markup_tokens(html)->Some_0),
    ensures
        markup_tree(html) == built_tree(ts),
        ({
            let t = markup_tree(html);
            &&& forall|i: int| 0 < i < t.nodes.len() ==> (#[trigger] t.nodes[i]).parent is Some
            &&& forall|p1: int, p2: int, c: NodeId|
                0 <= p1 < t.nodes.len() && 0 <= p2 < t.nodes.len()
                    && #[trigger] t.nodes[p1].children.contains(c)
                    && #[trigger] t.nodes[p2].children.contains(c) ==> p1 == p2
        }),
{
    let ms = markup_tokens(html)->Some_0;
    let cts = choose|c: Seq<TokenView>| tokens_match(c, ms);
    lemma_built_tree_determined(ts, cts, ms);
    let t = built_tree(ts);
    lemma_built_tree_well_formed(ts);
    assert forall|i: int| 0 < i < t.nodes.len() implies (#[trigger] t.nodes[i]).parent is Some by {
        assert(parent_ok(t, i));
    }
    assert forall|p1: int, p2: int, c: NodeId|
        0 <= p1 < t.nodes.len() && 0 <= p2 < t.nodes.len()
            && #[trigger] t.nodes[p1].children.contains(c)
            && #[trigger] t.nodes[p2].children.contains(c) implies p1 == p2 by {
        assert(children_ok(t, p1));
        assert(children_ok(t, p2));
        let k1 = choose|k: int| 0 <= k < t.nodes[p1].children.len() && t.nodes[p1].children[k] == c;
        let k2 = choose|k: int| 0 <= k < t.nodes[p2].children.len() && t.nodes[p2].children[k] == c;
        assert(t.nodes[c as int].parent == Some(p1 as NodeId));
        assert(t.nodes[c as int].parent == Some(p2 as NodeId));
    }
}

} // verus!

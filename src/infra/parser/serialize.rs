//! Deterministic serialization of arena subtrees back to markup.

use crate::infra::parser::tokens::pairs_view;
use crate::infra::parser::vdom::{children_ok, well_formed, NodeId, VDom, VDomView};
use std::collections::HashSet;
use vstd::prelude::*;
use vstd::string::{StrSliceExecFns, StringExecFns};

verus! {

broadcast use vstd::std_specs::hash::group_hash_axioms;

/// Key order of attributes: lexicographic by code point, which on UTF-8
/// text is also the order of the bytes (the order of `str`'s `Ord`).
pub open spec fn key_less(a: Seq<char>, b: Seq<char>) -> bool
    decreases a.len(),
{
    if a.len() == 0 {
        b.len() > 0
    } else if b.len() == 0 {
        false
    } else if a[0] != b[0] {
        a[0] < b[0]
    } else {
        key_less(a.drop_first(), b.drop_first())
    }
}

proof fn lemma_key_less_irreflexive(a: Seq<char>)
    ensures
        !key_less(a, a),
    decreases a.len(),
{
    if a.len() > 0 {
        lemma_key_less_irreflexive(a.drop_first());
    }
}

proof fn lemma_key_less_transitive(a: Seq<char>, b: Seq<char>, c: Seq<char>)
    requires
        key_less(a, b),
        key_less(b, c),
    ensures
        key_less(a, c),
    decreases a.len(),
{
    if a.len() > 0 && a[0] == b[0] && b[0] == c[0] {
        lemma_key_less_transitive(a.drop_first(), b.drop_first(), c.drop_first());
    }
}

proof fn lemma_key_less_total(a: Seq<char>, b: Seq<char>)
    requires
        a != b,
    ensures
        key_less(a, b) || key_less(b, a),
    decreases a.len(),
{
    if a.len() > 0 && b.len() > 0 && a[0] == b[0] {
        if a.drop_first() == b.drop_first() {
            assert(a.drop_first().len() == a.len() - 1 && b.drop_first().len() == b.len() - 1);
            assert(a.len() == b.len());
            assert(a =~= b) by {
                assert forall|i: int| 0 <= i < a.len() implies a[i] == b[i] by {
                    if i > 0 {
                        assert(a[i] == a.drop_first()[i - 1]);
                        assert(b[i] == b.drop_first()[i - 1]);
                    }
                }
            }
        }
        lemma_key_less_total(a.drop_first(), b.drop_first());
    } else if a.len() == 0 && b.len() == 0 {
        assert(a =~= b);
    }
}

proof fn lemma_key_less_asymmetric(a: Seq<char>, b: Seq<char>)
    ensures
        key_less(a, b) ==> !key_less(b, a),
{
    if key_less(a, b) && key_less(b, a) {
        lemma_key_less_transitive(a, b, a);
        lemma_key_less_irreflexive(a);
    }
}

/// No two entries share a key.
pub open spec fn keys_distinct(s: Seq<(Seq<char>, Seq<char>)>) -> bool {
    forall|i: int, j: int| 0 <= i < j < s.len() ==> #[trigger] s[i].0 != #[trigger] s[j].0
}

/// Keys strictly increase.
pub open spec fn strictly_sorted(s: Seq<(Seq<char>, Seq<char>)>) -> bool {
    forall|i: int, j: int| 0 <= i < j < s.len() ==> key_less(#[trigger] s[i].0, #[trigger] s[j].0)
}

/// The same entries, whatever their order.
pub open spec fn same_entries(s: Seq<(Seq<char>, Seq<char>)>, t: Seq<(Seq<char>, Seq<char>)>) -> bool {
    forall|p: (Seq<char>, Seq<char>)| #![trigger s.contains(p)] #![trigger t.contains(p)] s.contains(p) <==> t.contains(p)
}

/// Where `x` goes in `s`: before the first entry whose key it precedes.
pub open spec fn insert_pos(s: Seq<(Seq<char>, Seq<char>)>, x: (Seq<char>, Seq<char>)) -> int
    decreases s.len(),
{
    if s.len() == 0 {
        0
    } else if key_less(x.0, s[0].0) {
        0
    } else {
        1 + insert_pos(s.drop_first(), x)
    }
}

/// Attributes sorted by key (insertion order among equal keys).
pub open spec fn sort_attrs(s: Seq<(Seq<char>, Seq<char>)>) -> Seq<(Seq<char>, Seq<char>)>
    decreases s.len(),
{
    if s.len() == 0 {
        s
    } else {
        let rest = sort_attrs(s.drop_last());
        rest.insert(insert_pos(rest, s.last()), s.last())
    }
}

proof fn lemma_insert_pos(s: Seq<(Seq<char>, Seq<char>)>, x: (Seq<char>, Seq<char>), p: int)
    requires
        0 <= p <= s.len(),
        forall|j: int| 0 <= j < p ==> !key_less(x.0, #[trigger] s[j].0),
        p == s.len() || key_less(x.0, s[p].0),
    ensures
        insert_pos(s, x) == p,
    decreases s.len(),
{
    if s.len() > 0 && p > 0 {
        assert(!key_less(x.0, s[0].0));
        assert forall|j: int| 0 <= j < p - 1 implies !key_less(x.0, #[trigger] s.drop_first()[j].0) by {
            assert(s.drop_first()[j] == s[j + 1]);
        }
        lemma_insert_pos(s.drop_first(), x, p - 1);
    }
}

proof fn lemma_key_less_step(a: Seq<char>, b: Seq<char>, i: int)
    requires
        0 <= i < a.len(),
        i < b.len(),
        a[i] == b[i],
    ensures
        key_less(a.skip(i), b.skip(i)) == key_less(a.skip(i + 1), b.skip(i + 1)),
{
    assert(a.skip(i).drop_first() =~= a.skip(i + 1));
    assert(b.skip(i).drop_first() =~= b.skip(i + 1));
}

proof fn lemma_insert_pos_bounds(s: Seq<(Seq<char>, Seq<char>)>, x: (Seq<char>, Seq<char>))
    ensures
        0 <= insert_pos(s, x) <= s.len(),
        forall|j: int| 0 <= j < insert_pos(s, x) ==> !key_less(x.0, #[trigger] s[j].0),
        insert_pos(s, x) < s.len() ==> key_less(x.0, s[insert_pos(s, x)].0),
    decreases s.len(),
{
    if s.len() > 0 && !key_less(x.0, s[0].0) {
        let t = s.drop_first();
        lemma_insert_pos_bounds(t, x);
        assert forall|j: int| 0 <= j < insert_pos(s, x) implies !key_less(x.0, #[trigger] s[j].0) by {
            if j > 0 {
                assert(s[j] == t[j - 1]);
            }
        }
        if insert_pos(s, x) < s.len() {
            assert(s[insert_pos(s, x)] == t[insert_pos(t, x)]);
        }
    }
}

proof fn lemma_sort_contents(s: Seq<(Seq<char>, Seq<char>)>)
    ensures
        sort_attrs(s).len() == s.len(),
        same_entries(sort_attrs(s), s),
    decreases s.len(),
{
    if s.len() > 0 {
        let d = s.drop_last();
        let rest = sort_attrs(d);
        lemma_sort_contents(d);
        let x = s.last();
        let p = insert_pos(rest, x);
        lemma_insert_pos_bounds(rest, x);
        let r = rest.insert(p, x);
        assert forall|q: (Seq<char>, Seq<char>)| r.contains(q) <==> s.contains(q) by {
            if r.contains(q) {
                let k = choose|k: int| 0 <= k < r.len() && r[k] == q;
                if k < p {
                    assert(rest[k] == q);
                    assert(rest.contains(q));
                    let m = choose|m: int| 0 <= m < d.len() && d[m] == q;
                    assert(s[m] == q);
                } else if k == p {
                    assert(s[s.len() - 1] == q);
                } else {
                    assert(rest[k - 1] == q);
                    assert(rest.contains(q));
                    let m = choose|m: int| 0 <= m < d.len() && d[m] == q;
                    assert(s[m] == q);
                }
            }
            if s.contains(q) {
                let m = choose|m: int| 0 <= m < s.len() && s[m] == q;
                if m == s.len() - 1 {
                    assert(r[p] == q);
                } else {
                    assert(d[m] == q);
                    assert(d.contains(q));
                    let k = choose|k: int| 0 <= k < rest.len() && rest[k] == q;
                    if k < p {
                        assert(r[k] == q);
                    } else {
                        assert(r[k + 1] == q);
                    }
                }
            }
        }
    }
}

proof fn lemma_sort_strict(s: Seq<(Seq<char>, Seq<char>)>)
    requires
        keys_distinct(s),
    ensures
        strictly_sorted(sort_attrs(s)),
    decreases s.len(),
{
    if s.len() > 0 {
        let d = s.drop_last();
        assert(keys_distinct(d)) by {
            assert forall|i: int, j: int| 0 <= i < j < d.len() implies #[trigger] d[i].0 != #[trigger] d[j].0 by {
                assert(d[i] == s[i] && d[j] == s[j]);
            }
        }
        lemma_sort_strict(d);
        lemma_sort_contents(d);
        let rest = sort_attrs(d);
        let x = s.last();
        let p = insert_pos(rest, x);
        lemma_insert_pos_bounds(rest, x);
        let r = rest.insert(p, x);
        assert forall|k: int| 0 <= k < rest.len() implies rest[k].0 != x.0 by {
            assert(rest.contains(rest[k]));
            assert(d.contains(rest[k]));
            let m = choose|m: int| 0 <= m < d.len() && d[m] == rest[k];
            assert(s[m] == d[m]);
            assert(s[m].0 != s[s.len() - 1].0);
        }
        assert forall|i: int, j: int| 0 <= i < j < r.len() implies key_less(#[trigger] r[i].0, #[trigger] r[j].0) by {
            if j < p {
                assert(r[i] == rest[i] && r[j] == rest[j]);
            } else if j == p {
                assert(r[i] == rest[i] && r[j] == x);
                assert(rest[i].0 != x.0);
                lemma_key_less_total(rest[i].0, x.0);
            } else if i < p {
                assert(r[i] == rest[i] && r[j] == rest[j - 1]);
            } else if i == p {
                assert(r[i] == x && r[j] == rest[j - 1]);
                if j - 1 > p {
                    assert(key_less(rest[p].0, rest[j - 1].0));
                    lemma_key_less_transitive(x.0, rest[p].0, rest[j - 1].0);
                }
            } else {
                assert(r[i] == rest[i - 1] && r[j] == rest[j - 1]);
            }
        }
    }
}

proof fn lemma_sorted_unique(s: Seq<(Seq<char>, Seq<char>)>, t: Seq<(Seq<char>, Seq<char>)>)
    requires
        strictly_sorted(s),
        strictly_sorted(t),
        same_entries(s, t),
    ensures
        s == t,
    decreases s.len(),
{
    if s.len() == 0 || t.len() == 0 {
        if t.len() > 0 {
            assert(t.contains(t[0]));
        }
        if s.len() > 0 {
            assert(s.contains(s[0]));
        }
        assert(s =~= t);
    } else {
        assert(s.contains(s[0]));
        assert(t.contains(t[0]));
        let j = choose|j: int| 0 <= j < t.len() && t[j] == s[0];
        let i = choose|i: int| 0 <= i < s.len() && s[i] == t[0];
        if j > 0 {
            assert(key_less(t[0].0, t[j].0));
            if i > 0 {
                assert(key_less(s[0].0, s[i].0));
                lemma_key_less_asymmetric(s[0].0, t[0].0);
            } else {
                lemma_key_less_irreflexive(s[0].0);
            }
        }
        assert(s[0] == t[0]);
        let s2 = s.drop_first();
        let t2 = t.drop_first();
        assert(strictly_sorted(s2)) by {
            assert forall|a: int, b: int| 0 <= a < b < s2.len() implies key_less(#[trigger] s2[a].0, #[trigger] s2[b].0) by {
                assert(s2[a] == s[a + 1] && s2[b] == s[b + 1]);
            }
        }
        assert(strictly_sorted(t2)) by {
            assert forall|a: int, b: int| 0 <= a < b < t2.len() implies key_less(#[trigger] t2[a].0, #[trigger] t2[b].0) by {
                assert(t2[a] == t[a + 1] && t2[b] == t[b + 1]);
            }
        }
        assert forall|q: (Seq<char>, Seq<char>)| s2.contains(q) <==> t2.contains(q) by {
            if s2.contains(q) {
                let k = choose|k: int| 0 <= k < s2.len() && s2[k] == q;
                assert(s[k + 1] == q);
                assert(s.contains(q));
                assert(key_less(s[0].0, s[k + 1].0));
                lemma_key_less_irreflexive(q.0);
                let m = choose|m: int| 0 <= m < t.len() && t[m] == q;
                assert(m != 0);
                assert(t2[m - 1] == q);
            }
            if t2.contains(q) {
                let k = choose|k: int| 0 <= k < t2.len() && t2[k] == q;
                assert(t[k + 1] == q);
                assert(t.contains(q));
                assert(key_less(t[0].0, t[k + 1].0));
                lemma_key_less_irreflexive(q.0);
                let m = choose|m: int| 0 <= m < s.len() && s[m] == q;
                assert(m != 0);
                assert(s2[m - 1] == q);
            }
        }
        lemma_sorted_unique(s2, t2);
        assert(s =~= t) by {
            assert forall|k: int| 0 <= k < s.len() implies s[k] == t[k] by {
                if k > 0 {
                    assert(s[k] == s2[k - 1] && t[k] == t2[k - 1]);
                }
            }
        }
    }
}

/// Sorting attributes whose keys are distinct lists each entry once, in
/// strictly increasing key order; two attribute lists with the same entries
/// sort to the same sequence, whatever order they came in.
pub proof fn lemma_sorted_attributes(s: Seq<(Seq<char>, Seq<char>)>, t: Seq<(Seq<char>, Seq<char>)>)
    requires
        keys_distinct(s),
        keys_distinct(t),
        same_entries(s, t),
    ensures
        strictly_sorted(sort_attrs(s)),
        same_entries(sort_attrs(s), s),
        sort_attrs(s).len() == s.len(),
        sort_attrs(s) == sort_attrs(t),
{
    lemma_sort_contents(s);
    lemma_sort_contents(t);
    lemma_sort_strict(s);
    lemma_sort_strict(t);
    assert(same_entries(sort_attrs(s), sort_attrs(t)));
    lemma_sorted_unique(sort_attrs(s), sort_attrs(t));
}

/// Whether key `a` sorts before key `b`.
fn key_precedes(a: &str, b: &str) -> (r: bool)
    ensures
        r == key_less(a@, b@),
{
    let n = a.unicode_len();
    let m = b.unicode_len();
    let mut i: usize = 0;
    proof {
        assert(a@.skip(0) =~= a@);
        assert(b@.skip(0) =~= b@);
    }
    while i < n && i < m
        invariant
            n == a@.len(),
            m == b@.len(),
            i <= n,
            i <= m,
            key_less(a@.skip(i as int), b@.skip(i as int)) == key_less(a@, b@),
        decreases n - i,
    {
        let x = a.get_char(i);
        let y = b.get_char(i);
        if x != y {
            proof {
                assert(a@.skip(i as int)[0] == x && b@.skip(i as int)[0] == y);
            }
            return x < y;
        }
        proof {
            lemma_key_less_step(a@, b@, i as int);
        }
        i += 1;
    }
    proof {
        assert(a@.skip(i as int).len() == n - i);
        assert(b@.skip(i as int).len() == m - i);
    }
    i < m
}

/// The attributes, copied and sorted by key.
pub(crate) fn sorted_attributes(attrs: &Vec<(String, String)>) -> (r: Vec<(String, String)>)
    ensures
        pairs_view(r@) == sort_attrs(pairs_view(attrs@)),
{
    let ghost s = pairs_view(attrs@);
    let mut out: Vec<(String, String)> = Vec::new();
    let mut i: usize = 0;
    while i < attrs.len()
        invariant
            i <= attrs@.len(),
            s == pairs_view(attrs@),
            pairs_view(out@) == sort_attrs(s.subrange(0, i as int)),
        decreases attrs@.len() - i,
    {
        let key = attrs[i].0.clone();
        let value = attrs[i].1.clone();
        let ghost x = (key@, value@);
        let ghost cur = pairs_view(out@);
        let mut p: usize = 0;
        while p < out.len() && !key_precedes(key.as_str(), out[p].0.as_str())
            invariant
                p <= out@.len(),
                cur == pairs_view(out@),
                x == (key@, value@),
                forall|j: int| 0 <= j < p ==> !key_less(x.0, #[trigger] cur[j].0),
            decreases out@.len() - p,
        {
            proof {
                assert(cur[p as int].0 == out@[p as int].0@);
            }
            p += 1;
        }
        proof {
            lemma_insert_pos(cur, x, p as int);
            assert(s.subrange(0, i + 1).drop_last() =~= s.subrange(0, i as int));
            assert(s.subrange(0, i + 1).last() == x);
        }
        out.insert(p, (key, value));
        proof {
            assert(pairs_view(out@) =~= cur.insert(p as int, x));
        }
        i += 1;
    }
    proof {
        assert(s.subrange(0, attrs@.len() as int) =~= s);
    }
    out
}

/// The characters that stand for `c` inside a double-quoted attribute value.
pub open spec fn escape_char(c: char) -> Seq<char> {
    if c == '&' {
        "&amp;"@
    } else if c == '<' {
        "&lt;"@
    } else if c == '>' {
        "&gt;"@
    } else if c == '"' {
        "&quot;"@
    } else {
        seq![c]
    }
}

/// A value escaped for a double-quoted attribute.
pub open spec fn escape_attr(s: Seq<char>) -> Seq<char>
    decreases s.len(),
{
    if s.len() == 0 {
        Seq::empty()
    } else {
        escape_attr(s.drop_last()) + escape_char(s.last())
    }
}

/// Relies on `html_escape::encode_double_quoted_attribute`: it replaces
/// `&`, `<`, `>` and `"` by their entities and keeps every other character.
#[verifier::external_body]
fn escape_attribute(value: &str) -> (r: String)
    ensures
        r@ == escape_attr(value@),
{
    html_escape::encode_double_quoted_attribute(value).into_owned()
}

/// The elements written without a closing tag.
pub open spec fn is_void(tag: Seq<char>) -> bool {
    tag == "area"@ || tag == "base"@ || tag == "br"@ || tag == "col"@ || tag == "embed"@ || tag == "hr"@
        || tag == "img"@ || tag == "input"@ || tag == "link"@ || tag == "meta"@ || tag == "param"@
        || tag == "source"@ || tag == "track"@ || tag == "wbr"@
}

/// One attribute in a start tag: ` key`, or ` key="value"` with the value
/// escaped where it is not empty.
pub open spec fn attr_text(a: (Seq<char>, Seq<char>)) -> Seq<char> {
    if a.1.len() == 0 {
        " "@ + a.0
    } else {
        " "@ + a.0 + "=\""@ + escape_attr(a.1) + "\""@
    }
}

/// A list of attributes in a start tag.
pub open spec fn attrs_text(s: Seq<(Seq<char>, Seq<char>)>) -> Seq<char>
    decreases s.len(),
{
    if s.len() == 0 {
        Seq::empty()
    } else {
        attrs_text(s.drop_last()) + attr_text(s.last())
    }
}

/// The markup of node `id` and its descendants, skipping the ids in `excl`:
/// text is inlined, comments are dropped, the root and document nodes show
/// only their children, and an element shows its start tag with attributes
/// sorted by key, its children, and its end tag unless it is void.
pub open spec fn render(t: VDomView, id: int, excl: Set<NodeId>) -> Seq<char>
    decreases t.nodes.len() - id, 1int, 0int,
{
    if id < 0 || id >= t.nodes.len() || excl.contains(id as NodeId) {
        Seq::empty()
    } else {
        let n = t.nodes[id];
        if n.tag == "text"@ {
            match n.text {
                Some(x) => x,
                None => Seq::empty(),
            }
        } else if n.tag == "comment"@ {
            Seq::empty()
        } else if n.tag == "document"@ || n.tag == "root"@ {
            render_children(t, id, 0, excl)
        } else {
            "<"@ + n.tag + attrs_text(sort_attrs(n.attributes)) + ">"@ + render_children(t, id, 0, excl) + if is_void(n.tag) {
                Seq::empty()
            } else {
                "</"@ + n.tag + ">"@
            }
        }
    }
}

/// The markup of the children of node `id` from the `k`-th on.
pub open spec fn render_children(t: VDomView, id: int, k: int, excl: Set<NodeId>) -> Seq<char>
    decreases t.nodes.len() - id, 0int, t.nodes[id].children.len() - k,
{
    if id < 0 || id >= t.nodes.len() || k < 0 || k >= t.nodes[id].children.len() {
        Seq::empty()
    } else {
        let c = t.nodes[id].children[k] as int;
        (if id < c && c < t.nodes.len() {
            render(t, c, excl)
        } else {
            Seq::empty()
        }) + render_children(t, id, k + 1, excl)
    }
}

/// Whether a tag is the given name.
fn is_tag(tag: &String, name: &str) -> (r: bool)
    ensures
        r == (tag@ == name@),
{
    let other = name.to_string();
    *tag == other
}

/// Whether a tag is written without a closing tag.
fn is_void_tag(tag: &String) -> (r: bool)
    ensures
        r == is_void(tag@),
{
    is_tag(tag, "area") || is_tag(tag, "base") || is_tag(tag, "br") || is_tag(tag, "col")
        || is_tag(tag, "embed") || is_tag(tag, "hr") || is_tag(tag, "img") || is_tag(tag, "input")
        || is_tag(tag, "link") || is_tag(tag, "meta") || is_tag(tag, "param") || is_tag(tag, "source")
        || is_tag(tag, "track") || is_tag(tag, "wbr")
}

/// Appends the attributes of a start tag, sorted by key.
fn append_attributes(html: &mut String, attrs: &Vec<(String, String)>)
    ensures
        final(html)@ == old(html)@ + attrs_text(sort_attrs(pairs_view(attrs@))),
{
    let sorted = sorted_attributes(attrs);
    let ghost s = pairs_view(sorted@);
    let ghost start = html@;
    let mut i: usize = 0;
    proof {
        assert(s.subrange(0, 0) =~= Seq::<(Seq<char>, Seq<char>)>::empty());
        assert(html@ =~= start + attrs_text(s.subrange(0, 0)));
    }
    while i < sorted.len()
        invariant
            i <= sorted@.len(),
            s == pairs_view(sorted@),
            html@ == start + attrs_text(s.subrange(0, i as int)),
        decreases sorted@.len() - i,
    {
        let key = sorted[i].0.as_str();
        let value = sorted[i].1.as_str();
        html.append(" ");
        html.append(key);
        if !value.is_empty() {
            html.append("=\"");
            let escaped = escape_attribute(value);
            html.append(escaped.as_str());
            html.append("\"");
        }
        proof {
            assert(s.subrange(0, i + 1).drop_last() =~= s.subrange(0, i as int));
            assert(s.subrange(0, i + 1).last() == s[i as int]);
            assert(s[i as int] == (key@, value@));
            assert(html@ =~= start + attrs_text(s.subrange(0, i + 1)));
        }
        i += 1;
    }
    proof {
        assert(s.subrange(0, sorted@.len() as int) =~= s);
    }
}

impl VDom {
    /// Serializes node `node_id` and its descendants, skipping every id in
    /// `exclude_ids`.
    pub fn reconstruct_html(&self, node_id: NodeId, exclude_ids: &HashSet<NodeId>) -> (r: String)
        requires
            well_formed(self@),
        ensures
            r@ == render(self@, node_id as int, exclude_ids@),
        decreases self@.nodes.len() - node_id, 1int,
    {
        if node_id >= self.nodes.len() || exclude_ids.contains(&node_id) {
            return String::new();
        }
        let node = &self.nodes[node_id];
        proof {
            assert(self@.nodes[node_id as int] == node@);
        }
        if is_tag(&node.tag, "text") {
            return match &node.text {
                Some(t) => t.clone(),
                None => String::new(),
            };
        }
        if is_tag(&node.tag, "comment") {
            return String::new();
        }
        if is_tag(&node.tag, "document") || is_tag(&node.tag, "root") {
            return self.children_html(node_id, exclude_ids);
        }
        let mut html = String::new();
        html.append("<");
        html.append(node.tag.as_str());
        append_attributes(&mut html, &node.attributes);
        html.append(">");
        let inner = self.children_html(node_id, exclude_ids);
        html.append(inner.as_str());
        if !is_void_tag(&node.tag) {
            html.append("</");
            html.append(node.tag.as_str());
            html.append(">");
        }
        proof {
            let ghost n = self@.nodes[node_id as int];
            assert(html@ =~= "<"@ + n.tag + attrs_text(sort_attrs(n.attributes)) + ">"@ + render_children(self@, node_id as int, 0, exclude_ids@) + if is_void(n.tag) {
                Seq::empty()
            } else {
                "</"@ + n.tag + ">"@
            });
        }
        html
    }

    /// The markup of the children of an existing node, in order.
    fn children_html(&self, node_id: NodeId, exclude_ids: &HashSet<NodeId>) -> (r: String)
        requires
            well_formed(self@),
            node_id < self@.nodes.len(),
        ensures
            r@ == render_children(self@, node_id as int, 0, exclude_ids@),
        decreases self@.nodes.len() - node_id, 0int,
    {
        let node = &self.nodes[node_id];
        let ghost t = self@;
        let ghost id = node_id as int;
        proof {
            assert(t.nodes[id] == node@);
            assert(children_ok(t, id));
        }
        let mut out = String::new();
        let mut k: usize = 0;
        while k < node.children.len()
            invariant
                t == self@,
                well_formed(t),
                0 <= id < t.nodes.len(),
                id == node_id,
                t.nodes[id].children == node.children@,
                children_ok(t, id),
                k <= node.children@.len(),
                out@ + render_children(t, id, k as int, exclude_ids@) == render_children(t, id, 0, exclude_ids@),
            decreases node.children@.len() - k,
        {
            let c = node.children[k];
            proof {
                assert(t.nodes[id].children[k as int] == c);
            }
            let part = self.reconstruct_html(c, exclude_ids);
            let ghost before = out@;
            out.append(part.as_str());
            proof {
                assert(render_children(t, id, k as int, exclude_ids@) == part@ + render_children(t, id, k + 1, exclude_ids@));
                assert(before + (part@ + render_children(t, id, k + 1, exclude_ids@)) =~= out@ + render_children(t, id, k + 1, exclude_ids@));
            }
            k += 1;
        }
        proof {
            assert(out@ + render_children(t, id, k as int, exclude_ids@) =~= out@);
        }
        out
    }
}

} // verus!

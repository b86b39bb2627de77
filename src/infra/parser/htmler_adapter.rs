//! The buffered selection engine: a full HTML5 tree and a CSS matcher.

use crate::domain::select::error::SelectError;
use crate::domain::select::service::{buffered_result, matches_view, SelectedElement};
use crate::infra::parser::tokens::pairs_view;
use htmler::{Html, Selector as CssMatcher};
use vstd::prelude::*;

verus! {

/// One match as the buffered engine reports it.
pub struct RawMatch {
    pub tag: String,
    pub attributes: Vec<(String, String)>,
    pub text: String,
    pub html: String,
}

/// The view of a list of buffered matches.
pub open spec fn raw_matches_view(v: Seq<RawMatch>) -> Seq<(Seq<char>, Seq<(Seq<char>, Seq<char>)>, Seq<char>, Seq<char>)> {
    Seq::new(v.len(), |i: int| (v[i].tag@, pairs_view(v[i].attributes@), v[i].text@, v[i].html@))
}

/// Whether the buffered engine accepts a selector.
pub uninterp spec fn css_buffered_accepts(selector: Seq<char>) -> bool;

/// The matches of the buffered engine, in document order: tag, attributes,
/// descendant text and serialized fragment of each.
pub uninterp spec fn css_buffered_matches(
    html: Seq<char>,
    selector: Seq<char>,
) -> Seq<(Seq<char>, Seq<(Seq<char>, Seq<char>)>, Seq<char>, Seq<char>)>;

/// Relies on `htmler::Selector::parse`: it refuses a selector list by its
/// text alone, with a message.
#[verifier::external_body]
fn buffered_selector_error(selector: &str) -> (r: Option<String>)
    ensures
        r is None <==> css_buffered_accepts(selector@),
{
    CssMatcher::parse(selector).err().map(|e| e.to_string())
}

/// Relies on `htmler::Html::parse_document` and `Html::select`: the elements
/// that match, in document order, with `NodeData::name`,
/// `NodeData::attributes`, the concatenated `Node::text` and `Node::as_html`.
#[verifier::external_body]
fn buffered_scan(html: &str, selector: &str) -> (r: Vec<RawMatch>)
    requires
        css_buffered_accepts(selector@),
    ensures
        raw_matches_view(r@) == css_buffered_matches(html@, selector@),
{
    let matcher = CssMatcher::parse(selector).unwrap();
    let doc = Html::parse_document(html);
    doc.select(&matcher).map(|n| RawMatch {
        tag: n.as_element().map(|e| e.name().to_string()).unwrap_or_default(),
        attributes: n.as_element().map(|e| e.attributes().map(|(k, v)| (k.to_string(), v.to_string())).collect()).unwrap_or_default(),
        text: n.text().collect(),
        html: n.as_html(),
    }).collect()
}

/// The buffered engine.
pub struct HtmlerAdapter;

impl HtmlerAdapter {
    /// Selects on a full tree: a refused selector fails with
    /// `InvalidSelector` before the document is read; each match carries its
    /// tag, attributes, text and fragment, numbered in order.
    pub fn select(html: &str, selector: &str) -> (r: Result<Vec<SelectedElement>, SelectError>)
        ensures
            !css_buffered_accepts(selector@) ==> (r matches Err(e) && e is InvalidSelector),
            css_buffered_accepts(selector@) ==> (r matches Ok(v) && matches_view(v@) == buffered_result(css_buffered_matches(html@, selector@))),
    {
        if let Some(message) = buffered_selector_error(selector) {
            return Err(SelectError::InvalidSelector(message));
        }
        let raw = buffered_scan(html, selector);
        let ghost rv = raw_matches_view(raw@);
        let mut out: Vec<SelectedElement> = Vec::new();
        let mut i: usize = 0;
        while i < raw.len()
            invariant
                i <= raw@.len(),
                rv == raw_matches_view(raw@),
                out@.len() == i,
                matches_view(out@) == buffered_result(rv).subrange(0, i as int),
            decreases raw@.len() - i,
        {
            let m = &raw[i];
            let e = SelectedElement {
                element_id: i,
                tag: m.tag.clone(),
                text: Some(m.text.clone()),
                attributes: copy_pairs(&m.attributes),
                html: m.html.clone(),
            };
            let ghost before = out@;
            out.push(e);
            proof {
                assert forall|j: int| 0 <= j < i implies matches_view(out@)[j] == buffered_result(rv)[j] by {
                    assert(out@[j] == before[j]);
                    assert(matches_view(before)[j] == buffered_result(rv).subrange(0, i as int)[j]);
                }
                assert(matches_view(out@) =~= buffered_result(rv).subrange(0, i + 1));
            }
            i += 1;
        }
        proof {
            assert(buffered_result(rv).subrange(0, raw@.len() as int) =~= buffered_result(rv));
        }
        Ok(out)
    }
}

/// A copy of a list of string pairs.
pub fn copy_pairs(v: &Vec<(String, String)>) -> (r: Vec<(String, String)>)
    ensures
        pairs_view(r@) == pairs_view(v@),
{
    let mut out: Vec<(String, String)> = Vec::new();
    let mut i: usize = 0;
    while i < v.len()
        invariant
            i <= v@.len(),
            out@.len() == i,
            pairs_view(out@) == pairs_view(v@).subrange(0, i as int),
        decreases v@.len() - i,
    {
        let ghost before = out@;
        out.push((v[i].0.clone(), v[i].1.clone()));
        proof {
            assert forall|j: int| 0 <= j < i implies pairs_view(out@)[j] == pairs_view(v@)[j] by {
                assert(out@[j] == before[j]);
                assert(pairs_view(before)[j] == pairs_view(v@).subrange(0, i as int)[j]);
            }
            assert(pairs_view(out@) =~= pairs_view(v@).subrange(0, i + 1));
        }
        i += 1;
    }
    proof {
        assert(pairs_view(v@).subrange(0, v@.len() as int) =~= pairs_view(v@));
    }
    out
}

} // verus!

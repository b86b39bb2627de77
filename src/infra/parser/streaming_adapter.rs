//! The streaming selection engine: a one-pass rewriter that reports each
//! matching start tag without building a tree.

use crate::domain::select::error::SelectError;
use crate::domain::select::service::{matches_view, streaming_result, SelectedElement};
use crate::infra::parser::htmler_adapter::copy_pairs;
use crate::infra::parser::tokens::pairs_view;
use lol_html::html_content::Element;
use lol_html::{ElementContentHandlers, HtmlRewriter, Selector as StreamSelector, Settings};
use std::borrow::Cow;
use std::cell::RefCell;
use std::rc::Rc;
use vstd::prelude::*;

verus! {

/// The view of a list of streamed matches.
pub open spec fn tag_matches_view(v: Seq<(String, Vec<(String, String)>)>) -> Seq<(Seq<char>, Seq<(Seq<char>, Seq<char>)>)> {
    Seq::new(v.len(), |i: int| (v[i].0@, pairs_view(v[i].1@)))
}

/// Whether the streaming engine accepts a selector.
pub uninterp spec fn css_streaming_accepts(selector: Seq<char>) -> bool;

/// The start tags that the streaming engine matches, in document order,
/// with their attributes; `None` where rewriting fails.
pub uninterp spec fn css_streaming_scan(
    html: Seq<char>,
    selector: Seq<char>,
) -> Option<Seq<(Seq<char>, Seq<(Seq<char>, Seq<char>)>)>>;

/// Relies on `lol_html::Selector`'s `FromStr`: it refuses a selector by its
/// text alone, with a message.
#[verifier::external_body]
fn streaming_selector_error(selector: &str) -> (r: Option<String>)
    ensures
        r is None <==> css_streaming_accepts(selector@),
{
    selector.parse::<StreamSelector>().err().map(|e| e.to_string())
}

/// Relies on `lol_html::HtmlRewriter`: one pass over the bytes, calling the
/// element handler for each matching element in document order, with
/// `Element::tag_name` and `Element::attributes`; `write` or `end` fail
/// with a message.
#[verifier::external_body]
fn streaming_scan(html: &str, selector: &str) -> (r: Result<Vec<(String, Vec<(String, String)>)>, String>)
    requires
        css_streaming_accepts(selector@),
    ensures
        r is Ok <==> css_streaming_scan(html@, selector@) is Some,
        r matches Ok(v) ==> css_streaming_scan(html@, selector@) == Some(tag_matches_view(v@)),
{
    let found = Rc::new(RefCell::new(Vec::new()));
    let sink = found.clone();
    let handlers = ElementContentHandlers::default().element(move |el: &mut Element| {
        sink.borrow_mut().push((el.tag_name(), el.attributes().iter().map(|a| (a.name(), a.value())).collect()));
        Ok(())
    });
    let mut rewriter = HtmlRewriter::new(
        Settings::new().append_element_content_handler((Cow::Owned(selector.parse().unwrap()), handlers)),
        |_: &[u8]| {},
    );
    rewriter.write(html.as_bytes()).and_then(|_| rewriter.end()).map_err(|e| e.to_string())?;
    Ok(found.take())
}

/// The streaming engine.
pub struct StreamingAdapter;

impl StreamingAdapter {
    /// Selects in one pass: a refused selector fails with `InvalidSelector`
    /// before the scan; a rewriting failure gives `ExecutionError`; each
    /// match carries its tag and attributes, numbered in order, with no text
    /// and an empty fragment.
    pub fn select_from_string(html: &str, selector: &str) -> (r: Result<Vec<SelectedElement>, SelectError>)
        ensures
            !css_streaming_accepts(selector@) ==> (r matches Err(e) && e is InvalidSelector),
            css_streaming_accepts(selector@) && css_streaming_scan(html@, selector@) is None ==> (r matches Err(e) && e is ExecutionError),
            css_streaming_accepts(selector@) && css_streaming_scan(html@, selector@) is Some ==> (r matches Ok(v)
                && matches_view(v@) == streaming_result(css_streaming_scan(html@, selector@)->Some_0)),
    {
        if let Some(message) = streaming_selector_error(selector) {
            return Err(SelectError::InvalidSelector(message));
        }
        let raw = match streaming_scan(html, selector) {
            Ok(raw) => raw,
            Err(message) => return Err(SelectError::ExecutionError(message)),
        };
        let ghost rv = tag_matches_view(raw@);
        let mut out: Vec<SelectedElement> = Vec::new();
        let mut i: usize = 0;
        while i < raw.len()
            invariant
                i <= raw@.len(),
                rv == tag_matches_view(raw@),
                out@.len() == i,
                matches_view(out@) == streaming_result(rv).subrange(0, i as int),
            decreases raw@.len() - i,
        {
            let e = SelectedElement {
                element_id: i,
                tag: raw[i].0.clone(),
                text: None,
                attributes: copy_pairs(&raw[i].1),
                html: String::new(),
            };
            let ghost before = out@;
            out.push(e);
            proof {
                assert forall|j: int| 0 <= j < i implies matches_view(out@)[j] == streaming_result(rv)[j] by {
                    assert(out@[j] == before[j]);
                    assert(matches_view(before)[j] == streaming_result(rv).subrange(0, i as int)[j]);
                }
                assert(matches_view(out@) =~= streaming_result(rv).subrange(0, i + 1));
            }
            i += 1;
        }
        proof {
            assert(streaming_result(rv).subrange(0, raw@.len() as int) =~= streaming_result(rv));
        }
        Ok(out)
    }
}

} // verus!

//! The selection router: a buffered engine for ordinary documents, a
//! one-pass streaming engine above a size threshold.

use crate::domain::select::error::SelectError;
use crate::infra::parser::htmler_adapter::{css_buffered_accepts, css_buffered_matches, HtmlerAdapter};
use crate::infra::parser::streaming_adapter::{css_streaming_accepts, css_streaming_scan, StreamingAdapter};
use crate::infra::parser::tokens::pairs_view;
use vstd::prelude::*;

verus! {

/// One match of a selection.
#[derive(Debug, Clone)]
pub struct SelectedElement {
    /// Position among the matches, in document order
    pub element_id: usize,
    /// Tag name
    pub tag: String,
    /// Text content; `None` from the streaming engine
    pub text: Option<String>,
    /// Attributes
    pub attributes: Vec<(String, String)>,
    /// Serialized HTML fragment; empty from the streaming engine
    pub html: String,
}

/// The mathematical value of a match.
pub struct SelectedView {
    pub element_id: usize,
    pub tag: Seq<char>,
    pub text: Option<Seq<char>>,
    pub attributes: Seq<(Seq<char>, Seq<char>)>,
    pub html: Seq<char>,
}

impl View for SelectedElement {
    type V = SelectedView;

    open spec fn view(&self) -> SelectedView {
        SelectedView {
            element_id: self.element_id,
            tag: self.tag@,
            text: match self.text {
                Some(t) => Some(t@),
                None => None,
            },
            attributes: pairs_view(self.attributes@),
            html: self.html@,
        }
    }
}

/// The views of a list of matches.
pub open spec fn matches_view(v: Seq<SelectedElement>) -> Seq<SelectedView> {
    Seq::new(v.len(), |i: int| v[i]@)
}

/// What the buffered engine reports: tag, attributes, text and fragment of
/// each match, numbered in order.
pub open spec fn buffered_result(
    raw: Seq<(Seq<char>, Seq<(Seq<char>, Seq<char>)>, Seq<char>, Seq<char>)>,
) -> Seq<SelectedView> {
    Seq::new(
        raw.len(),
        |i: int|
            SelectedView {
                element_id: i as usize,
                tag: raw[i].0,
                text: Some(raw[i].2),
                attributes: raw[i].1,
                html: raw[i].3,
            },
    )
}

/// What the streaming engine reports: tag and attributes of each match,
/// numbered in order, with no text and an empty fragment.
pub open spec fn streaming_result(raw: Seq<(Seq<char>, Seq<(Seq<char>, Seq<char>)>)>) -> Seq<SelectedView> {
    Seq::new(
        raw.len(),
        |i: int|
            SelectedView {
                element_id: i as usize,
                tag: raw[i].0,
                text: None,
                attributes: raw[i].1,
                html: Seq::empty(),
            },
    )
}

/// Which engine serves a document of `len` bytes.
#[derive(Debug, Clone, Copy, PartialEq, Eq)]
pub enum Strategy {
    /// Full tree, rich results
    Buffered,
    /// One pass, bounded memory, tag and attributes only
    Streaming,
}

/// Documents above the threshold are streamed.
pub fn choose_strategy(len: usize, threshold: usize) -> (r: Strategy)
    ensures
        r == (if len > threshold { Strategy::Streaming } else { Strategy::Buffered }),
{
    if len > threshold {
        Strategy::Streaming
    } else {
        Strategy::Buffered
    }
}

/// Configuration of one selection.
#[derive(Debug, Clone)]
pub struct SelectConfig {
    /// CSS selector
    pub selector: String,
}

/// The outcome that the buffered engine gives for a selection.
pub open spec fn buffered_outcome(html: Seq<char>, selector: Seq<char>, r: Result<Vec<SelectedElement>, SelectError>) -> bool {
    if !css_buffered_accepts(selector) {
        r matches Err(e) && e is InvalidSelector
    } else {
        r matches Ok(v) && matches_view(v@) == buffered_result(css_buffered_matches(html, selector))
    }
}

/// The outcome that the streaming engine gives for a selection.
pub open spec fn streaming_outcome(html: Seq<char>, selector: Seq<char>, r: Result<Vec<SelectedElement>, SelectError>) -> bool {
    if !css_streaming_accepts(selector) {
        r matches Err(e) && e is InvalidSelector
    } else {
        match css_streaming_scan(html, selector) {
            Some(raw) => r matches Ok(v) && matches_view(v@) == streaming_result(raw),
            None => r matches Err(e) && e is ExecutionError,
        }
    }
}

/// A selection service.
pub trait SelectService {
    /// Selects the elements that a configuration's selector matches.
    fn select(&self, html: &str, config: &SelectConfig) -> Result<Vec<SelectedElement>, SelectError>;
}

/// The default size above which documents are streamed: 1 MiB.
pub const DEFAULT_SELECT_THRESHOLD: usize = 1048576;

/// The router, with its threshold.
#[derive(Debug, Clone, Copy)]
pub struct DefaultSelectService {
    pub streaming_threshold_bytes: usize,
}

impl DefaultSelectService {
    /// Creates a router with the given threshold in bytes.
    pub fn new(streaming_threshold_bytes: usize) -> (r: DefaultSelectService)
        ensures
            r.streaming_threshold_bytes == streaming_threshold_bytes,
    {
        DefaultSelectService { streaming_threshold_bytes }
    }

    /// Selection on a full tree.
    pub fn select_buffered(&self, html: &str, selector: &str) -> (r: Result<Vec<SelectedElement>, SelectError>)
        ensures
            buffered_outcome(html@, selector@, r),
    {
        HtmlerAdapter::select(html, selector)
    }

    /// Selection in one pass.
    pub fn select_streaming(&self, html: &str, selector: &str) -> (r: Result<Vec<SelectedElement>, SelectError>)
        ensures
            streaming_outcome(html@, selector@, r),
    {
        StreamingAdapter::select_from_string(html, selector)
    }

    /// Selects with the engine that the document's size in bytes calls for.
    pub fn select(&self, html: &str, config: &SelectConfig) -> (r: Result<Vec<SelectedElement>, SelectError>)
        ensures
            html.len() > self.streaming_threshold_bytes ==> streaming_outcome(html@, config.selector@, r),
            html.len() <= self.streaming_threshold_bytes ==> buffered_outcome(html@, config.selector@, r),
    {
        match choose_strategy(html.len(), self.streaming_threshold_bytes) {
            Strategy::Streaming => self.select_streaming(html, config.selector.as_str()),
            Strategy::Buffered => self.select_buffered(html, config.selector.as_str()),
        }
    }
}

impl Default for DefaultSelectService {
    fn default() -> (r: DefaultSelectService)
        ensures
            r.streaming_threshold_bytes == DEFAULT_SELECT_THRESHOLD,
    {
        DefaultSelectService::new(DEFAULT_SELECT_THRESHOLD)
    }
}

impl SelectService for DefaultSelectService {
    fn select(&self, html: &str, config: &SelectConfig) -> Result<Vec<SelectedElement>, SelectError> {
        DefaultSelectService::select(self, html, config)
    }
}

} // verus!

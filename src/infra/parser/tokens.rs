//! The tag stream that the tree builder consumes.

use tl::Node::{Comment, Raw, Tag};
use crate::infra::parser::html::{child_handles, merged_attrs};
use tl::ParserOptions;
use vstd::prelude::*;

verus! {

/// One token of a tokenized document, in document order.
///
/// An element names its direct children by their position in the stream.
#[derive(Debug)]
pub enum Token {
    Element { name: String, attributes: Vec<(String, String)>, children: Vec<usize> },
    Text(String),
    Comment,
}

/// The mathematical value of a token.
pub enum TokenView {
    Element { name: Seq<char>, attributes: Seq<(Seq<char>, Seq<char>)>, children: Seq<usize> },
    Text(Seq<char>),
    Comment,
}

/// The view of a list of string pairs.
pub open spec fn pairs_view(s: Seq<(String, String)>) -> Seq<(Seq<char>, Seq<char>)> {
    Seq::new(s.len(), |i: int| (s[i].0@, s[i].1@))
}

impl View for Token {
    type V = TokenView;

    open spec fn view(&self) -> TokenView {
        match self {
            Token::Element { name, attributes, children } => TokenView::Element {
                name: name@,
                attributes: pairs_view(attributes@),
                children: children@,
            },
            Token::Text(t) => TokenView::Text(t@),
            Token::Comment => TokenView::Comment,
        }
    }
}

/// The views of a list of tokens.
pub open spec fn tokens_view(s: Seq<Token>) -> Seq<TokenView> {
    Seq::new(s.len(), |i: int| s[i]@)
}

/// What the markup tokenizer determines of a token: an element's name, the
/// set of its attributes (each key once, with the value of its last
/// occurrence) and its children's positions; a text's payload; a comment.
pub enum MarkupToken {
    Element { name: Seq<char>, attributes: Set<(Seq<char>, Seq<char>)>, children: Seq<usize> },
    Text(Seq<char>),
    Comment,
}

/// The token stream that the markup tokenizer produces for `html`, or `None`
/// where it refuses the input.
pub uninterp spec fn markup_tokens(html: Seq<char>) -> Option<Seq<MarkupToken>>;

/// A token as listed agrees with what the tokenizer determines: the same
/// kind, name, text and children, and attributes that, once a later
/// duplicate key replaces an earlier one, are the determined set. Their
/// order is not determined.
pub open spec fn token_matches(t: TokenView, m: MarkupToken) -> bool {
    match t {
        TokenView::Element { name, attributes, children } => match m {
            MarkupToken::Element { name: n, attributes: a, children: c } => {
                &&& name == n
                &&& children == c
                &&& forall|p: (Seq<char>, Seq<char>)|
                    #![trigger merged_attrs(attributes, attributes.len() as int).contains(p)]
                    #![trigger a.contains(p)]
                    merged_attrs(attributes, attributes.len() as int).contains(p) <==> a.contains(p)
            },
            _ => false,
        },
        TokenView::Text(x) => m == MarkupToken::Text(x),
        TokenView::Comment => m is Comment,
    }
}

/// A token list agrees with the tokenizer's stream, position by position.
pub open spec fn tokens_match(ts: Seq<TokenView>, ms: Seq<MarkupToken>) -> bool {
    &&& ts.len() == ms.len()
    &&& forall|i: int| 0 <= i < ts.len() ==> #[trigger] token_matches(ts[i], ms[i])
}

/// Each element lists its children after itself, in increasing positions:
/// the tokenizer numbers tokens in document order.
pub open spec fn handles_ordered(ts: Seq<TokenView>) -> bool {
    forall|i: int, a: int, b: int|
        0 <= i < ts.len() && 0 <= a < b < child_handles(ts[i]).len() ==> i < #[trigger] child_handles(ts[i])[a]
            && child_handles(ts[i])[a] < #[trigger] child_handles(ts[i])[b]
}

/// Relies on `tl::parse`: it tokenizes the text alone, tolerating malformed
/// markup, and lists its nodes in document order (`VDom::nodes`, each
/// registered as it is read). Each tag names its direct children by their
/// index in that list (`HTMLTag::children().top()`), pushed as they are
/// registered, so after the tag and increasing. `Attributes::iter` walks a
/// map whose order is not fixed, so only the set of attributes is named; an
/// attribute without a value reads as "".
#[verifier::external_body]
pub fn tokenize(html: &str) -> (r: Option<Vec<Token>>)
    ensures
        r matches Some(v) ==> markup_tokens(html@) is Some && tokens_match(tokens_view(v@), markup_tokens(html@)->Some_0)
            && handles_ordered(tokens_view(v@)),
        r is None ==> markup_tokens(html@) is None,
{
    let dom = tl::parse(html, ParserOptions::default()).ok()?;
    Some(dom.nodes().iter().map(|n| match n {
        Tag(t) => Token::Element {
            name: t.name().as_utf8_str().into_owned(),
            attributes: t.attributes().iter().map(|(k, v)| (k.into_owned(), v.unwrap_or_default().into_owned())).collect(),
            children: t.children().top().iter().map(|h| h.get_inner() as usize).collect(),
        },
        Raw(b) => Token::Text(b.as_utf8_str().into_owned()),
        Comment(_) => Token::Comment,
    }).collect())
}

} // verus!

use scapi::domain::select::error::SelectError;
use scapi::domain::select::service::{choose_strategy, DefaultSelectService, SelectConfig, Strategy};
use scapi::infra::parser::htmler_adapter::HtmlerAdapter;
use scapi::infra::parser::streaming_adapter::StreamingAdapter;

const DOC: &str = "<div id='a'><p>Hi</p></div><div id='b'></div>";

fn config(sel: &str) -> SelectConfig {
    SelectConfig { selector: sel.to_string() }
}

#[test]
fn small_document_uses_the_buffered_engine() {
    let svc = DefaultSelectService::default();
    let m = svc.select(DOC, &config("div")).unwrap();
    assert_eq!(m.len(), 2);
    assert_eq!(m[0].element_id, 0);
    assert_eq!(m[1].element_id, 1);
    assert_eq!(m[0].tag, "div");
    assert_eq!(m[0].attributes, vec![("id".to_string(), "a".to_string())]);
    assert_eq!(m[1].attributes, vec![("id".to_string(), "b".to_string())]);
    assert_eq!(m[0].text.as_deref(), Some("Hi"));
    assert_eq!(m[1].text.as_deref(), Some(""));
    assert_eq!(m[0].html, "<div id=\"a\"><p>Hi</p></div>");
    assert_eq!(m[1].html, "<div id=\"b\"></div>");
}

#[test]
fn large_document_uses_the_streaming_engine() {
    let mut doc = String::from(DOC);
    doc.push_str("<span>");
    doc.push_str(&"x".repeat(6 * 1024 * 1024));
    doc.push_str("</span>");
    let svc = DefaultSelectService::default();
    let m = svc.select(&doc, &config("div")).unwrap();
    assert_eq!(m.len(), 2);
    assert_eq!(m[0].tag, "div");
    assert_eq!(m[0].attributes, vec![("id".to_string(), "a".to_string())]);
    assert_eq!(m[1].attributes, vec![("id".to_string(), "b".to_string())]);
    for e in &m {
        assert!(e.text.is_none());
        assert!(e.html.is_empty());
    }
}

#[test]
fn threshold_decides_the_engine() {
    assert_eq!(choose_strategy(10, 10), Strategy::Buffered);
    assert_eq!(choose_strategy(11, 10), Strategy::Streaming);
    let svc = DefaultSelectService::new(0);
    let m = svc.select(DOC, &config("div")).unwrap();
    assert_eq!(m.len(), 2);
    assert!(m[0].html.is_empty());
}

#[test]
fn invalid_selector_fails_fast() {
    assert!(matches!(HtmlerAdapter::select(DOC, "div["), Err(SelectError::InvalidSelector(_))));
    assert!(matches!(StreamingAdapter::select_from_string(DOC, "div["), Err(SelectError::InvalidSelector(_))));
    let svc = DefaultSelectService::new(0);
    assert!(matches!(svc.select(DOC, &config("")), Err(SelectError::InvalidSelector(_))));
}

#[test]
fn streaming_engine_reports_matches_in_order() {
    let m = StreamingAdapter::select_from_string("<p class='x'>1</p><p>2</p><i>3</i>", "p").unwrap();
    assert_eq!(m.len(), 2);
    assert_eq!(m[0].element_id, 0);
    assert_eq!(m[0].attributes, vec![("class".to_string(), "x".to_string())]);
    assert_eq!(m[1].element_id, 1);
}

use scapi::domain::select::selector::{CssSelector, XPathSelector};
use scapi::domain::select::xpath::{XPathPattern, XPathPatternType};

#[test]
fn test_css_selector_parse() {
    let selector = CssSelector::parse("div.article").unwrap();
    assert_eq!(selector.selector, "div.article");
}

#[test]
fn test_css_selector_parse_empty() {
    let selector = CssSelector::parse("");
    assert!(selector.is_ok());
}

#[test]
fn test_xpath_selector_parse() {
    let selector = XPathSelector::parse("//div[@class='article']").unwrap();
    assert_eq!(selector.expression, "//div[@class='article']");
}

#[test]
fn xpath_pattern_is_kept_and_not_converted() {
    let p = XPathPattern::recognize("//div[1]").unwrap();
    assert_eq!(p.expression, "//div[1]");
    assert_eq!(p.pattern_type, XPathPatternType::Complex);
    assert!(p.to_css().is_err());
}

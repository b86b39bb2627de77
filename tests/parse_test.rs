use scapi::domain::extract::service::get_text_content;
use scapi::domain::parse::cache::{key_of, ParseCache};
use scapi::domain::parse::config::ParseConfig;
use scapi::domain::parse::error::ParseError;
use scapi::domain::parse::service::DefaultParseService;
use scapi::infra::parser::html::HtmlParser;
use scapi::infra::parser::vdom::{Node, VDom};
use std::collections::HashSet;
use std::sync::Arc;

fn shape(t: &VDom) -> Vec<(String, Vec<(String, String)>, Option<String>, Vec<usize>, Option<usize>)> {
    t.nodes
        .iter()
        .map(|n| (n.tag.clone(), n.attributes.clone(), n.text.clone(), n.children.clone(), n.parent))
        .collect()
}

fn assert_connected(t: &VDom) {
    assert_eq!(t.root, 0);
    assert_eq!(t.nodes[0].parent, None);
    let mut owner: Vec<Option<usize>> = vec![None; t.nodes.len()];
    for (p, n) in t.nodes.iter().enumerate() {
        for &c in &n.children {
            assert!(c > p && c < t.nodes.len());
            assert!(owner[c].is_none(), "node {} listed twice", c);
            owner[c] = Some(p);
            assert_eq!(t.nodes[c].parent, Some(p));
        }
    }
    for i in 1..t.nodes.len() {
        assert!(t.nodes[i].parent.is_some());
        assert_eq!(owner[i], t.nodes[i].parent);
    }
}

#[test]
fn parse_builds_an_arena_tree() {
    let t = HtmlParser::new().parse("<div b=\"2\" a=\"1\"><p>Hi</p></div>").unwrap();
    assert_eq!(t.nodes.len(), 4);
    assert_eq!(t.nodes[0].tag, "document");
    assert_eq!(t.nodes[0].children, vec![1]);
    assert_eq!(t.nodes[1].tag, "div");
    assert_eq!(t.nodes[1].children, vec![2]);
    assert_eq!(t.nodes[2].tag, "p");
    assert_eq!(t.nodes[3].tag, "text");
    assert_eq!(t.nodes[3].text.as_deref(), Some("Hi"));
    assert_eq!(t.nodes[3].parent, Some(2));
    let mut attrs = t.nodes[1].attributes.clone();
    attrs.sort();
    assert_eq!(attrs, vec![("a".to_string(), "1".to_string()), ("b".to_string(), "2".to_string())]);
    assert_connected(&t);
}

#[test]
fn malformed_markup_stays_connected() {
    for html in [
        "<div><p>a<span>b</div></i>text",
        "</b></c>only closers",
        "<ul><li>one<li>two</ul><p>",
        "<!-- c --><a href=x><b>bold</a>tail",
        "",
    ] {
        let t = HtmlParser::new().parse(html).unwrap();
        assert_connected(&t);
    }
}

#[test]
fn comments_and_text_get_sentinel_tags() {
    let t = HtmlParser::new().parse("<!-- note -->plain").unwrap();
    assert_eq!(t.nodes[0].children.len(), 2);
    assert_eq!(t.nodes[1].tag, "comment");
    assert_eq!(t.nodes[2].tag, "text");
    assert_eq!(t.nodes[2].text.as_deref(), Some("plain"));
}

#[test]
fn reconstruct_sorts_attributes_and_reparses_identically() {
    let parser = HtmlParser::new();
    let t = parser.parse("<div b=\"2\" a=\"1\"><p>Hi</p><span></span></div>").unwrap();
    let html = t.reconstruct_html(0, &HashSet::new());
    assert_eq!(html, "<div a=\"1\" b=\"2\"><p>Hi</p><span></span></div>");
    let again = parser.parse(&html).unwrap();
    let mut s1 = shape(&t);
    let mut s2 = shape(&again);
    for s in [&mut s1, &mut s2] {
        for n in s.iter_mut() {
            n.1.sort();
        }
    }
    assert_eq!(s1, s2);
}

#[test]
fn reconstruct_skips_excluded_comments_and_closes_non_void_only() {
    let t = HtmlParser::new().parse("<div><br><img src=\"a&b\"><!-- x --><i>gone</i></div>").unwrap();
    let i_id = t.nodes.iter().position(|n| n.tag == "i").unwrap();
    let mut excl = HashSet::new();
    excl.insert(i_id);
    assert_eq!(t.reconstruct_html(0, &excl), "<div><br><img src=\"a&amp;b\"></div>");
    let div = t.nodes[0].children[0];
    let mut all = HashSet::new();
    all.insert(div);
    assert_eq!(t.reconstruct_html(0, &all), "");
}

#[test]
fn attribute_values_are_escaped_and_empty_values_bare() {
    let mut t = VDom::new();
    let id = t.add_node(Node {
        tag: "a".to_string(),
        attributes: vec![("title".to_string(), "x<\"y\">&".to_string()), ("hidden".to_string(), String::new())],
        text: None,
        children: vec![],
        parent: Some(0),
    });
    t.nodes[0].children.push(id);
    assert_eq!(t.reconstruct_html(0, &HashSet::new()), "<a hidden title=\"x&lt;&quot;y&quot;&gt;&amp;\"></a>");
}

#[test]
fn text_content_concatenates_descendants() {
    let t = HtmlParser::new().parse("<ul><li>one</li><li>two<b>!</b></li></ul>").unwrap();
    assert_eq!(get_text_content(&t, 0), "onetwo!");
    assert_eq!(get_text_content(&t, 99), "");
}

#[test]
fn same_input_through_the_cache_gives_the_same_tree() {
    let mut cache = ParseCache::new(4);
    let html = "<div id=\"x\"><p>a</p></div>";
    let first = cache.get_or_parse(html).unwrap();
    let second = cache.get_or_parse(html).unwrap();
    assert!(Arc::ptr_eq(&first, &second));
    assert_eq!(shape(&first), shape(&second));
    let mut uncached = ParseCache::new(0);
    let a = uncached.get_or_parse(html).unwrap();
    let b = uncached.get_or_parse(html).unwrap();
    assert!(!Arc::ptr_eq(&a, &b));
    assert_eq!(shape(&a), shape(&b));
    assert_eq!(shape(&a), shape(&first));
    assert!(!uncached.is_cached(html));
}

#[test]
fn capacity_one_evicts_the_older_document() {
    let mut cache = ParseCache::new(1);
    let a = "<p>document A</p>";
    let b = "<p>document B</p>";
    assert_ne!(key_of(a), key_of(b));
    let first_a = cache.get_or_parse(a).unwrap();
    assert!(cache.is_cached(a));
    cache.get_or_parse(b).unwrap();
    assert!(cache.is_cached(b));
    assert!(!cache.is_cached(a));
    let again_a = cache.get_or_parse(a).unwrap();
    assert!(!Arc::ptr_eq(&first_a, &again_a));
    assert_eq!(shape(&first_a), shape(&again_a));
    assert!(cache.is_cached(a));
    assert!(!cache.is_cached(b));
}

#[test]
fn parse_service_summarizes_the_tree() {
    let mut svc = DefaultParseService::new();
    let r = svc.parse("<div><p>x</p><p>y</p></div><span></span>", &ParseConfig::default()).unwrap();
    assert_eq!(r.total_elements, r.vdom.nodes.len());
    assert_eq!(r.structure.root_tag, "document");
    assert_eq!(r.structure.child_count, 2);
    assert_eq!(r.max_depth, 3);
    assert_eq!(r.structure.unique_tags, vec!["document", "div", "p", "text", "span"]);
    assert!(r.structure.well_formed);
    let again = svc.parse("<div><p>x</p><p>y</p></div><span></span>", &ParseConfig::default()).unwrap();
    assert!(Arc::ptr_eq(&r.vdom, &again.vdom));
}

#[test]
fn parse_error_kind_is_parsing_failed() {
    let e = ParseError::ParsingFailed("x".to_string());
    assert!(matches!(e, ParseError::ParsingFailed(_)));
}

#[test]
fn vdom_arena_basics() {
    let mut t = VDom::new();
    assert_eq!(t.nodes.len(), 1);
    assert_eq!(t.nodes[0].tag, "root");
    assert!(t.get_node(1).is_none());
    let id = t.add_node(Node { tag: "p".to_string(), attributes: vec![], text: None, children: vec![], parent: Some(0) });
    assert_eq!(id, 1);
    assert_eq!(t.get_node(1).unwrap().tag, "p");
    assert!(t.query("p").is_empty());
}

#[test]
fn attributes_come_sorted_whatever_the_tokenizer_order() {
    let parser = HtmlParser::new();
    let html = "<a z=\"1\" y=\"2\" x=\"3\" w=\"4\" id=\"i\" class=\"c\"></a>";
    let first = parser.parse(html).unwrap();
    let keys: Vec<&str> = first.nodes[1].attributes.iter().map(|(k, _)| k.as_str()).collect();
    assert_eq!(keys, vec!["class", "id", "w", "x", "y", "z"]);
    for _ in 0..5 {
        assert_eq!(shape(&parser.parse(html).unwrap()), shape(&first));
    }
    let dup = parser.parse("<b x=\"1\" x=\"2\"></b>").unwrap();
    assert_eq!(dup.nodes[1].attributes, vec![("x".to_string(), "2".to_string())]);
}

#[test]
fn sibling_ids_increase() {
    let t = HtmlParser::new().parse("<ul><li>a</li><li>b</li>text<li>c</li></ul><p>").unwrap();
    for n in &t.nodes {
        for w in n.children.windows(2) {
            assert!(w[0] < w[1]);
        }
    }
}

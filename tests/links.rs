use std::collections::HashSet;

use spdrs::address::AbsUrl;
use spdrs::extract::{collect_hrefs, extract_links};
use spdrs::resolve::{resolve_link, resolve_links, resolve_relative_paths, resolve_relative_schemes};
use spdrs::scope::filter_external;

fn set(items: &[&str]) -> HashSet<String> {
    items.iter().map(|s| s.to_string()).collect()
}

fn as_set(v: Vec<String>) -> HashSet<String> {
    v.into_iter().collect()
}

fn base(s: &str) -> AbsUrl {
    AbsUrl::parse(s).expect("test URL should parse")
}

#[test]
fn main_no_links() {
    let text = "nothing to see here";
    let expected = HashSet::new();

    let links = as_set(extract_links(text));

    assert_eq!(links, expected);
}

#[test]
fn single_link() {
    let text = r#"<a href="https://wikipedia.org">Link</a>"#;
    let expected = set(&["https://wikipedia.org"]);

    let links = as_set(extract_links(text));

    assert_eq!(links, expected);
}

#[test]
fn simple_html() {
    let text = r#"
<a href="https://wikipedia.org"/>
<a href="https://wikipedia.org/index.html"/>
"#;
    let expected = set(&["https://wikipedia.org", "https://wikipedia.org/index.html"]);

    let links = as_set(extract_links(text));

    assert_eq!(links, expected);
}

#[test]
fn html_with_multiple_links_to_a_line() {
    let text = r#"<a href="https://wikipedia.org"/><a href="https://wikipedia.org/index.html"/>"#;
    let expected = set(&["https://wikipedia.org", "https://wikipedia.org/index.html"]);

    let links = as_set(extract_links(text));

    assert_eq!(links, expected);
}

#[test]
fn filter_external_links() {
    let allowed_subdomain = "example.com";
    let links = vec![
        "http://example.com".to_string(),
        "https://example.com/foo.jpg".to_string(),
        "http://wikipedia.org/bar.png".to_string(),
        "https://wikipedia.org/baz.gif".to_string(),
    ];
    let expected = set(&["http://example.com", "https://example.com/foo.jpg"]);

    let filtered = as_set(filter_external(links, allowed_subdomain));

    assert_eq!(filtered, expected);
}

#[test]
fn relative_path_links_can_be_resolved() {
    let url = base("https://example.com/dir/");
    let links = vec!["foo.jpg".to_string(), "bar.png".to_string(), "../baz.gif".to_string()];
    let expected = set(&[
        "https://example.com/dir/foo.jpg",
        "https://example.com/dir/bar.png",
        "https://example.com/baz.gif",
    ]);

    let resolved = as_set(resolve_relative_paths(&url, links));

    assert_eq!(resolved, expected);
}

#[test]
fn relative_scheme_links_can_be_resolved() {
    let url = base("https://example.com");
    let links = vec![
        "//www.example.com/".to_string(),
        "//example.com/foo.png".to_string(),
        "//wikipedia.org".to_string(),
    ];
    let expected = set(&[
        "https://www.example.com/",
        "https://example.com/foo.png",
        "https://wikipedia.org/",
    ]);

    let resolved = as_set(resolve_relative_schemes(&url, links));

    assert_eq!(resolved, expected);
}

#[test]
fn duplicate_hrefs_are_extracted_once() {
    let text = r#"<a href="/x">one</a><p>text</p><a href="/x">two</a><link href="/x">"#;

    let links = extract_links(text);

    assert_eq!(links, vec!["/x".to_string()]);
}

#[test]
fn anchor_and_link_elements_are_both_read() {
    let text = r#"<html><head><link rel="stylesheet" href="style.css"></head>
<body><a href="page.html">p</a><a name="no-href">n</a><div href="div.html"></div></body></html>"#;

    let links = as_set(extract_links(text));

    assert_eq!(links, set(&["style.css", "page.html"]));
}

#[test]
fn malformed_markup_still_yields_links() {
    let text = r#"<div><a href="https://h/a">unclosed <b><a href='https://h/b'"#;

    let links = as_set(extract_links(text));

    assert!(links.contains("https://h/a"));
}

#[test]
fn markup_without_anchors_gives_nothing() {
    let text = "<html><body><p>plain <b>text</b></p><img src=\"x.png\"></body></html>";

    assert!(extract_links(text).is_empty());
}

#[test]
fn collected_hrefs_skip_missing_and_repeated() {
    let found = vec![Some("a".to_string()), None, Some("b".to_string()), Some("a".to_string())];

    let links = collect_hrefs(found);

    assert_eq!(links, vec!["a".to_string(), "b".to_string()]);
}

#[test]
fn absolute_link_resolves_to_itself() {
    let page = base("https://other.org/a/b/");
    let r = resolve_link(&page, "http://example.com/x?q=1#f").expect("absolute link resolves");

    assert_eq!(r.as_str(), "http://example.com/x?q=1#f");
}

#[test]
fn scheme_relative_link_takes_the_page_scheme() {
    let page = base("https://other");
    let r = resolve_link(&page, "//host/path").expect("scheme-relative link resolves");

    assert_eq!(r.as_str(), "https://host/path");
}

#[test]
fn dot_dot_link_climbs_one_directory() {
    let page = base("https://h/a/b/");
    let r = resolve_link(&page, "../x").expect("relative link resolves");

    assert_eq!(r.as_str(), "https://h/a/x");
}

#[test]
fn unresolvable_links_are_dropped() {
    let page = base("https://h/a/");
    let links = vec!["http://[::1".to_string(), "ok.html".to_string(), "//[bad".to_string()];

    let resolved = resolve_links(&page, links);

    assert_eq!(resolved, vec!["https://h/a/ok.html".to_string()]);
}

#[test]
fn links_resolving_alike_are_kept_once() {
    let page = base("https://h/a/");
    let links = vec!["x.html".to_string(), "https://h/a/x.html".to_string(), "./x.html".to_string()];

    let resolved = resolve_links(&page, links);

    assert_eq!(resolved, vec!["https://h/a/x.html".to_string()]);
}

#[test]
fn scope_filter_compares_text_exactly() {
    let links = vec![
        "https://example.com:8080/a".to_string(),
        "https://example.community/".to_string(),
        "ftp://example.com/".to_string(),
        "https://Example.com/".to_string(),
        "https://example.com/a".to_string(),
    ];

    let kept = as_set(filter_external(links, "example.com"));

    assert_eq!(
        kept,
        set(&["https://example.com:8080/a", "https://example.community/", "https://example.com/a"])
    );
}

#[test]
fn scope_filter_on_nothing_keeps_nothing() {
    assert!(filter_external(Vec::new(), "example.com").is_empty());
}

#[test]
fn parse_normalizes_the_serialization() {
    let u = base("HTTP://Example.COM");

    assert_eq!(u.as_str(), "http://example.com/");
    assert_eq!(u.scheme(), "http");
}

#[test]
fn relative_text_is_not_an_absolute_url() {
    assert!(AbsUrl::parse("foo/bar.html").is_none());
}

#[test]
fn authority_holds_host_and_explicit_port() {
    assert_eq!(base("http://localhost:8000/x").authority(), Some("localhost:8000".to_string()));
    assert_eq!(base("https://example.com:443/").authority(), Some("example.com".to_string()));
    assert_eq!(base("data:text/plain,x").authority(), None);
}

use std::collections::{HashMap, HashSet};

use spdrs::address::AbsUrl;
use spdrs::crawl::{follow_ups, page_result, PageResult};
use spdrs::seen::SeenRegistry;
use spdrs::startup::{startup, StartupError};

fn url(s: &str) -> AbsUrl {
    AbsUrl::parse(s).expect("test URL is parseable")
}

fn set(items: &[&str]) -> HashSet<String> {
    items.iter().map(|s| s.to_string()).collect()
}

/// Crawls from `seed` over a site given as page bodies (a missing page fails to fetch),
/// one page at a time; returns the results in order and the pages fetched.
fn crawl_site(seed: &str, boundary: &str, site: &HashMap<&str, &str>) -> (Vec<PageResult>, Vec<String>) {
    let mut seen = SeenRegistry::new();
    let mut queue = vec![seed.to_string()];
    let mut results = Vec::new();
    let mut fetched = Vec::new();
    while let Some(next) = queue.pop() {
        fetched.push(next.clone());
        let page = url(&next);
        if let Some(body) = site.get(next.as_str()) {
            let result = page_result(&page, body, boundary);
            let more = follow_ups(&result, &mut seen);
            results.push(result);
            queue.extend(more);
        }
    }
    (results, fetched)
}

#[test]
fn crawl_no_links() {
    let mut site = HashMap::new();
    site.insert("http://localhost:8000/no-links.html", "<p>nothing here</p>");

    let (results, fetched) = crawl_site("http://localhost:8000/no-links.html", "localhost:8000", &site);

    assert_eq!(results.len(), 1);
    assert_eq!(results[0].url, "http://localhost:8000/no-links.html");
    assert!(results[0].links.is_empty());
    assert_eq!(fetched, vec!["http://localhost:8000/no-links.html".to_string()]);
}

#[test]
fn recursive() {
    let mut site = HashMap::new();
    site.insert(
        "http://localhost:8000/recursive.html",
        r#"<a href="http://localhost:8000/recursive.html">again</a>"#,
    );

    let (results, fetched) = crawl_site("http://localhost:8000/recursive.html", "localhost:8000", &site);

    assert_eq!(results.len(), 1);
    assert_eq!(results[0].url, "http://localhost:8000/recursive.html");
    assert_eq!(results[0].links, vec!["http://localhost:8000/recursive.html".to_string()]);
    assert_eq!(fetched.len(), 1);
}

#[test]
fn failed_child_fetch_keeps_seed_result() {
    let mut site = HashMap::new();
    site.insert("http://h/index.html", r#"<a href="missing.html">gone</a>"#);

    let (results, fetched) = crawl_site("http://h/index.html", "h", &site);

    assert_eq!(results.len(), 1);
    assert_eq!(results[0].url, "http://h/index.html");
    assert_eq!(results[0].links, vec!["http://h/missing.html".to_string()]);
    assert_eq!(fetched, vec!["http://h/index.html".to_string(), "http://h/missing.html".to_string()]);
}

#[test]
fn every_page_is_fetched_once() {
    let mut site = HashMap::new();
    site.insert("http://h/", r#"<a href="/a">a</a><a href="/b">b</a><a href="http://elsewhere/">x</a>"#);
    site.insert("http://h/a", r#"<a href="/b">b</a><a href="/">home</a>"#);
    site.insert("http://h/b", r#"<a href="/a">a</a><link href="//h/a">"#);

    let (results, fetched) = crawl_site("http://h/", "h", &site);

    assert_eq!(results.len(), 3);
    let fetched_set: HashSet<String> = fetched.iter().cloned().collect();
    assert_eq!(fetched.len(), fetched_set.len());
    assert_eq!(fetched_set, set(&["http://h/", "http://h/a", "http://h/b"]));
    let root: HashSet<String> = results[0].links.iter().cloned().collect();
    assert_eq!(root, set(&["http://h/a", "http://h/b"]));
}

#[test]
fn result_does_not_depend_on_the_registry() {
    let page = url("http://h/p");
    let body = r#"<a href="/q">q</a>"#;
    let mut seen = SeenRegistry::new();
    seen.mark_if_new("http://h/q");

    let result = page_result(&page, body, "h");
    let next = follow_ups(&result, &mut seen);

    assert_eq!(result.links, vec!["http://h/q".to_string()]);
    assert!(next.is_empty());
}

#[test]
fn mark_if_new_admits_once() {
    let mut seen = SeenRegistry::new();

    assert!(seen.mark_if_new("http://h/a"));
    assert!(!seen.mark_if_new("http://h/a"));
    assert!(seen.mark_if_new("http://h/b"));
    assert_eq!(seen.len(), 2);
    assert!(seen.contains(&"http://h/a".to_string()));
}

#[test]
fn follow_ups_skip_seen_links_and_the_page() {
    let mut seen = SeenRegistry::new();
    seen.mark_if_new("http://h/old");
    let result = PageResult {
        url: "http://h/p".to_string(),
        links: vec!["http://h/old".to_string(), "http://h/p".to_string(), "http://h/new".to_string()],
    };

    let next = follow_ups(&result, &mut seen);

    assert_eq!(next, vec!["http://h/new".to_string()]);
    assert_eq!(seen.len(), 3);
}

#[test]
fn page_result_resolves_and_scopes() {
    let page = url("https://h:8443/dir/index.html");
    let body = r#"<a href="a.html">a</a><a href="//h:8443/b">b</a><a href="https://h/c">c</a><a href="https://other/">o</a>"#;

    let result = page_result(&page, body, "h:8443");

    assert_eq!(result.url, "https://h:8443/dir/index.html");
    let links: HashSet<String> = result.links.into_iter().collect();
    assert_eq!(links, set(&["https://h:8443/dir/a.html", "https://h:8443/b"]));
}

#[test]
fn render_lists_links_under_the_page() {
    let result = PageResult {
        url: "http://h/".to_string(),
        links: vec!["http://h/a".to_string(), "http://h/b".to_string()],
    };

    assert_eq!(result.render(), "http://h/\n  * http://h/a\n  * http://h/b\n\n");
}

#[test]
fn render_page_without_links() {
    let result = PageResult { url: "http://h/".to_string(), links: Vec::new() };

    assert_eq!(result.render(), "http://h/\n\n");
}

#[test]
fn startup_takes_one_seed_with_a_host() {
    let args = vec!["spdrs".to_string(), "http://localhost:8000/".to_string()];
    let seed = startup(&args).ok().expect("seed is accepted");

    assert_eq!(seed.url.as_str(), "http://localhost:8000/");
    assert_eq!(seed.boundary, "localhost:8000");
}

#[test]
fn startup_errors() {
    let none = vec!["spdrs".to_string()];
    let two = vec!["spdrs".to_string(), "http://h/".to_string(), "x".to_string()];
    let bad = vec!["spdrs".to_string(), "not a url".to_string()];
    let hostless = vec!["spdrs".to_string(), "mailto:me@example.com".to_string()];

    assert!(matches!(startup(&none), Err(StartupError::Usage)));
    assert!(matches!(startup(&two), Err(StartupError::Usage)));
    assert!(matches!(startup(&bad), Err(StartupError::InvalidUrl)));
    assert!(matches!(startup(&hostless), Err(StartupError::MissingHost)));
}

use twr::generic::{find_rel_or_text, Direction, GenericPlugin};
use twr::plugin::{ExtractError, ReadabilityFailure, RenderedPage, SitePlugin};
use twr::weburl::WebUrl;

fn page(html: &str) -> RenderedPage {
    RenderedPage {
        url: WebUrl::parse("https://example.com/chapter/2").unwrap(),
        html: html.to_string(),
    }
}

#[test]
fn link_rel_next_is_resolved() {
    let p = page(r#"<html><head><link rel="next" href="/chapter/3"></head></html>"#);
    let next = find_rel_or_text(&p.html, &p.url, Direction::Next).unwrap();
    assert_eq!(next.as_str(), "https://example.com/chapter/3");
}

#[test]
fn a_rel_prev_is_resolved() {
    let p = page(r#"<html><body><a rel="prev" href="1">back</a></body></html>"#);
    let prev = find_rel_or_text(&p.html, &p.url, Direction::Prev).unwrap();
    assert_eq!(prev.as_str(), "https://example.com/chapter/1");
}

#[test]
fn text_fallback_matches_next_chapter_link() {
    let p = page(r#"<a href="/ch3">Next Chapter</a>"#);
    let next = find_rel_or_text(&p.html, &p.url, Direction::Next).unwrap();
    assert_eq!(next.as_str(), "https://example.com/ch3");
}

#[test]
fn text_fallback_matches_chinese() {
    let p = page(r#"<a href="/ch3">下一章</a>"#);
    let next = find_rel_or_text(&p.html, &p.url, Direction::Next).unwrap();
    assert_eq!(next.as_str(), "https://example.com/ch3");
}

#[test]
fn no_match_returns_none() {
    let p = page(r#"<a href="/home">Home</a>"#);
    assert!(find_rel_or_text(&p.html, &p.url, Direction::Next).is_none());
}

#[test]
fn extract_pulls_article_body() {
    let html = r#"<!doctype html><html><head><title>Hello</title></head>
        <body><article><h1>Hello</h1>
        <p>The quick brown fox jumps over the lazy dog. The quick brown fox jumps over the lazy dog.
        The quick brown fox jumps over the lazy dog. The quick brown fox jumps over the lazy dog.</p>
        <p>Lorem ipsum dolor sit amet, consectetur adipiscing elit. Sed do eiusmod tempor
        incididunt ut labore et dolore magna aliqua.</p>
        </article></body></html>"#;
    let plugin = GenericPlugin::new();
    let p = RenderedPage {
        url: WebUrl::parse("https://example.com/post").unwrap(),
        html: html.to_string(),
    };
    let art = plugin.extract(&p).unwrap();
    assert!(art.body_text.contains("quick brown fox"));
}

#[test]
fn link_rel_wins_over_anchor_rel_and_text() {
    let p = page(
        r#"<html><head><link rel="next" href="/a"></head><body><a rel="next" href="/b">next</a></body></html>"#,
    );
    let next = find_rel_or_text(&p.html, &p.url, Direction::Next).unwrap();
    assert_eq!(next.as_str(), "https://example.com/a");
}

#[test]
fn text_fallback_reads_aria_label_and_title() {
    let p = page(r#"<a href="/x">→</a><a href="/y" aria-label="Previous page">←</a>"#);
    let prev = find_rel_or_text(&p.html, &p.url, Direction::Prev).unwrap();
    assert_eq!(prev.as_str(), "https://example.com/y");
    let q = page(r#"<a href="/z" title="Chương sau">»</a>"#);
    let next = find_rel_or_text(&q.html, &q.url, Direction::Next).unwrap();
    assert_eq!(next.as_str(), "https://example.com/z");
}

#[test]
fn text_fallback_takes_first_matching_anchor() {
    let p = page(r#"<a href="/one">next part</a><a href="/two">next</a>"#);
    let next = find_rel_or_text(&p.html, &p.url, Direction::Next).unwrap();
    assert_eq!(next.as_str(), "https://example.com/one");
}

#[test]
fn link_without_href_falls_through() {
    let p = page(r#"<link rel="next"><a href="/ch9">NEXT</a>"#);
    let next = find_rel_or_text(&p.html, &p.url, Direction::Next).unwrap();
    assert_eq!(next.as_str(), "https://example.com/ch9");
}

#[test]
fn generic_matches_every_url_and_navigates_from_html() {
    let plugin = GenericPlugin::new();
    assert_eq!(plugin.name(), "generic");
    assert!(plugin.matches(&WebUrl::parse("mailto:someone@example.com").unwrap()));
    let p = page(r#"<a rel="next" href="3">x</a><a rel="prev" href="1">y</a>"#);
    assert_eq!(plugin.next(&p).unwrap().as_str(), "https://example.com/chapter/3");
    assert_eq!(plugin.prev(&p).unwrap().as_str(), "https://example.com/chapter/1");
}

#[test]
fn extract_reports_empty_documents() {
    let plugin = GenericPlugin::new();
    let p = RenderedPage { url: WebUrl::parse("https://example.com/empty").unwrap(), html: String::new() };
    match plugin.extract(&p) {
        Err(ExtractError::Readability(ReadabilityFailure::GrabFailed)) => {}
        Ok(a) => assert!(a.body_text.trim().is_empty()),
        Err(e) => panic!("unexpected error {e:?}"),
    }
}

#[test]
fn text_fallback_ignores_case() {
    let p = page(r#"<a href="/n">NEXT »</a>"#);
    assert_eq!(find_rel_or_text(&p.html, &p.url, Direction::Next).unwrap().as_str(), "https://example.com/n");
    let q = page(r#"<a href="/p">PREVIOUS</a>"#);
    assert_eq!(find_rel_or_text(&q.html, &q.url, Direction::Prev).unwrap().as_str(), "https://example.com/p");
}

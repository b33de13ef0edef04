use twr::weburl::{UrlParseError, WebUrl};

#[test]
fn parse_normalizes_and_splits() {
    let u = WebUrl::parse("HTTPS://Example.COM").unwrap();
    assert_eq!(u.as_str(), "https://example.com/");
    assert_eq!(u.host_str(), Some("example.com"));
    assert_eq!(u.path_segments().unwrap(), &vec!["".to_string()]);
    assert_eq!(u.last_nonempty_segment(), None);
    let v = WebUrl::parse("https://e.org/a//b/").unwrap();
    assert_eq!(v.nonempty_segments(), vec!["a".to_string(), "b".to_string()]);
    assert_eq!(v.last_nonempty_segment(), Some("b".to_string()));
}

#[test]
fn parse_errors_are_told_apart() {
    assert_eq!(WebUrl::parse("relative/path").unwrap_err(), UrlParseError::RelativeUrlWithoutBase);
    assert_eq!(WebUrl::parse("http://host:99999/").unwrap_err(), UrlParseError::InvalidPort);
    assert_eq!(WebUrl::parse("http://").unwrap_err(), UrlParseError::EmptyHost);
}

#[test]
fn join_resolves_references() {
    let base = WebUrl::parse("https://example.com/chapter/2").unwrap();
    assert_eq!(base.join("3").unwrap().as_str(), "https://example.com/chapter/3");
    assert_eq!(base.join("//other.org/x").unwrap().as_str(), "https://other.org/x");
    let cannot = WebUrl::parse("mailto:a@b.c").unwrap();
    assert!(cannot.join("x").is_none());
    assert!(cannot.path_segments().is_none());
    assert_eq!(cannot.clone().as_str(), "mailto:a@b.c");
}

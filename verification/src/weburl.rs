//! Web addresses, as the reader sees them.
//!
//! A `WebUrl` holds, as plain values, what the reader's logic looks at in a
//! parsed URL: its serialization, its host and its path segments. Values are
//! only made by the `url` crate (through `WebUrl::parse` and `WebUrl::join`),
//! so the three parts always come from one parsed URL.
use vstd::prelude::*;


verus! {

/// What a parsed URL is to the reader's logic.
pub ghost struct UrlView {
    /// The serialization (`Url::as_str`).
    pub href: Seq<char>,
    /// The host (`Url::host_str`), absent for cannot-be-a-base and some `file:` URLs.
    pub host: Option<Seq<char>>,
    /// The path segments (`Url::path_segments`), absent for cannot-be-a-base URLs.
    pub segments: Option<Seq<Seq<char>>>,
}

/// A parsed absolute URL.
#[derive(Debug)]
pub struct WebUrl {
    href: String,
    host: Option<String>,
    segments: Option<Vec<String>>,
}

/// Why a string is not a URL (the variants of `url::ParseError`).
#[derive(Clone, Copy, Debug, PartialEq, Eq, Structural)]
pub enum UrlParseError {
    EmptyHost,
    IdnaError,
    InvalidPort,
    InvalidIpv4Address,
    InvalidIpv6Address,
    InvalidDomainCharacter,
    RelativeUrlWithoutBase,
    RelativeUrlWithCannotBeABaseBase,
    SetHostOnCannotBeABaseUrl,
    Overflow,
    Other,
}

/// The view of an optional string.
pub open spec fn opt_view(o: Option<String>) -> Option<Seq<char>> {
    match o {
        Some(s) => Some(s@),
        None => None,
    }
}

/// The view of a list of strings.
pub open spec fn strings_view(v: Seq<String>) -> Seq<Seq<char>> {
    v.map_values(|s: String| s@)
}

impl View for WebUrl {
    type V = UrlView;

    closed spec fn view(&self) -> UrlView {
        UrlView {
            href: self.href@,
            host: opt_view(self.host),
            segments: match self.segments {
                Some(v) => Some(strings_view(v@)),
                None => None,
            },
        }
    }
}

/// What `url::Url::parse` makes of a string, seen through `UrlView`
/// (`None` where it returns an error).
pub uninterp spec fn parsed_url(input: Seq<char>) -> Option<UrlView>;

/// What `url::Url::join` makes of `reference` against the URL whose
/// serialization is `base`, seen through `UrlView` (`None` where it fails).
pub uninterp spec fn joined_url(base: Seq<char>, reference: Seq<char>) -> Option<UrlView>;

#[verifier::external_type_specification]
#[verifier::external_body]
pub struct ExUrlParseError(url::ParseError);

/// `url::Url::parse`, with the parsed URL copied into a `WebUrl`. The claim:
/// it succeeds exactly where `parsed_url` is defined, and yields that view.
/// Which error it returns is not stated.
#[verifier::external_body]
fn url_parse(input: &str) -> (r: Result<WebUrl, url::ParseError>)
    ensures
        r is Ok <==> parsed_url(input@) is Some,
        r matches Ok(u) ==> parsed_url(input@) == Some(u@),
{
    let u = url::Url::parse(input)?;
    Ok(WebUrl {
        href: u.as_str().to_string(),
        host: u.host_str().map(|h| h.to_string()),
        segments: u.path_segments().map(|s| s.map(|x| x.to_string()).collect()),
    })
}

/// `url::Url::join` on the URL whose serialization is `base` (obtained by
/// `url::Url::parse`, which gives back an equal URL for a serialization), with
/// the result copied into a `WebUrl`. The claim: the result is `joined_url`;
/// failures of either call give `None`.
#[verifier::external_body]
fn url_join(base: &str, reference: &str) -> (r: Option<WebUrl>)
    ensures
        r is Some <==> joined_url(base@, reference@) is Some,
        r matches Some(u) ==> joined_url(base@, reference@) == Some(u@),
{
    let u = url::Url::parse(base).ok()?.join(reference).ok()?;
    Some(WebUrl {
        href: u.as_str().to_string(),
        host: u.host_str().map(|h| h.to_string()),
        segments: u.path_segments().map(|s| s.map(|x| x.to_string()).collect()),
    })
}

/// Tells the variants of `url::ParseError` apart.
#[verifier::external_body]
fn classify_parse_error(e: url::ParseError) -> UrlParseError {
    match e {
        url::ParseError::EmptyHost => UrlParseError::EmptyHost,
        url::ParseError::IdnaError => UrlParseError::IdnaError,
        url::ParseError::InvalidPort => UrlParseError::InvalidPort,
        url::ParseError::InvalidIpv4Address => UrlParseError::InvalidIpv4Address,
        url::ParseError::InvalidIpv6Address => UrlParseError::InvalidIpv6Address,
        url::ParseError::InvalidDomainCharacter => UrlParseError::InvalidDomainCharacter,
        url::ParseError::RelativeUrlWithoutBase => UrlParseError::RelativeUrlWithoutBase,
        url::ParseError::RelativeUrlWithCannotBeABaseBase => UrlParseError::RelativeUrlWithCannotBeABaseBase,
        url::ParseError::SetHostOnCannotBeABaseUrl => UrlParseError::SetHostOnCannotBeABaseUrl,
        url::ParseError::Overflow => UrlParseError::Overflow,
        _ => UrlParseError::Other,
    }
}

/// The non-empty segments of a path, in order.
pub open spec fn nonempty_segments(segs: Seq<Seq<char>>) -> Seq<Seq<char>> {
    segs.filter(|s: Seq<char>| s.len() > 0)
}

/// The last non-empty path segment of a URL, if it has a path and one.
pub open spec fn last_nonempty_segment(u: UrlView) -> Option<Seq<char>> {
    match u.segments {
        Some(segs) => {
            let ne = nonempty_segments(segs);
            if ne.len() > 0 {
                Some(ne.last())
            } else {
                None
            }
        },
        None => None,
    }
}

impl Clone for WebUrl {
    fn clone(&self) -> (r: Self)
        ensures
            r@ == self@,
    {
        let segments = match &self.segments {
            Some(v) => Some(clone_strings(v)),
            None => None,
        };
        let host = match &self.host {
            Some(h) => Some(h.clone()),
            None => None,
        };
        WebUrl { href: self.href.clone(), host, segments }
    }
}

/// Viewing a list after a push is pushing the view.
pub proof fn lemma_strings_view_push(v: Seq<String>, s: String)
    ensures
        strings_view(v.push(s)) == strings_view(v).push(s@),
{
    assert(strings_view(v.push(s)) =~= strings_view(v).push(s@));
}

/// A copy of a list of strings.
pub fn clone_strings(v: &Vec<String>) -> (r: Vec<String>)
    ensures
        strings_view(r@) == strings_view(v@),
{
    let mut out: Vec<String> = Vec::new();
    let n = v.len();
    for i in 0..n
        invariant
            n == v@.len(),
            strings_view(out@) == strings_view(v@.take(i as int)),
    {
        let c = v[i].clone();
        proof {
            lemma_strings_view_push(out@, c);
        }
        out.push(c);
        assert(v@.take(i + 1) =~= v@.take(i as int).push(v@[i as int]));
        proof {
            lemma_strings_view_push(v@.take(i as int), v@[i as int]);
        }
    }
    assert(v@.take(n as int) =~= v@);
    out
}

impl WebUrl {
    /// Parses an absolute URL (`url::Url::parse`).
    pub fn parse(input: &str) -> (r: Result<WebUrl, UrlParseError>)
        ensures
            r is Ok <==> parsed_url(input@) is Some,
            r matches Ok(u) ==> parsed_url(input@) == Some(u@),
    {
        match url_parse(input) {
            Ok(u) => Ok(u),
            Err(e) => Err(classify_parse_error(e)),
        }
    }

    /// Resolves `reference` against this URL (`url::Url::join`).
    pub fn join(&self, reference: &str) -> (r: Option<WebUrl>)
        ensures
            r is Some <==> joined_url(self@.href, reference@) is Some,
            r matches Some(u) ==> joined_url(self@.href, reference@) == Some(u@),
    {
        url_join(self.href.as_str(), reference)
    }

    /// The serialization.
    pub fn as_str(&self) -> (r: &str)
        ensures
            r@ == self@.href,
    {
        self.href.as_str()
    }

    /// The host, if any.
    pub fn host_str(&self) -> (r: Option<&str>)
        ensures
            match r {
                Some(h) => self@.host == Some(h@),
                None => self@.host is None,
            },
    {
        match &self.host {
            Some(h) => Some(h.as_str()),
            None => None,
        }
    }

    /// The path segments, if the URL has a path made of segments.
    pub fn path_segments(&self) -> (r: Option<&Vec<String>>)
        ensures
            match r {
                Some(v) => self@.segments == Some(strings_view(v@)),
                None => self@.segments is None,
            },
    {
        match &self.segments {
            Some(v) => Some(v),
            None => None,
        }
    }

    /// The non-empty path segments, in order (empty when the URL has no path).
    pub fn nonempty_segments(&self) -> (r: Vec<String>)
        ensures
            strings_view(r@) == match self@.segments {
                Some(segs) => nonempty_segments(segs),
                None => Seq::empty(),
            },
    {
        let mut out: Vec<String> = Vec::new();
        match &self.segments {
            None => {
                assert(strings_view(out@) =~= Seq::<Seq<char>>::empty());
            },
            Some(segs) => {
                let ghost sv = strings_view(segs@);
                let n = segs.len();
                for i in 0..n
                    invariant
                        n == segs@.len(),
                        sv == strings_view(segs@),
                        strings_view(out@) == nonempty_segments(sv.take(i as int)),
                {
                    proof {
                        assert(sv.take(i + 1).drop_last() =~= sv.take(i as int));
                        reveal_with_fuel(Seq::<_>::filter, 1);
                    }
                    if !segs[i].as_str().is_empty() {
                        let c = segs[i].clone();
                        proof {
                            lemma_strings_view_push(out@, c);
                        }
                        out.push(c);
                    }
                    assert(strings_view(out@) =~= nonempty_segments(sv.take(i + 1)));
                }
                assert(sv.take(n as int) =~= sv);
            },
        }
        out
    }

    /// The last non-empty path segment, if any.
    pub fn last_nonempty_segment(&self) -> (r: Option<String>)
        ensures
            opt_view(r) == last_nonempty_segment(self@),
    {
        let ne = self.nonempty_segments();
        assert(strings_view(ne@).len() == ne@.len());
        if ne.len() > 0 {
            assert(strings_view(ne@).last() == ne@[ne@.len() - 1]@);
            Some(ne[ne.len() - 1].clone())
        } else {
            None
        }
    }
}

} // verus!

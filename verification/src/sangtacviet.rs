//! The sangtacviet.vip plugin.
//!
//! Chapter URLs have the shape `https://sangtacviet.vip/truyen/<host>/1/<book>/<chapter>/`;
//! navigation is URL arithmetic on the chapter number, which stops at chapter 1.
//! The page itself is rendered by a headless browser outside the library; the
//! library decides when the rendered chapter has loaded and extracts it.
use vstd::prelude::*;

use crate::html::{elements_view, scraper_select, ElementInfo, ElementView, selected_elements};
use crate::generic::Direction;
use crate::plugin::{Article, ArticleView, ExtractError, RenderedPage, SitePlugin, opt_url_view};
use crate::text::{chars_of, contains, contains_seq, decimal, extend, parse_u64, parsed_u64, push_decimal, str_eq, string_of, trim, trimmed, utf8_len, utf8_len_below};
use crate::weburl::{nonempty_segments, parsed_url, strings_view, UrlView, WebUrl};

verus! {

/// The site the plugin serves.
pub open spec fn site_domain() -> Seq<char> {
    "sangtacviet.vip"@
}

/// The text shown in place of a chapter until it is loaded.
pub open spec fn placeholder_text() -> Seq<char> {
    "Nhấp vào để tải chương"@
}

/// A loaded chapter body has at least this many bytes (after trimming).
pub const MIN_BODY_BYTES: u64 = 200;

/// The rendered chapter counts as loaded once its text is longer than this.
pub const LOADED_TEXT_LEN: u64 = 500;

/// Seconds to wait after navigation before clicking the chapter container.
pub const CLICK_DELAY_SECS: u64 = 3;

/// Seconds to wait for the chapter text before giving up.
pub const LOAD_TIMEOUT_SECS: u64 = 30;

/// Milliseconds between two probes of the chapter text.
pub const POLL_INTERVAL_MS: u64 = 500;

/// The (source host, book id, chapter) of a chapter URL.
pub open spec fn chapter_of(u: UrlView) -> Option<(Seq<char>, u64, u64)> {
    let segs = match u.segments {
        Some(s) => nonempty_segments(s),
        None => Seq::empty(),
    };
    if u.host == Some(site_domain()) && segs.len() == 5 && segs[0] == "truyen"@ && segs[2]
        == "1"@ && parsed_u64(segs[3]) is Some && parsed_u64(segs[4]) is Some {
        Some((segs[1], parsed_u64(segs[3]).unwrap(), parsed_u64(segs[4]).unwrap()))
    } else {
        None
    }
}

/// The text of the URL of a chapter.
pub open spec fn chapter_url_text(host: Seq<char>, book: u64, chap: u64) -> Seq<char> {
    "https://sangtacviet.vip/truyen/"@ + host + "/1/"@ + decimal(book as nat) + "/"@ + decimal(
        chap as nat,
    ) + "/"@
}

/// The chapter `delta` away from the chapter of `u`: none before chapter 1, and
/// none when `u` is not a chapter URL.
pub open spec fn neighbor_of(u: UrlView, delta: i64) -> Option<UrlView> {
    match chapter_of(u) {
        Some((h, b, c)) => {
            let next = (c as i64) as int + delta as int;
            if next < 1 {
                None
            } else {
                parsed_url(chapter_url_text(h, b, next as u64))
            }
        },
        None => None,
    }
}

/// Whether moving `delta` chapters from `u` stays within `i64` (the chapter
/// number is taken as an `i64`).
pub open spec fn step_fits(u: UrlView, delta: i64) -> bool {
    chapter_of(u) matches Some((h, b, c)) ==> i64::MIN <= (c as i64) as int + delta as int
        <= i64::MAX
}

/// The selector of the chapter container: renamed `cld-<book>-<chapter>` once
/// loaded, `#maincontent` before.
pub open spec fn body_selector() -> Seq<char> {
    "[id^=\"cld-\"], #maincontent"@
}

/// The trimmed text of the first element, when it is neither empty nor `_`.
pub open spec fn holder_text(els: Seq<ElementView>) -> Option<Seq<char>> {
    if els.len() > 0 {
        let t = trimmed(els[0].text);
        if t.len() == 0 || t == "_"@ {
            None
        } else {
            Some(t)
        }
    } else {
        None
    }
}

/// The article of a rendered chapter page: the trimmed text of the chapter
/// container, refused while it still shows the placeholder or is under
/// `MIN_BODY_BYTES` bytes; the chapter name as title and the book name as byline.
pub open spec fn chapter_article(html: Seq<char>) -> Result<ArticleView, ExtractError> {
    match selected_elements(html, body_selector(), Seq::empty()) {
        None => Err(ExtractError::BadSelector),
        Some(els) => if els.len() == 0 {
            Err(ExtractError::ContainerNotFound)
        } else {
            let body = trimmed(els[0].text);
            if contains_seq(body, placeholder_text()) || utf8_len(body) < MIN_BODY_BYTES {
                Err(ExtractError::NotLoaded)
            } else {
                match selected_elements(html, "#bookchapnameholder"@, Seq::empty()) {
                    None => Err(ExtractError::BadSelector),
                    Some(t) => match selected_elements(html, "#booknameholder"@, Seq::empty()) {
                        None => Err(ExtractError::BadSelector),
                        Some(b) => Ok(
                            ArticleView {
                                title: holder_text(t),
                                byline: holder_text(b),
                                body_text: body,
                                next_url: None,
                                prev_url: None,
                            },
                        ),
                    },
                }
            }
        },
    }
}

/// The sangtacviet.vip plugin.
#[derive(Debug)]
pub struct SangtacvietPlugin {
    /// The Chromium binary to launch, when not auto-detected.
    pub chrome_executable: Option<String>,
}

/// The first element's text, trimmed, when neither empty nor `_`.
fn holder(els: &Vec<ElementInfo>) -> (r: Option<String>)
    ensures
        match r {
            Some(s) => holder_text(elements_view(els@)) == Some(s@),
            None => holder_text(elements_view(els@)) is None,
        },
{
    assert(elements_view(els@).len() == els@.len());
    if els.len() == 0 {
        return None;
    }
    assert(elements_view(els@)[0] == els@[0]@);
    let t = trim(chars_of(els[0].text.as_str()).as_slice());
    let underscore = chars_of("_");
    proof {
        reveal_strlit("_");
    }
    if t.len() == 0 || (t.len() == 1 && t[0] == '_') {
        assert(t@.len() == 1 ==> (t@[0] == '_' <==> t@ =~= "_"@));
        None
    } else {
        assert(t@.len() == 1 ==> (t@[0] == '_' <==> t@ =~= "_"@));
        Some(string_of(t.as_slice()))
    }
}

impl SangtacvietPlugin {
    /// The plugin, launching the given browser binary (auto-detected when `None`).
    pub fn new(chrome_executable: Option<String>) -> (p: SangtacvietPlugin)
        ensures
            p.chrome_executable == chrome_executable,
    {
        SangtacvietPlugin { chrome_executable }
    }

    /// The (source host, book id, chapter) of a chapter URL.
    pub fn parse_chapter_url(url: &WebUrl) -> (r: Option<(String, u64, u64)>)
        ensures
            match r {
                Some((h, b, c)) => chapter_of(url@) == Some((h@, b, c)),
                None => chapter_of(url@) is None,
            },
    {
        let host = match url.host_str() {
            Some(h) => h,
            None => return None,
        };
        if !str_eq(host, "sangtacviet.vip") {
            return None;
        }
        let segs = url.nonempty_segments();
        let ghost sv = strings_view(segs@);
        assert(sv.len() == segs@.len());
        if segs.len() != 5 || !str_eq(segs[0].as_str(), "truyen") {
            assert(segs@.len() == 5 ==> sv[0] == segs@[0]@);
            return None;
        }
        assert(sv[0] == segs@[0]@ && sv[1] == segs@[1]@ && sv[2] == segs@[2]@ && sv[3] == segs@[3]@
            && sv[4] == segs@[4]@);
        if !str_eq(segs[2].as_str(), "1") {
            return None;
        }
        let book = match parse_u64(chars_of(segs[3].as_str()).as_slice()) {
            Some(b) => b,
            None => return None,
        };
        let chap = match parse_u64(chars_of(segs[4].as_str()).as_slice()) {
            Some(c) => c,
            None => return None,
        };
        Some((segs[1].clone(), book, chap))
    }

    /// The URL of a chapter (`None` only where the URL parser refuses it).
    pub fn build_chapter_url(host: &str, book: u64, chap: u64) -> (r: Option<WebUrl>)
        ensures
            opt_url_view(r) == parsed_url(chapter_url_text(host@, book, chap)),
    {
        let mut v = chars_of("https://sangtacviet.vip/truyen/");
        extend(&mut v, chars_of(host).as_slice());
        extend(&mut v, chars_of("/1/").as_slice());
        push_decimal(&mut v, book);
        extend(&mut v, chars_of("/").as_slice());
        push_decimal(&mut v, chap);
        extend(&mut v, chars_of("/").as_slice());
        let text = string_of(v.as_slice());
        match WebUrl::parse(text.as_str()) {
            Ok(u) => Some(u),
            Err(_) => None,
        }
    }

    /// The chapter `delta` away from the chapter at `page_url`.
    pub fn neighbor_url(&self, page_url: &WebUrl, delta: i64) -> (r: Option<WebUrl>)
        requires
            step_fits(page_url@, delta),
        ensures
            opt_url_view(r) == neighbor_of(page_url@, delta),
    {
        let (host, book, chap) = match Self::parse_chapter_url(page_url) {
            Some(t) => t,
            None => return None,
        };
        let next = chap as i64 + delta;
        if next < 1 {
            return None;
        }
        Self::build_chapter_url(host.as_str(), book, next as u64)
    }
}

impl SitePlugin for SangtacvietPlugin {
    open spec fn label(&self) -> Seq<char> {
        "sangtacviet"@
    }

    /// Chapter URLs of the site are served.
    open spec fn claims(&self, u: UrlView) -> bool {
        chapter_of(u) is Some
    }

    open spec fn extraction(&self, html: Seq<char>, u: UrlView) -> Result<ArticleView, ExtractError> {
        chapter_article(html)
    }

    /// Stepping is possible where the chapter number plus one (or minus one)
    /// stays within `i64`.
    open spec fn steps_from(&self, u: UrlView, d: Direction) -> bool {
        step_fits(u, if d == Direction::Next { 1i64 } else { -1i64 })
    }

    /// Navigation is URL arithmetic on the chapter number.
    open spec fn neighbor(&self, html: Seq<char>, u: UrlView, d: Direction) -> Option<UrlView> {
        neighbor_of(u, if d == Direction::Next { 1i64 } else { -1i64 })
    }

    fn name(&self) -> (r: &'static str) {
        "sangtacviet"
    }

    fn matches(&self, url: &WebUrl) -> (r: bool) {
        Self::parse_chapter_url(url).is_some()
    }

    fn extract(&self, page: &RenderedPage) -> (r: Result<Article, ExtractError>)
    {
        let none: [&str; 0] = [];
        assert(none@.map_values(|n: &str| n@) =~= Seq::<Seq<char>>::empty());
        let html = page.html.as_str();
        let body_els = match scraper_select(html, "[id^=\"cld-\"], #maincontent", &none) {
            Some(v) => v,
            None => return Err(ExtractError::BadSelector),
        };
        assert(elements_view(body_els@).len() == body_els@.len());
        if body_els.len() == 0 {
            return Err(ExtractError::ContainerNotFound);
        }
        assert(elements_view(body_els@)[0] == body_els@[0]@);
        let body = trim(chars_of(body_els[0].text.as_str()).as_slice());
        let placeholder = chars_of("Nhấp vào để tải chương");
        let body_text = string_of(body.as_slice());
        if contains(body.as_slice(), placeholder.as_slice()) || utf8_len_below(
            body.as_slice(),
            MIN_BODY_BYTES,
        ) {
            return Err(ExtractError::NotLoaded);
        }
        let chap_els = match scraper_select(html, "#bookchapnameholder", &none) {
            Some(v) => v,
            None => return Err(ExtractError::BadSelector),
        };
        let book_els = match scraper_select(html, "#booknameholder", &none) {
            Some(v) => v,
            None => return Err(ExtractError::BadSelector),
        };
        let title = holder(&chap_els);
        let byline = holder(&book_els);
        Ok(Article { title, byline, body_text, next_url: None, prev_url: None })
    }

    fn next(&self, page: &RenderedPage) -> (r: Option<WebUrl>) {
        self.neighbor_url(&page.url, 1)
    }

    fn prev(&self, page: &RenderedPage) -> (r: Option<WebUrl>) {
        self.neighbor_url(&page.url, -1)
    }
}

/// Whether the wait for the chapter text has run out.
pub fn load_timed_out(now_ms: u64, deadline_ms: u64) -> (r: bool)
    ensures
        r == (now_ms > deadline_ms),
{
    now_ms > deadline_ms
}

/// Whether the rendered chapter text is long enough to count as loaded.
pub fn chapter_loaded(text_len: u64) -> (r: bool)
    ensures
        r == (text_len > LOADED_TEXT_LEN),
{
    text_len > LOADED_TEXT_LEN
}

/// Navigation stops at the first chapter: chapter 1 has no previous chapter.
pub proof fn lemma_prev_stops_at_first_chapter(u: UrlView)
    requires
        chapter_of(u) matches Some((h, b, c)) && c == 1,
    ensures
        neighbor_of(u, -1i64) is None,
{
}

/// The next chapter of chapter `c` is chapter `c + 1` of the same book on the
/// same source host.
pub proof fn lemma_next_increments_chapter(u: UrlView)
    requires
        chapter_of(u) matches Some((h, b, c)) && c < i64::MAX,
    ensures
        chapter_of(u) matches Some((h, b, c)) && neighbor_of(u, 1i64) == parsed_url(
            chapter_url_text(h, b, (c + 1) as u64),
        ),
{
}

/// The previous chapter of chapter `c > 1` is chapter `c - 1`.
pub proof fn lemma_prev_decrements_chapter(u: UrlView)
    requires
        chapter_of(u) matches Some((h, b, c)) && 1 < c <= i64::MAX,
    ensures
        chapter_of(u) matches Some((h, b, c)) && neighbor_of(u, -1i64) == parsed_url(
            chapter_url_text(h, b, (c - 1) as u64),
        ),
{
}

/// Only URLs of the site whose path is exactly `truyen/<host>/1/<book>/<chapter>`
/// with numeric book and chapter are chapter URLs.
pub proof fn lemma_chapter_urls_are_on_site(u: UrlView)
    requires
        chapter_of(u) is Some,
    ensures
        u.host == Some(site_domain()),
        u.segments is Some,
        nonempty_segments(u.segments->0).len() == 5,
        nonempty_segments(u.segments->0)[0] == "truyen"@,
        nonempty_segments(u.segments->0)[2] == "1"@,
{
}

} // verus!

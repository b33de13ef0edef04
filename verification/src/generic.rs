//! The catch-all plugin: static HTML pages read with a readability pass, and
//! chapter navigation found through `rel="next"`/`rel="prev"` links or,
//! failing those, through the text of the page's anchors.
use vstd::prelude::*;

use crate::html::{elements_view, scraper_select, ElementInfo, ElementView, selected_elements};
use crate::plugin::{Article, ArticleView, ExtractError, ReadabilityFailure, RenderedPage, SitePlugin, opt_url_view};
use crate::text::{chars_of, contains, contains_seq, extend, lowercase, string_of, to_lowercase};
use crate::weburl::{joined_url, opt_view, UrlView, WebUrl};

verus! {

/// Which neighbour of the current chapter is wanted.
#[derive(Clone, Copy, Debug, PartialEq, Eq, Structural)]
pub enum Direction {
    Next,
    Prev,
}

/// The `rel` value for a direction.
pub open spec fn rel_of(d: Direction) -> Seq<char> {
    match d {
        Direction::Next => "next"@,
        Direction::Prev => "prev"@,
    }
}

/// The anchor texts that announce a direction, in several languages.
pub open spec fn patterns_of(d: Direction) -> Seq<Seq<char>> {
    match d {
        Direction::Next => seq!["next"@, "下一章"@, "下一页"@, "次の"@, "chương sau"@, "sau"@],
        Direction::Prev => seq![
            "prev"@,
            "previous"@,
            "上一章"@,
            "上一页"@,
            "前の"@,
            "chương trước"@,
            "trước"@,
        ],
    }
}

impl Direction {
    /// The `rel` attribute value that marks this direction.
    pub fn rel(&self) -> (r: &'static str)
        ensures
            r@ == rel_of(*self),
    {
        match self {
            Direction::Next => "next",
            Direction::Prev => "prev",
        }
    }

    /// The anchor texts that announce this direction.
    pub fn text_patterns(&self) -> (r: Vec<&'static str>)
        ensures
            r@.map_values(|p: &str| p@) == patterns_of(*self),
    {
        let v = match self {
            Direction::Next => vec!["next", "下一章", "下一页", "次の", "chương sau", "sau"],
            Direction::Prev => vec![
                "prev",
                "previous",
                "上一章",
                "上一页",
                "前の",
                "chương trước",
                "trước",
            ],
        };
        assert(v@.map_values(|p: &str| p@) =~= patterns_of(*self));
        v
    }
}

/// A selector `tag[rel="rel"]`.
pub open spec fn rel_selector(tag: Seq<char>, rel: Seq<char>) -> Seq<char> {
    tag + "[rel=\""@ + rel + "\"]"@
}

/// The attribute names the navigation logic reads, in this order.
pub open spec fn link_attrs() -> Seq<Seq<char>> {
    seq!["href"@]
}

/// The attribute names the text fallback reads, in this order.
pub open spec fn anchor_attrs() -> Seq<Seq<char>> {
    seq!["href"@, "aria-label"@, "title"@]
}

/// The URL that the first element `selector` picks links to, resolved
/// against `base`, if that element has an `href` that resolves.
pub open spec fn first_link(html: Seq<char>, base: Seq<char>, selector: Seq<char>) -> Option<UrlView> {
    match selected_elements(html, selector, link_attrs()) {
        Some(els) => if els.len() > 0 {
            match els[0].attrs[0] {
                Some(h) => joined_url(base, h),
                None => None,
            }
        } else {
            None
        },
        None => None,
    }
}

/// A missing string read as empty.
pub open spec fn or_empty(o: Option<Seq<char>>) -> Seq<char> {
    match o {
        Some(s) => s,
        None => Seq::empty(),
    }
}

/// What the text fallback searches in an anchor: its text, `aria-label` and
/// `title`, lower-cased and joined by spaces.
pub open spec fn haystack(e: ElementView) -> Seq<char> {
    lowercase(e.text) + " "@ + lowercase(or_empty(e.attrs[1])) + " "@ + lowercase(or_empty(e.attrs[2]))
}

/// Whether `hay` contains the lower-cased form of one of `pats`.
pub open spec fn mentions_any(hay: Seq<char>, pats: Seq<Seq<char>>) -> bool {
    exists|i: int| 0 <= i < pats.len() && #[trigger] contains_seq(hay, lowercase(pats[i]))
}

/// What an anchor offers to the text fallback: its resolved `href` when its
/// text mentions one of `pats`.
pub open spec fn anchor_offer(e: ElementView, base: Seq<char>, pats: Seq<Seq<char>>) -> Option<UrlView> {
    if mentions_any(haystack(e), pats) {
        match e.attrs[0] {
            Some(h) => joined_url(base, h),
            None => None,
        }
    } else {
        None
    }
}

/// The first offer among the anchors `els`.
pub open spec fn text_link(els: Seq<ElementView>, base: Seq<char>, pats: Seq<Seq<char>>) -> Option<UrlView>
    decreases els.len(),
{
    if els.len() == 0 {
        None
    } else if anchor_offer(els[0], base, pats) is Some {
        anchor_offer(els[0], base, pats)
    } else {
        text_link(els.skip(1), base, pats)
    }
}

/// The neighbour in direction `d` of the page `base` with HTML `html`: the
/// first `<link rel>` of the direction, else the first `<a rel>`, else the first
/// `<a href>` whose text, `aria-label` or `title` mentions the direction.
pub open spec fn rel_or_text(html: Seq<char>, base: UrlView, d: Direction) -> Option<UrlView> {
    let by_link = first_link(html, base.href, rel_selector("link"@, rel_of(d)));
    let by_anchor = first_link(html, base.href, rel_selector("a"@, rel_of(d)));
    if by_link is Some {
        by_link
    } else if by_anchor is Some {
        by_anchor
    } else {
        match selected_elements(html, "a[href]"@, anchor_attrs()) {
            Some(els) => text_link(els, base.href, patterns_of(d)),
            None => None,
        }
    }
}

/// The selector `tag[rel="rel"]` as a string.
fn rel_selector_string(tag: &str, rel: &str) -> (r: String)
    ensures
        r@ == rel_selector(tag@, rel@),
{
    let mut v = chars_of(tag);
    extend(&mut v, chars_of("[rel=\"").as_slice());
    extend(&mut v, chars_of(rel).as_slice());
    extend(&mut v, chars_of("\"]").as_slice());
    string_of(v.as_slice())
}

/// The link that the first element `selector` picks points at, resolved against `base`.
fn first_link_of(html: &str, base: &WebUrl, selector: &str) -> (r: Option<WebUrl>)
    ensures
        opt_url_view(r) == first_link(html@, base@.href, selector@),
{
    let names = ["href"];
    assert(names@.map_values(|n: &str| n@) =~= link_attrs());
    match scraper_select(html, selector, &names) {
        Some(els) => {
            proof {
                assert(elements_view(els@).len() == els@.len());
            }
            if els.len() > 0 {
                assert(elements_view(els@)[0] == els@[0]@);
                proof {
                    assert(els@[0]@.attrs.len() == els@[0].attrs@.len());
                }
                if els[0].attrs.len() > 0 {
                    match &els[0].attrs[0] {
                        Some(h) => base.join(h.as_str()),
                        None => None,
                    }
                } else {
                    None
                }
            } else {
                None
            }
        },
        None => None,
    }
}

/// Whether the element's text, `aria-label` or `title` mentions one of the patterns.
fn anchor_mentions(e: &ElementInfo, pats: &Vec<&'static str>) -> (r: bool)
    requires
        e.attrs@.len() == 3,
    ensures
        r == mentions_any(haystack(e@), pats@.map_values(|p: &str| p@)),
{
    let ghost pv = pats@.map_values(|p: &str| p@);
    let mut hay = chars_of(to_lowercase(e.text.as_str()).as_str());
    hay.push(' ');
    match &e.attrs[1] {
        Some(a) => extend(&mut hay, chars_of(to_lowercase(a.as_str()).as_str()).as_slice()),
        None => extend(&mut hay, chars_of(to_lowercase("").as_str()).as_slice()),
    }
    hay.push(' ');
    match &e.attrs[2] {
        Some(t) => extend(&mut hay, chars_of(to_lowercase(t.as_str()).as_str()).as_slice()),
        None => extend(&mut hay, chars_of(to_lowercase("").as_str()).as_slice()),
    }
    proof {
        assert(e@.attrs[1] == opt_view(e.attrs@[1]));
        assert(e@.attrs[2] == opt_view(e.attrs@[2]));
        reveal_strlit("");
        reveal_strlit(" ");
        assert(""@ =~= Seq::<char>::empty());
        assert(hay@ =~= haystack(e@));
    }
    let n = pats.len();
    for i in 0..n
        invariant
            n == pats@.len(),
            pv == pats@.map_values(|p: &str| p@),
            hay@ == haystack(e@),
            forall|j: int| 0 <= j < i ==> !contains_seq(hay@, lowercase(#[trigger] pv[j])),
    {
        let p = chars_of(to_lowercase(pats[i]).as_str());
        if contains(hay.as_slice(), p.as_slice()) {
            assert(contains_seq(haystack(e@), lowercase(pv[i as int])));
            return true;
        }
    }
    false
}

/// Finds the neighbouring chapter of a page in direction `dir`.
pub fn find_rel_or_text(html: &str, base: &WebUrl, dir: Direction) -> (r: Option<WebUrl>)
    ensures
        opt_url_view(r) == rel_or_text(html@, base@, dir),
{
    let link_sel = rel_selector_string("link", dir.rel());
    let by_link = first_link_of(html, base, link_sel.as_str());
    if by_link.is_some() {
        return by_link;
    }
    let a_sel = rel_selector_string("a", dir.rel());
    let by_anchor = first_link_of(html, base, a_sel.as_str());
    if by_anchor.is_some() {
        return by_anchor;
    }
    let names = ["href", "aria-label", "title"];
    assert(names@.map_values(|n: &str| n@) =~= anchor_attrs());
    let anchors = match scraper_select(html, "a[href]", &names) {
        Some(v) => v,
        None => return None,
    };
    let pats = dir.text_patterns();
    assert forall|j: int| 0 <= j < anchors@.len() implies (#[trigger] anchors@[j]).attrs@.len() == 3 by {
        assert(names@.len() == 3);
    }
    let ghost ev = elements_view(anchors@);
    let ghost pv = patterns_of(dir);
    let ghost b = base@.href;
    let n = anchors.len();
    assert(ev.skip(0) =~= ev);
    assert(rel_or_text(html@, base@, dir) == text_link(ev, b, pv));
    for i in 0..n
        invariant
            n == anchors@.len(),
            ev == elements_view(anchors@),
            pv == pats@.map_values(|p: &str| p@),
            b == base@.href,
            forall|j: int| 0 <= j < n ==> (#[trigger] anchors@[j]).attrs@.len() == 3,
            text_link(ev, b, pv) == text_link(ev.skip(i as int), b, pv),
            rel_or_text(html@, base@, dir) == text_link(ev, b, pv),
    {
        let e = &anchors[i];
        assert(ev[i as int] == e@);
        assert(ev.skip(i as int)[0] == e@);
        assert(ev.skip(i as int).skip(1) =~= ev.skip(i + 1));
        if anchor_mentions(e, &pats) {
            assert(e@.attrs[0] == opt_view(e.attrs@[0]));
            let found = match &e.attrs[0] {
                Some(h) => base.join(h.as_str()),
                None => None,
            };
            if found.is_some() {
                assert(anchor_offer(ev.skip(i as int)[0], b, pv) == opt_url_view(found));
                return found;
            }
        }
    }
    None
}

// ---------------------------------------------------------------------------
// The plugin
// ---------------------------------------------------------------------------

/// What the readability pass gives back, as a value.
pub ghost struct ReadableView {
    pub title: Seq<char>,
    pub byline: Option<Seq<char>>,
    pub text: Seq<char>,
}

/// What the readability pass gives back: the title, the byline and the text content.
pub struct Readable {
    pub title: String,
    pub byline: Option<String>,
    pub text: String,
}

impl View for Readable {
    type V = ReadableView;

    open spec fn view(&self) -> ReadableView {
        ReadableView { title: self.title@, byline: opt_view(self.byline), text: self.text@ }
    }
}

/// What `dom_smoothie`'s readability pass makes of `html` read from the page
/// `url`: `Readability::new(html, Some(url), None)` followed by `parse`, with the
/// article's `title`, `byline` and `text_content`, or the error it reports.
pub uninterp spec fn readable_article(html: Seq<char>, url: Seq<char>) -> Result<ReadableView, ReadabilityFailure>;

/// `dom_smoothie::Readability::new` then `Readability::parse`, with the fields
/// the reader uses copied out and the error told apart by variant. The
/// `Readability` value between the two calls has no value the library could
/// name, so both calls stand here. The claim: the result is `readable_article`
/// of the arguments.
#[verifier::external_body]
fn readability(html: &str, url: &str) -> (r: Result<Readable, ReadabilityFailure>)
    ensures
        match r {
            Ok(a) => readable_article(html@, url@) == Ok::<ReadableView, ReadabilityFailure>(a@),
            Err(e) => readable_article(html@, url@) == Err::<ReadableView, ReadabilityFailure>(e),
        },
{
    match dom_smoothie::Readability::new(html, Some(url), None).and_then(|mut r| r.parse()) {
        Ok(a) => Ok(Readable { title: a.title, byline: a.byline, text: a.text_content.to_string() }),
        Err(dom_smoothie::ReadabilityError::BadDocumentURL) => Err(ReadabilityFailure::BadDocumentUrl),
        Err(dom_smoothie::ReadabilityError::GrabFailed) => Err(ReadabilityFailure::GrabFailed),
        Err(dom_smoothie::ReadabilityError::TooManyElements(n, m)) => Err(ReadabilityFailure::TooManyElements(n, m)),
    }
}

/// The article the catch-all plugin extracts from a page: the readability
/// pass's title (absent when empty), byline and text. Navigation is left to
/// `next` and `prev`.
pub open spec fn generic_article(html: Seq<char>, url: UrlView) -> Result<ArticleView, ExtractError> {
    match readable_article(html, url.href) {
        Ok(a) => Ok(
            ArticleView {
                title: if a.title.len() == 0 { None } else { Some(a.title) },
                byline: a.byline,
                body_text: a.text,
                next_url: None,
                prev_url: None,
            },
        ),
        Err(e) => Err(ExtractError::Readability(e)),
    }
}

/// The catch-all plugin.
#[derive(Clone, Copy, Debug, PartialEq, Eq, Structural)]
pub struct GenericPlugin {}

impl GenericPlugin {
    /// The plugin.
    pub fn new() -> (p: GenericPlugin) {
        GenericPlugin {}
    }
}

impl SitePlugin for GenericPlugin {
    open spec fn label(&self) -> Seq<char> {
        "generic"@
    }

    /// Every URL is served.
    open spec fn claims(&self, u: UrlView) -> bool {
        true
    }

    open spec fn extraction(&self, html: Seq<char>, u: UrlView) -> Result<ArticleView, ExtractError> {
        generic_article(html, u)
    }

    open spec fn steps_from(&self, u: UrlView, d: Direction) -> bool {
        true
    }

    open spec fn neighbor(&self, html: Seq<char>, u: UrlView, d: Direction) -> Option<UrlView> {
        rel_or_text(html, u, d)
    }

    fn name(&self) -> (r: &'static str) {
        "generic"
    }

    fn matches(&self, url: &WebUrl) -> (r: bool) {
        true
    }

    fn extract(&self, page: &RenderedPage) -> (r: Result<Article, ExtractError>) {
        match readability(page.html.as_str(), page.url.as_str()) {
            Ok(a) => {
                let title = if a.title.as_str().is_empty() {
                    None
                } else {
                    Some(a.title)
                };
                Ok(Article { title, byline: a.byline, body_text: a.text, next_url: None, prev_url: None })
            },
            Err(e) => Err(ExtractError::Readability(e)),
        }
    }

    fn next(&self, page: &RenderedPage) -> (r: Option<WebUrl>) {
        find_rel_or_text(page.html.as_str(), &page.url, Direction::Next)
    }

    fn prev(&self, page: &RenderedPage) -> (r: Option<WebUrl>) {
        find_rel_or_text(page.html.as_str(), &page.url, Direction::Prev)
    }
}

/// The words that announce the next page all belong to `Next`, those that
/// announce the previous page all belong to `Prev`, and no word of one
/// direction is among the other's: "下一页"/"下一章" (next page/chapter) only
/// lead forward, "上一页"/"上一章" (previous page/chapter) only lead back.
pub proof fn lemma_direction_words()
    ensures
        patterns_of(Direction::Next).contains("next"@),
        patterns_of(Direction::Next).contains("下一章"@),
        patterns_of(Direction::Next).contains("下一页"@),
        patterns_of(Direction::Next).contains("次の"@),
        patterns_of(Direction::Next).contains("chương sau"@),
        patterns_of(Direction::Next).contains("sau"@),
        patterns_of(Direction::Prev).contains("prev"@),
        patterns_of(Direction::Prev).contains("previous"@),
        patterns_of(Direction::Prev).contains("上一章"@),
        patterns_of(Direction::Prev).contains("上一页"@),
        patterns_of(Direction::Prev).contains("前の"@),
        patterns_of(Direction::Prev).contains("chương trước"@),
        patterns_of(Direction::Prev).contains("trước"@),
        forall|i: int, j: int|
            0 <= i < patterns_of(Direction::Next).len() && 0 <= j < patterns_of(Direction::Prev).len()
                ==> #[trigger] patterns_of(Direction::Next)[i] != #[trigger] patterns_of(
                Direction::Prev,
            )[j],
{
    reveal_strlit("next");
    reveal_strlit("下一章");
    reveal_strlit("下一页");
    reveal_strlit("次の");
    reveal_strlit("chương sau");
    reveal_strlit("sau");
    reveal_strlit("prev");
    reveal_strlit("previous");
    reveal_strlit("上一章");
    reveal_strlit("上一页");
    reveal_strlit("前の");
    reveal_strlit("chương trước");
    reveal_strlit("trước");
    let n = patterns_of(Direction::Next);
    let p = patterns_of(Direction::Prev);
    assert(n[0] == "next"@ && n[1] == "下一章"@ && n[2] == "下一页"@ && n[3] == "次の"@ && n[4]
        == "chương sau"@ && n[5] == "sau"@);
    assert(p[0] == "prev"@ && p[1] == "previous"@ && p[2] == "上一章"@ && p[3] == "上一页"@ && p[4]
        == "前の"@ && p[5] == "chương trước"@ && p[6] == "trước"@);
    assert forall|i: int, j: int| 0 <= i < n.len() && 0 <= j < p.len() implies #[trigger] n[i]
        != #[trigger] p[j] by {
        if n[i] == p[j] {
            assert(n[i].len() == p[j].len());
            assert(n[i][0] == p[j][0]);
        }
    }
}

/// An anchor whose text, `aria-label` or `title` mentions "下一页" (next page)
/// or "下一章" (next chapter), in lower case, is offered as the next page, at
/// its `href` resolved against the page.
pub proof fn lemma_next_page_words_lead_forward(e: ElementView, base: Seq<char>)
    requires
        contains_seq(haystack(e), lowercase("下一页"@)) || contains_seq(
            haystack(e),
            lowercase("下一章"@),
        ),
    ensures
        anchor_offer(e, base, patterns_of(Direction::Next)) == match e.attrs[0] {
            Some(h) => joined_url(base, h),
            None => None,
        },
{
    let n = patterns_of(Direction::Next);
    assert(n[1] == "下一章"@ && n[2] == "下一页"@);
    if contains_seq(haystack(e), lowercase("下一页"@)) {
        assert(contains_seq(haystack(e), lowercase(n[2])));
    } else {
        assert(contains_seq(haystack(e), lowercase(n[1])));
    }
}

/// An anchor whose text, `aria-label` or `title` mentions "上一页" (previous
/// page) or "上一章" (previous chapter), in lower case, is offered as the
/// previous page, at its `href` resolved against the page.
pub proof fn lemma_previous_page_words_lead_back(e: ElementView, base: Seq<char>)
    requires
        contains_seq(haystack(e), lowercase("上一页"@)) || contains_seq(
            haystack(e),
            lowercase("上一章"@),
        ),
    ensures
        anchor_offer(e, base, patterns_of(Direction::Prev)) == match e.attrs[0] {
            Some(h) => joined_url(base, h),
            None => None,
        },
{
    let p = patterns_of(Direction::Prev);
    assert(p[2] == "上一章"@ && p[3] == "上一页"@);
    if contains_seq(haystack(e), lowercase("上一页"@)) {
        assert(contains_seq(haystack(e), lowercase(p[3])));
    } else {
        assert(contains_seq(haystack(e), lowercase(p[2])));
    }
}

/// The extracted article carries the readability pass's result: its title
/// when that is not empty (and no title exactly when it is), its by-line and
/// its text; a failed pass is reported as such.
pub proof fn lemma_extracted_article(html: Seq<char>, u: UrlView)
    ensures
        match readable_article(html, u.href) {
            Ok(a) => generic_article(html, u) matches Ok(art) && {
                &&& a.title.len() > 0 ==> art.title == Some(a.title)
                &&& art.title is None <==> a.title.len() == 0
                &&& art.byline == a.byline
                &&& art.body_text == a.text
            },
            Err(e) => generic_article(html, u) == Err::<ArticleView, ExtractError>(
                ExtractError::Readability(e),
            ),
        },
{
}

} // verus!

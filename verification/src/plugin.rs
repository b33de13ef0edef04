//! Pages, articles, and the plugins that know how to read a site.
//!
//! Dispatch is first-match: the registry hands a URL to the first plugin,
//! in registration order, whose `matches` accepts it.
use vstd::prelude::*;

use crate::generic::{Direction, GenericPlugin};
use crate::sangtacviet::{chapter_of, SangtacvietPlugin};
use crate::weburl::{opt_view, UrlView, WebUrl};

verus! {

/// A fetched page: where it came from and its HTML.
#[derive(Debug)]
pub struct RenderedPage {
    pub url: WebUrl,
    pub html: String,
}

/// What a plugin extracts from a page.
#[derive(Debug)]
pub struct Article {
    pub title: Option<String>,
    pub byline: Option<String>,
    pub body_text: String,
    pub next_url: Option<WebUrl>,
    pub prev_url: Option<WebUrl>,
}

/// Why `dom_smoothie`'s readability pass gave up (the variants of
/// `dom_smoothie::ReadabilityError`).
#[derive(Clone, Copy, Debug, PartialEq, Eq, Structural)]
pub enum ReadabilityFailure {
    /// The page URL handed to it is not absolute.
    BadDocumentUrl,
    /// No article content could be found.
    GrabFailed,
    /// The document has more elements than it parses (found, maximum).
    TooManyElements(usize, usize),
}

/// Why no article could be extracted from a page.
#[derive(Clone, Copy, Debug, PartialEq, Eq, Structural)]
pub enum ExtractError {
    /// The readability pass failed.
    Readability(ReadabilityFailure),
    /// A selector the plugin uses did not parse.
    BadSelector,
    /// The chapter container is not on the page.
    ContainerNotFound,
    /// The chapter body is still the click-to-load placeholder, or too short.
    NotLoaded,
}

/// The view of an optional URL.
pub open spec fn opt_url_view(o: Option<WebUrl>) -> Option<UrlView> {
    match o {
        Some(u) => Some(u@),
        None => None,
    }
}

/// An article as a value.
pub ghost struct ArticleView {
    pub title: Option<Seq<char>>,
    pub byline: Option<Seq<char>>,
    pub body_text: Seq<char>,
    pub next_url: Option<UrlView>,
    pub prev_url: Option<UrlView>,
}

impl View for Article {
    type V = ArticleView;

    open spec fn view(&self) -> ArticleView {
        ArticleView {
            title: opt_view(self.title),
            byline: opt_view(self.byline),
            body_text: self.body_text@,
            next_url: opt_url_view(self.next_url),
            prev_url: opt_url_view(self.prev_url),
        }
    }
}

// ---------------------------------------------------------------------------
// Plugins and their registry
// ---------------------------------------------------------------------------

/// What a site plugin does with pages once they are fetched: say which URLs it
/// serves, extract articles, and find neighbouring chapters. Fetching itself
/// happens outside the library.
pub trait SitePlugin {
    /// The plugin's name.
    spec fn label(&self) -> Seq<char>;

    /// Whether the plugin serves URL `u`.
    spec fn claims(&self, u: UrlView) -> bool;

    /// What the plugin extracts from the page `u` with HTML `html`.
    spec fn extraction(&self, html: Seq<char>, u: UrlView) -> Result<ArticleView, ExtractError>;

    /// Whether the plugin can look for a neighbour of `u` in direction `d`.
    spec fn steps_from(&self, u: UrlView, d: Direction) -> bool;

    /// The neighbour the plugin finds for the page `u` with HTML `html`.
    spec fn neighbor(&self, html: Seq<char>, u: UrlView, d: Direction) -> Option<UrlView>;

    /// The plugin's name.
    fn name(&self) -> (r: &'static str)
        ensures
            r@ == self.label(),
    ;

    /// Whether the plugin serves the URL.
    fn matches(&self, url: &WebUrl) -> (r: bool)
        ensures
            r == self.claims(url@),
    ;

    /// Extracts the article of a fetched page.
    fn extract(&self, page: &RenderedPage) -> (r: Result<Article, ExtractError>)
        ensures
            match r {
                Ok(a) => self.extraction(page.html@, page.url@) == Ok::<ArticleView, ExtractError>(a@),
                Err(e) => self.extraction(page.html@, page.url@) == Err::<ArticleView, ExtractError>(e),
            },
    ;

    /// The next page.
    fn next(&self, page: &RenderedPage) -> (r: Option<WebUrl>)
        requires
            self.steps_from(page.url@, Direction::Next),
        ensures
            opt_url_view(r) == self.neighbor(page.html@, page.url@, Direction::Next),
    ;

    /// The previous page.
    fn prev(&self, page: &RenderedPage) -> (r: Option<WebUrl>)
        requires
            self.steps_from(page.url@, Direction::Prev),
        ensures
            opt_url_view(r) == self.neighbor(page.html@, page.url@, Direction::Prev),
    ;
}

/// The plugins shipped with the reader.
#[derive(Debug)]
pub enum Plugin {
    Sangtacviet(SangtacvietPlugin),
    Generic(GenericPlugin),
}

impl SitePlugin for Plugin {
    open spec fn label(&self) -> Seq<char> {
        match self {
            Plugin::Sangtacviet(p) => p.label(),
            Plugin::Generic(p) => p.label(),
        }
    }

    open spec fn claims(&self, u: UrlView) -> bool {
        match self {
            Plugin::Sangtacviet(p) => p.claims(u),
            Plugin::Generic(p) => p.claims(u),
        }
    }

    open spec fn extraction(&self, html: Seq<char>, u: UrlView) -> Result<ArticleView, ExtractError> {
        match self {
            Plugin::Sangtacviet(p) => p.extraction(html, u),
            Plugin::Generic(p) => p.extraction(html, u),
        }
    }

    open spec fn steps_from(&self, u: UrlView, d: Direction) -> bool {
        match self {
            Plugin::Sangtacviet(p) => p.steps_from(u, d),
            Plugin::Generic(p) => p.steps_from(u, d),
        }
    }

    open spec fn neighbor(&self, html: Seq<char>, u: UrlView, d: Direction) -> Option<UrlView> {
        match self {
            Plugin::Sangtacviet(p) => p.neighbor(html, u, d),
            Plugin::Generic(p) => p.neighbor(html, u, d),
        }
    }

    fn name(&self) -> (r: &'static str) {
        match self {
            Plugin::Sangtacviet(p) => p.name(),
            Plugin::Generic(p) => p.name(),
        }
    }

    fn matches(&self, url: &WebUrl) -> (r: bool) {
        match self {
            Plugin::Sangtacviet(p) => p.matches(url),
            Plugin::Generic(p) => p.matches(url),
        }
    }

    fn extract(&self, page: &RenderedPage) -> (r: Result<Article, ExtractError>) {
        match self {
            Plugin::Sangtacviet(p) => p.extract(page),
            Plugin::Generic(p) => p.extract(page),
        }
    }

    fn next(&self, page: &RenderedPage) -> (r: Option<WebUrl>) {
        match self {
            Plugin::Sangtacviet(p) => p.next(page),
            Plugin::Generic(p) => p.next(page),
        }
    }

    fn prev(&self, page: &RenderedPage) -> (r: Option<WebUrl>) {
        match self {
            Plugin::Sangtacviet(p) => p.prev(page),
            Plugin::Generic(p) => p.prev(page),
        }
    }
}

/// Asks a plugin for the neighbour of a page in direction `dir`.
pub fn step<P: SitePlugin>(plugin: &P, page: &RenderedPage, dir: Direction) -> (r: Option<WebUrl>)
    requires
        plugin.steps_from(page.url@, dir),
    ensures
        opt_url_view(r) == plugin.neighbor(page.html@, page.url@, dir),
{
    match dir {
        Direction::Next => plugin.next(page),
        Direction::Prev => plugin.prev(page),
    }
}

/// The position of the first plugin in `ps` that claims `u`.
pub open spec fn first_claim<P: SitePlugin>(ps: Seq<P>, u: UrlView) -> Option<int> {
    if exists|i: int| 0 <= i < ps.len() && (#[trigger] ps[i]).claims(u) {
        Some(
            choose|i: int|
                0 <= i < ps.len() && (#[trigger] ps[i]).claims(u) && forall|j: int|
                    0 <= j < i ==> !(#[trigger] ps[j]).claims(u),
        )
    } else {
        None
    }
}

/// The plugins, in the order they were registered; a URL goes to the first
/// plugin that claims it.
#[derive(Debug)]
pub struct Registry<P: SitePlugin> {
    plugins: Vec<P>,
}

impl<P: SitePlugin> View for Registry<P> {
    type V = Seq<P>;

    closed spec fn view(&self) -> Seq<P> {
        self.plugins@
    }
}

/// Whether some plugin of `ps` is the catch-all.
pub open spec fn has_catch_all(ps: Seq<Plugin>) -> bool {
    exists|i: int| 0 <= i < ps.len() && (#[trigger] ps[i]) is Generic
}

/// A registry with a catch-all plugin resolves every URL.
pub proof fn lemma_catch_all_resolves(ps: Seq<Plugin>, u: UrlView)
    requires
        has_catch_all(ps),
    ensures
        first_claim(ps, u) is Some,
{
    let i = choose|i: int| 0 <= i < ps.len() && (#[trigger] ps[i]) is Generic;
    assert(ps[i].claims(u));
}

/// The shipped plugins: the sangtacviet.vip plugin first, the catch-all last.
pub open spec fn default_plugins(chrome: Option<String>) -> Seq<Plugin> {
    seq![
        Plugin::Sangtacviet(SangtacvietPlugin { chrome_executable: chrome }),
        Plugin::Generic(GenericPlugin {}),
    ]
}

/// With the shipped plugins, chapter URLs of sangtacviet.vip go to its plugin
/// and every other URL to the catch-all.
pub proof fn lemma_default_dispatch(chrome: Option<String>, u: UrlView)
    ensures
        first_claim(default_plugins(chrome), u) == Some(
            if chapter_of(u) is Some { 0int } else { 1int },
        ),
{
    let ps = default_plugins(chrome);
    assert(ps[1].claims(u));
    let k = choose|i: int|
        0 <= i < ps.len() && (#[trigger] ps[i]).claims(u) && forall|j: int|
            0 <= j < i ==> !(#[trigger] ps[j]).claims(u);
    if chapter_of(u) is Some {
        assert(ps[0].claims(u));
        if k != 0 {
            assert(!ps[0].claims(u));
        }
    } else {
        assert(!ps[0].claims(u));
        assert(k == 1);
    }
}

impl<P: SitePlugin> Registry<P> {
    /// An empty registry.
    pub fn new() -> (r: Registry<P>)
        ensures
            r@ == Seq::<P>::empty(),
    {
        Registry { plugins: Vec::new() }
    }

    /// Adds a plugin after those already registered.
    pub fn register(&mut self, plugin: P)
        ensures
            final(self)@ == old(self)@.push(plugin),
    {
        self.plugins.push(plugin);
    }

    /// The plugins, in registration order.
    pub fn plugins(&self) -> (r: &Vec<P>)
        ensures
            r@ == self@,
    {
        &self.plugins
    }

    /// The first registered plugin that claims the URL.
    pub fn resolve(&self, url: &WebUrl) -> (r: &P)
        requires
            first_claim(self@, url@) is Some,
        ensures
            *r == self@[first_claim(self@, url@)->0],
    {
        let n = self.plugins.len();
        let mut i: usize = 0;
        while i < n
            invariant
                n == self.plugins@.len(),
                i <= n,
                first_claim(self@, url@) is Some,
                forall|j: int| 0 <= j < i ==> !(#[trigger] self.plugins@[j]).claims(url@),
            decreases n - i,
        {
            if self.plugins[i].matches(url) {
                proof {
                    let k = first_claim(self@, url@)->0;
                    if k < i {
                        assert(!self.plugins@[k].claims(url@));
                    } else if k > i {
                        assert(self.plugins@[i as int].claims(url@));
                    }
                }
                return &self.plugins[i];
            }
            i = i + 1;
        }
        proof {
            let k = first_claim(self@, url@)->0;
            assert(!self.plugins@[k].claims(url@));
        }
        &self.plugins[0]
    }
}

impl Registry<Plugin> {
    /// The shipped plugins, the sangtacviet.vip one launching `chrome_executable`.
    pub fn with_defaults(chrome_executable: Option<String>) -> (r: Registry<Plugin>)
        ensures
            r@ == default_plugins(chrome_executable),
            has_catch_all(r@),
    {
        let mut r = Registry::new();
        r.register(Plugin::Sangtacviet(SangtacvietPlugin::new(chrome_executable)));
        r.register(Plugin::Generic(GenericPlugin::new()));
        assert(r@ =~= default_plugins(chrome_executable));
        assert(r@[1] is Generic);
        r
    }
}

} // verus!

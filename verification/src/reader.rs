//! The reader's state machine: loading, reading and error modes, scrolling,
//! chapter navigation, bookmarks, and the boss key.
//!
//! Fetching runs outside the library: `start_fetch` puts the reader in the
//! loading mode, and the caller reports the outcome with `finish_fetch`.
use vstd::prelude::*;

use crate::boss::BossState;
use crate::generic::Direction;
use crate::layout::{body_lines, body_lines_of};
use crate::plugin::{first_claim, step, Article, Plugin, Registry, RenderedPage, SitePlugin};
use crate::state::{first_named, lookup_in, recorded, BookmarkView, bookmarks_view, State};
use crate::text::{chars_of, count_lines, extend, line_count, owned, string_of, trim, trimmed};
use crate::weburl::{last_nonempty_segment, parsed_url, UrlParseError, UrlView, WebUrl};

verus! {

/// How long a flash message stays on screen, in milliseconds.
pub const FLASH_MILLIS: u128 = 3000;

/// How far past the end of a chapter a restored scroll offset may point.
pub const RESTORE_SLACK: u16 = 200;

/// What the reader is doing.
#[derive(Debug)]
pub enum Mode {
    /// Waiting for a page; `restore_scroll` is applied once it arrives.
    Loading { url: WebUrl, restore_scroll: u16 },
    /// Showing an article, together with the page it was extracted from.
    Reading { url: WebUrl, article: Article, html: String, scroll: u16, loaded_in_ms: u64 },
    /// Showing why the last page could not be read.
    Error { message: String },
}

impl Mode {
    /// The tag of the status line.
    pub fn tag(&self) -> (r: &'static str)
        ensures
            r@ == match *self {
                Mode::Loading { .. } => "WARN"@,
                Mode::Reading { .. } => "INFO"@,
                Mode::Error { .. } => "ERR "@,
            },
    {
        match self {
            Mode::Loading { .. } => "WARN",
            Mode::Reading { .. } => "INFO",
            Mode::Error { .. } => "ERR ",
        }
    }
}

/// A key, as far as the reader tells keys apart.
#[derive(Clone, Copy, Debug, PartialEq, Eq, Structural)]
pub enum Key {
    Char(char),
    Left,
    Right,
    Up,
    Down,
    PageUp,
    PageDown,
    Home,
    End,
    Other,
}

/// Modifier keys held with a key, as bits: shift 1, control 2, alt 4, super 8,
/// hyper 16, meta 32.
#[derive(Clone, Copy, Debug, PartialEq, Eq, Structural)]
pub struct Modifiers {
    pub bits: u8,
}

/// The control bit.
pub const CONTROL: u8 = 2;

impl Modifiers {
    /// Whether control is among the held modifiers.
    pub fn has_control(&self) -> (r: bool)
        ensures
            r == (self.bits & CONTROL != 0),
    {
        self.bits & CONTROL != 0
    }

    /// Whether control, and nothing else, is held.
    pub fn only_control(&self) -> (r: bool)
        ensures
            r == (self.bits == CONTROL),
    {
        self.bits == CONTROL
    }
}

/// What the caller has to do after the reader handled something.
#[derive(Clone, Copy, Debug, PartialEq, Eq, Structural)]
pub enum Effect {
    /// Nothing more.
    Nothing,
    /// Fetch the page the reader is now loading.
    Fetch,
    /// Write the saved state to disk.
    Save,
}

/// A fetched page and the article extracted from it.
pub struct Loaded {
    pub article: Article,
    pub html: String,
}

/// A message shown briefly in the status line.
pub struct Flash {
    pub text: String,
    pub at: std::time::Instant,
}

/// The reader.
pub struct App {
    pub registry: Registry<Plugin>,
    pub state: State,
    pub mode: Mode,
    pub tick: u64,
    pub quit: bool,
    pub size: (u16, u16),
    pub flash: Option<Flash>,
    pub boss: Option<BossState>,
}

/// The name a bookmark gets by default: `<host>/<last path segment>`, with
/// `unknown` for a missing host and `root` for a missing segment.
pub open spec fn bookmark_name_of(u: UrlView) -> Seq<char> {
    let host = match u.host {
        Some(h) => h,
        None => "unknown"@,
    };
    let last = match last_nonempty_segment(u) {
        Some(l) => l,
        None => "root"@,
    };
    host + "/"@ + last
}

/// The default bookmark name for a URL.
pub fn default_bookmark_name(url: &WebUrl) -> (r: String)
    ensures
        r@ == bookmark_name_of(url@),
{
    let mut v = match url.host_str() {
        Some(h) => chars_of(h),
        None => chars_of("unknown"),
    };
    extend(&mut v, chars_of("/").as_slice());
    match url.last_nonempty_segment() {
        Some(l) => extend(&mut v, chars_of(l.as_str()).as_slice()),
        None => extend(&mut v, chars_of("root").as_slice()),
    }
    string_of(v.as_slice())
}

/// The scroll offset to restore for a chapter: the saved one, but at most
/// `RESTORE_SLACK` lines past the chapter's line count (taken modulo 2^16),
/// in case the chapter's layout changed since.
pub open spec fn restored_scroll(restore: u16, body: Seq<char>) -> u16 {
    let lines = line_count(body) as u16;
    let cap = if lines + RESTORE_SLACK > u16::MAX { u16::MAX } else { (lines + RESTORE_SLACK) as u16 };
    if restore < cap { restore } else { cap }
}

/// `v` held between `lo` and `hi`.
pub open spec fn clamped(v: int, lo: int, hi: int) -> int {
    if v < lo { lo } else if v > hi { hi } else { v }
}

/// The mode after a page-turn request: loading `u` from the top when the
/// plugin found a neighbour, unchanged otherwise.
pub open spec fn reading_url(m: Mode) -> Option<UrlView> {
    match m {
        Mode::Reading { url, .. } => Some(url@),
        _ => None,
    }
}

/// The reader can turn pages from its current mode without a panic: some
/// plugin claims the URL and that plugin can step from it.
pub open spec fn can_turn(app: App, d: Direction) -> bool {
    match app.mode {
        Mode::Reading { url, .. } => first_claim(app.registry@, url@) matches Some(i)
            && app.registry@[i].steps_from(url@, d),
        _ => true,
    }
}

/// The neighbour that the plugin for the current page finds in direction `d`,
/// from the page on screen.
pub open spec fn turned(app: App, d: Direction) -> Option<UrlView> {
    match app.mode {
        Mode::Reading { url, html, .. } => app.registry@[first_claim(app.registry@, url@)->0].neighbor(
            html@,
            url@,
            d,
        ),
        _ => None,
    }
}

/// `app` with everything but the mode unchanged from `old`.
pub open spec fn same_but_mode(app: App, old: App) -> bool {
    &&& app.registry == old.registry
    &&& app.state == old.state
    &&& app.tick == old.tick
    &&& app.quit == old.quit
    &&& app.size == old.size
    &&& app.flash == old.flash
    &&& app.boss == old.boss
}

/// The largest scroll offset of the current mode for a body `body_height`
/// lines high.
pub open spec fn max_scroll_of(app: App, body_height: u16) -> u16 {
    match app.mode {
        Mode::Reading { article, .. } => {
            let width = if app.size.0 >= 4 { (app.size.0 - 4) as u16 } else { 0u16 };
            let n = body_lines_of(article.body_text@, width, app.state.font_size_step).len() as u16;
            if n > body_height { (n - body_height) as u16 } else { 0u16 }
        },
        _ => 0,
    }
}


/// A keyboard command of the reader.
#[derive(Clone, Copy, Debug, PartialEq, Eq, Structural)]
pub enum Command {
    ToggleBoss,
    Quit,
    NextChapter,
    PrevChapter,
    ScrollBy(i32),
    Bookmark,
    Reload,
    Ignore,
}

/// The command a key stands for, with a body `body_height` lines high:
/// Ctrl-B toggles the boss screen; `q` or Ctrl-C quits; right/`l` and
/// left/`h` turn pages; down/`j` and up/`k` scroll a line; space/page-down and
/// page-up scroll a page less one line; home/`g` and end/`G` go to the top and
/// bottom; `b` bookmarks; `r` reloads.
pub open spec fn command_of(key: Key, mods: u8, body_height: u16) -> Command {
    let page = body_height as int - 1;
    if key == Key::Char('b') && mods & CONTROL != 0 {
        Command::ToggleBoss
    } else if key == Key::Char('q') || (key == Key::Char('c') && mods == CONTROL) {
        Command::Quit
    } else if key == Key::Right || key == Key::Char('l') {
        Command::NextChapter
    } else if key == Key::Left || key == Key::Char('h') {
        Command::PrevChapter
    } else if key == Key::Down || key == Key::Char('j') {
        Command::ScrollBy(1)
    } else if key == Key::Up || key == Key::Char('k') {
        Command::ScrollBy(-1i32)
    } else if key == Key::PageDown || key == Key::Char(' ') {
        Command::ScrollBy(page as i32)
    } else if key == Key::PageUp {
        Command::ScrollBy((-page) as i32)
    } else if key == Key::Home || key == Key::Char('g') {
        Command::ScrollBy((-i32::MAX) as i32)
    } else if key == Key::End || key == Key::Char('G') {
        Command::ScrollBy(i32::MAX)
    } else if key == Key::Char('b') {
        Command::Bookmark
    } else if key == Key::Char('r') {
        Command::Reload
    } else {
        Command::Ignore
    }
}

/// The command for a key.
pub fn command_for(key: Key, mods: Modifiers, body_height: u16) -> (c: Command)
    ensures
        c == command_of(key, mods.bits, body_height),
{
    let page: i32 = body_height as i32 - 1;
    if key == Key::Char('b') && mods.has_control() {
        Command::ToggleBoss
    } else if key == Key::Char('q') || (key == Key::Char('c') && mods.only_control()) {
        Command::Quit
    } else if key == Key::Right || key == Key::Char('l') {
        Command::NextChapter
    } else if key == Key::Left || key == Key::Char('h') {
        Command::PrevChapter
    } else if key == Key::Down || key == Key::Char('j') {
        Command::ScrollBy(1)
    } else if key == Key::Up || key == Key::Char('k') {
        Command::ScrollBy(-1)
    } else if key == Key::PageDown || key == Key::Char(' ') {
        Command::ScrollBy(page)
    } else if key == Key::PageUp {
        Command::ScrollBy(-page)
    } else if key == Key::Home || key == Key::Char('g') {
        Command::ScrollBy(-i32::MAX)
    } else if key == Key::End || key == Key::Char('G') {
        Command::ScrollBy(i32::MAX)
    } else if key == Key::Char('b') {
        Command::Bookmark
    } else if key == Key::Char('r') {
        Command::Reload
    } else {
        Command::Ignore
    }
}

/// The reading mode scrolled by `delta` within `0..=max`; other modes unchanged.
pub open spec fn scrolled(m: Mode, delta: int, max: u16) -> Mode {
    match m {
        Mode::Reading { url, article, html, scroll, loaded_in_ms } => Mode::Reading {
            url,
            article,
            html,
            scroll: clamped(scroll + delta, 0, max as int) as u16,
            loaded_in_ms,
        },
        _ => m,
    }
}

/// The body height of a screen `screen_height` rows high (less borders, status
/// line and gap).
pub open spec fn body_height_of(screen_height: u16) -> u16 {
    if screen_height >= 4 { (screen_height - 4) as u16 } else { 0 }
}

impl App {
    /// A reader loading `url`, to be restored at the scroll offset saved for it.
    pub fn new(registry: Registry<Plugin>, state: State, url: WebUrl) -> (app: App)
        ensures
            app.mode matches Mode::Loading { url: u, restore_scroll } && u@ == url@
                && restore_scroll == match lookup_in(state.history@, url@) {
                Some(s) => s,
                None => 0,
            },
            app.registry == registry,
            app.state == state,
            app.tick == 0,
            !app.quit,
            app.size == (80u16, 24u16),
            app.flash is None,
            app.boss is None,
    {
        let restore = match state.lookup(&url) {
            Some(s) => s,
            None => 0,
        };
        App {
            registry,
            state,
            mode: Mode::Loading { url, restore_scroll: restore },
            tick: 0,
            quit: false,
            size: (80, 24),
            flash: None,
            boss: None,
        }
    }

    /// Starts loading `url`; the caller fetches it and reports with `finish_fetch`.
    pub fn start_fetch(&mut self, url: WebUrl, restore_scroll: u16)
        ensures
            final(self).mode matches Mode::Loading { url: u, restore_scroll: r } && u@ == url@
                && r == restore_scroll,
            same_but_mode(*final(self), *old(self)),
    {
        self.mode = Mode::Loading { url, restore_scroll };
    }

    /// The URL being loaded, if the reader is loading.
    pub fn loading_url(&self) -> (r: Option<&WebUrl>)
        ensures
            match r {
                Some(u) => self.mode matches Mode::Loading { url, .. } && u@ == url@,
                None => !(self.mode is Loading),
            },
    {
        match &self.mode {
            Mode::Loading { url, .. } => Some(url),
            _ => None,
        }
    }

    /// Takes in the outcome of the fetch started last, stamping the history
    /// entry with `now`: a loaded page is shown at the restored scroll offset,
    /// that offset is saved, and the state is to be written; an error is shown
    /// as its message, and the state stays as it was.
    pub fn finish_fetch_at(&mut self, result: Result<Loaded, String>, loaded_in_ms: u64, now: u64) -> (e: Effect)
        requires
            old(self).mode is Loading,
        ensures
            old(self).mode matches Mode::Loading { url: u, restore_scroll: rs } && match result {
                Ok(p) => {
                    let scroll = restored_scroll(rs, p.article.body_text@);
                    &&& e == Effect::Save
                    &&& final(self).mode matches Mode::Reading { url: u2, article: a2, html: h2, scroll: s2, loaded_in_ms: l2 }
                        && u2@ == u@ && a2@ == p.article@ && h2@ == p.html@ && s2 == scroll && l2 == loaded_in_ms
                    &&& final(self).state.history@ == recorded(old(self).state.history@, u@, scroll, now)
                },
                Err(m) => {
                    &&& e == Effect::Nothing
                    &&& final(self).mode matches Mode::Error { message } && message@ == m@
                    &&& final(self).state == old(self).state
                },
            },
            final(self).state.bookmarks == old(self).state.bookmarks,
            final(self).state.font_size_step == old(self).state.font_size_step,
            final(self).registry == old(self).registry,
            final(self).tick == old(self).tick,
            final(self).quit == old(self).quit,
            final(self).size == old(self).size,
            final(self).flash == old(self).flash,
            final(self).boss == old(self).boss,
    {
        let mut mode = Mode::Error { message: String::new() };
        std::mem::swap(&mut mode, &mut self.mode);
        let (url, restore_scroll) = match mode {
            Mode::Loading { url, restore_scroll } => (url, restore_scroll),
            _ => {
                return Effect::Nothing;
            },
        };
        match result {
            Ok(Loaded { article, html }) => {
                let lines = count_lines(chars_of(article.body_text.as_str()).as_slice()) as u16;
                let cap = lines.saturating_add(RESTORE_SLACK);
                let scroll = if restore_scroll < cap { restore_scroll } else { cap };
                self.state.record_at(&url, scroll, now);
                self.mode = Mode::Reading { url, article, html, scroll, loaded_in_ms };
                Effect::Save
            },
            Err(message) => {
                self.mode = Mode::Error { message };
                Effect::Nothing
            },
        }
    }

    /// Takes in the outcome of the fetch started last, stamping the history
    /// entry with the current time.
    pub fn finish_fetch(&mut self, result: Result<Loaded, String>, loaded_in_ms: u64) -> (e: Effect)
        requires
            old(self).mode is Loading,
        ensures
            old(self).mode matches Mode::Loading { url: u, restore_scroll: rs } && match result {
                Ok(p) => {
                    let scroll = restored_scroll(rs, p.article.body_text@);
                    &&& e == Effect::Save
                    &&& final(self).mode matches Mode::Reading { url: u2, article: a2, html: h2, scroll: s2, loaded_in_ms: l2 }
                        && u2@ == u@ && a2@ == p.article@ && h2@ == p.html@ && s2 == scroll && l2 == loaded_in_ms
                    &&& exists|t: u64| final(self).state.history@ == recorded(old(self).state.history@, u@, scroll, t)
                },
                Err(m) => {
                    &&& e == Effect::Nothing
                    &&& final(self).mode matches Mode::Error { message } && message@ == m@
                    &&& final(self).state == old(self).state
                },
            },
            final(self).state.bookmarks == old(self).state.bookmarks,
            final(self).state.font_size_step == old(self).state.font_size_step,
            final(self).registry == old(self).registry,
            final(self).tick == old(self).tick,
            final(self).quit == old(self).quit,
            final(self).size == old(self).size,
            final(self).flash == old(self).flash,
            final(self).boss == old(self).boss,
    {
        let now = crate::state::now_unix();
        self.finish_fetch_at(result, loaded_in_ms, now)
    }

    /// Turns the page in direction `dir`: the plugin for the current URL is
    /// asked for the neighbour of the page on screen, and when it finds one the
    /// reader starts loading it from the top.
    pub fn turn_page(&mut self, dir: Direction) -> (e: Effect)
        requires
            can_turn(*old(self), dir),
        ensures
            match turned(*old(self), dir) {
                Some(u) => {
                    &&& e == Effect::Fetch
                    &&& final(self).mode matches Mode::Loading { url, restore_scroll } && url@ == u
                        && restore_scroll == 0
                },
                None => e == Effect::Nothing && final(self).mode == old(self).mode,
            },
            same_but_mode(*final(self), *old(self)),
    {
        let target = match &self.mode {
            Mode::Reading { url, html, .. } => {
                let plugin = self.registry.resolve(url);
                let page = RenderedPage { url: url.clone(), html: html.clone() };
                step(plugin, &page, dir)
            },
            _ => None,
        };
        match target {
            Some(u) => {
                self.start_fetch(u, 0);
                Effect::Fetch
            },
            None => Effect::Nothing,
        }
    }

    /// Goes to the next chapter.
    pub fn next_chapter(&mut self) -> (e: Effect)
        requires
            can_turn(*old(self), Direction::Next),
        ensures
            match turned(*old(self), Direction::Next) {
                Some(u) => {
                    &&& e == Effect::Fetch
                    &&& final(self).mode matches Mode::Loading { url, restore_scroll } && url@ == u
                        && restore_scroll == 0
                },
                None => e == Effect::Nothing && final(self).mode == old(self).mode,
            },
            same_but_mode(*final(self), *old(self)),
    {
        self.turn_page(Direction::Next)
    }

    /// Goes to the previous chapter.
    pub fn prev_chapter(&mut self) -> (e: Effect)
        requires
            can_turn(*old(self), Direction::Prev),
        ensures
            match turned(*old(self), Direction::Prev) {
                Some(u) => {
                    &&& e == Effect::Fetch
                    &&& final(self).mode matches Mode::Loading { url, restore_scroll } && url@ == u
                        && restore_scroll == 0
                },
                None => e == Effect::Nothing && final(self).mode == old(self).mode,
            },
            same_but_mode(*final(self), *old(self)),
    {
        self.turn_page(Direction::Prev)
    }

    /// Scrolls by `delta` lines, keeping the offset between 0 and `max`.
    pub fn scroll_by(&mut self, delta: i32, max: u16)
        ensures
            match old(self).mode {
                Mode::Reading { url, article, html, scroll, loaded_in_ms } => final(self).mode
                    == (Mode::Reading {
                    url,
                    article,
                    html,
                    scroll: clamped(scroll + delta, 0, max as int) as u16,
                    loaded_in_ms,
                }),
                _ => final(self).mode == old(self).mode,
            },
            match final(self).mode {
                Mode::Reading { scroll, .. } => old(self).mode is Reading && scroll <= max,
                _ => final(self).mode == old(self).mode,
            },
            same_but_mode(*final(self), *old(self)),
    {
        match &mut self.mode {
            Mode::Reading { scroll, .. } => {
                let v: i64 = *scroll as i64 + delta as i64;
                let new: i64 = if v < 0 {
                    0
                } else if v > max as i64 {
                    max as i64
                } else {
                    v
                };
                *scroll = new as u16;
            },
            _ => {},
        }
    }

    /// Saves the reading position of the page on screen into the history.
    pub fn save_now(&mut self) -> (e: Effect)
        ensures
            e == Effect::Save,
            match old(self).mode {
                Mode::Reading { url, scroll, .. } => exists|t: u64| final(self).state.history@ == recorded(
                    old(self).state.history@,
                    url@,
                    scroll,
                    t,
                ),
                _ => final(self).state == old(self).state,
            },
            final(self).state.bookmarks == old(self).state.bookmarks,
            final(self).state.font_size_step == old(self).state.font_size_step,
            *final(self) == (App { state: final(self).state, ..*old(self) }),
    {
        match &self.mode {
            Mode::Reading { url, scroll, .. } => {
                self.state.record(url, *scroll);
            },
            _ => {},
        }
        Effect::Save
    }

    /// Bookmarks the page on screen under its default name, replacing a
    /// bookmark of that name, stamped `now`.
    pub fn bookmark_current_at(&mut self, now: u64) -> (e: Effect)
        ensures
            match old(self).mode {
                Mode::Reading { url, .. } => {
                    &&& e == Effect::Save
                    &&& bookmarks_view(final(self).state.bookmarks@) == bookmarks_view(
                        old(self).state.bookmarks@,
                    ).filter(|b: BookmarkView| b.name != bookmark_name_of(url@)).push(
                        BookmarkView { name: bookmark_name_of(url@), url: url@.href, saved_at: now },
                    )
                    &&& final(self).flash matches Some(f) && f.text@ == "bookmarked as "@
                        + bookmark_name_of(url@)
                    &&& final(self).state.history == old(self).state.history
                    &&& final(self).state.font_size_step == old(self).state.font_size_step
                    &&& *final(self) == (App { state: final(self).state, flash: final(self).flash, ..*old(self) })
                },
                _ => e == Effect::Nothing && *final(self) == *old(self),
            },
    {
        let (name, href) = match &self.mode {
            Mode::Reading { url, .. } => (default_bookmark_name(url), owned(url.as_str())),
            _ => return Effect::Nothing,
        };
        let mut text = chars_of("bookmarked as ");
        extend(&mut text, chars_of(name.as_str()).as_slice());
        self.state.set_bookmark(name, href, now);
        self.flash = Some(Flash { text: string_of(text.as_slice()), at: std::time::Instant::now() });
        Effect::Save
    }

    /// Bookmarks the page on screen, stamped with the current time.
    pub fn bookmark_current(&mut self) -> (e: Effect)
        ensures
            match old(self).mode {
                Mode::Reading { url, .. } => {
                    &&& e == Effect::Save
                    &&& exists|t: u64| bookmarks_view(final(self).state.bookmarks@) == bookmarks_view(
                        old(self).state.bookmarks@,
                    ).filter(|b: BookmarkView| b.name != bookmark_name_of(url@)).push(
                        BookmarkView { name: bookmark_name_of(url@), url: url@.href, saved_at: t },
                    )
                    &&& final(self).flash matches Some(f) && f.text@ == "bookmarked as "@
                        + bookmark_name_of(url@)
                    &&& final(self).state.history == old(self).state.history
                    &&& final(self).state.font_size_step == old(self).state.font_size_step
                    &&& *final(self) == (App { state: final(self).state, flash: final(self).flash, ..*old(self) })
                },
                _ => e == Effect::Nothing && *final(self) == *old(self),
            },
    {
        let now = crate::state::now_unix();
        self.bookmark_current_at(now)
    }

    /// Shows the fake log if it is hidden, hides it otherwise.
    pub fn toggle_boss(&mut self)
        ensures
            final(self).boss is Some <==> old(self).boss is None,
            final(self).boss matches Some(b) ==> b@.lines.len() == crate::boss::INITIAL_LINES,
            *final(self) == (App { boss: final(self).boss, ..*old(self) }),
    {
        if self.boss.is_some() {
            self.boss = None;
        } else {
            self.boss = Some(BossState::new());
        }
    }

    /// The flash message, while it is younger than `FLASH_MILLIS`.
    pub fn flash_text(&self) -> (r: Option<&str>)
        ensures
            match r {
                Some(t) => self.flash matches Some(f) && t@ == f.text@,
                None => true,
            },
            self.flash is None ==> r is None,
    {
        match &self.flash {
            Some(f) => self.flash_text_after(f.at.elapsed().as_millis()),
            None => None,
        }
    }

    /// The flash message, given the milliseconds since it was set: shown while
    /// younger than `FLASH_MILLIS`, gone after.
    pub fn flash_text_after(&self, elapsed_ms: u128) -> (r: Option<&str>)
        ensures
            match self.flash {
                Some(f) => if elapsed_ms < FLASH_MILLIS {
                    r matches Some(t) && t@ == f.text@
                } else {
                    r is None
                },
                None => r is None,
            },
    {
        match &self.flash {
            Some(f) => {
                if elapsed_ms < FLASH_MILLIS {
                    Some(f.text.as_str())
                } else {
                    None
                }
            },
            None => None,
        }
    }

    /// Handles a key press on a screen `screen_height` rows high. Ctrl-B always
    /// toggles the boss screen; while it is up every other key is swallowed.
    pub fn handle_key(&mut self, key: Key, mods: Modifiers, screen_height: u16) -> (e: Effect)
        requires
            old(self).boss is None ==> match command_of(key, mods.bits, body_height_of(screen_height)) {
                Command::NextChapter => can_turn(*old(self), Direction::Next),
                Command::PrevChapter => can_turn(*old(self), Direction::Prev),
                _ => true,
            },
        ensures
            ({
                let cmd = command_of(key, mods.bits, body_height_of(screen_height));
                if cmd == Command::ToggleBoss {
                    &&& e == Effect::Nothing
                    &&& (final(self).boss is Some <==> old(self).boss is None)
                    &&& *final(self) == (App { boss: final(self).boss, ..*old(self) })
                } else if old(self).boss is Some {
                    e == Effect::Nothing && *final(self) == *old(self)
                } else {
                    match cmd {
                        Command::Quit => e == Effect::Nothing && final(self).quit
                            && *final(self) == (App { quit: true, ..*old(self) }),
                        Command::NextChapter | Command::PrevChapter => {
                            let d = if cmd == Command::NextChapter { Direction::Next } else { Direction::Prev };
                            &&& same_but_mode(*final(self), *old(self))
                            &&& match turned(*old(self), d) {
                                Some(u) => e == Effect::Fetch && (final(self).mode matches Mode::Loading { url, restore_scroll }
                                    && url@ == u && restore_scroll == 0),
                                None => e == Effect::Nothing && final(self).mode == old(self).mode,
                            }
                        },
                        Command::ScrollBy(d) => {
                            &&& e == Effect::Nothing
                            &&& same_but_mode(*final(self), *old(self))
                            &&& final(self).mode == scrolled(
                                old(self).mode,
                                d as int,
                                max_scroll_of(*old(self), body_height_of(screen_height)),
                            )
                        },
                        Command::Bookmark => match old(self).mode {
                            Mode::Reading { url, .. } => {
                                &&& e == Effect::Save
                                &&& exists|t: u64| bookmarks_view(final(self).state.bookmarks@) == bookmarks_view(
                                    old(self).state.bookmarks@,
                                ).filter(|b: BookmarkView| b.name != bookmark_name_of(url@)).push(
                                    BookmarkView { name: bookmark_name_of(url@), url: url@.href, saved_at: t },
                                )
                                &&& final(self).flash matches Some(f) && f.text@ == "bookmarked as "@
                                    + bookmark_name_of(url@)
                                &&& final(self).state.history == old(self).state.history
                                &&& final(self).state.font_size_step == old(self).state.font_size_step
                                &&& *final(self) == (App {
                                    state: final(self).state,
                                    flash: final(self).flash,
                                    ..*old(self)
                                })
                            },
                            _ => e == Effect::Nothing && *final(self) == *old(self),
                        },
                        Command::Reload => {
                            &&& same_but_mode(*final(self), *old(self))
                            &&& match old(self).mode {
                                Mode::Reading { url, scroll, .. } => e == Effect::Fetch
                                    && (final(self).mode matches Mode::Loading { url: u2, restore_scroll }
                                    && u2@ == url@ && restore_scroll == scroll),
                                _ => e == Effect::Nothing && final(self).mode == old(self).mode,
                            }
                        },
                        _ => e == Effect::Nothing && *final(self) == *old(self),
                    }
                }
            }),
    {
        let body_height = screen_height.saturating_sub(4);
        let cmd = command_for(key, mods, body_height);
        if cmd == Command::ToggleBoss {
            self.toggle_boss();
            return Effect::Nothing;
        }
        if self.boss.is_some() {
            return Effect::Nothing;
        }
        match cmd {
            Command::Quit => {
                self.quit = true;
                Effect::Nothing
            },
            Command::NextChapter => self.next_chapter(),
            Command::PrevChapter => self.prev_chapter(),
            Command::ScrollBy(d) => {
                let max = max_scroll(self, body_height);
                self.scroll_by(d, max);
                Effect::Nothing
            },
            Command::Bookmark => self.bookmark_current(),
            Command::Reload => {
                let again = match &self.mode {
                    Mode::Reading { url, scroll, .. } => Some((url.clone(), *scroll)),
                    _ => None,
                };
                match again {
                    Some((u, s)) => {
                        self.start_fetch(u, s);
                        Effect::Fetch
                    },
                    None => Effect::Nothing,
                }
            },
            _ => Effect::Nothing,
        }
    }
}

/// The largest scroll offset for a body `body_height` lines high: the body's
/// line count (taken modulo 2^16) less the height, in the reading mode.
pub fn max_scroll(app: &App, body_height: u16) -> (r: u16)
    ensures
        r == max_scroll_of(*app, body_height),
{
    match &app.mode {
        Mode::Reading { article, .. } => {
            let width = app.size.0.saturating_sub(4);
            let lines = body_lines(article.body_text.as_str(), width, app.state.font_size_step);
            (lines.len() as u16).saturating_sub(body_height)
        },
        _ => 0,
    }
}

// ---------------------------------------------------------------------------
// Choosing what to open, and plain-text output
// ---------------------------------------------------------------------------

/// Why no URL could be chosen to open.
#[derive(Debug)]
pub enum TargetError {
    /// The URL given on the command line does not parse.
    InvalidUrl { raw: String, reason: UrlParseError },
    /// `--resume` was asked for but nothing was read yet.
    NoHistory,
    /// A saved URL does not parse any more.
    BadSavedUrl { url: String, reason: UrlParseError },
    /// No bookmark has the requested name.
    NoSuchBookmark { name: String },
    /// Neither a URL, `--resume` nor `--bookmark` was given.
    NoTarget,
}

/// The outcome of parsing `text` as a URL, seen through views.
pub open spec fn parse_outcome(r: Result<WebUrl, UrlParseError>, text: Seq<char>) -> bool {
    match r {
        Ok(u) => parsed_url(text) == Some(u@),
        Err(_) => parsed_url(text) is None,
    }
}

/// Chooses the URL to open: the one given, else with `resume` the most recently
/// saved history entry, else the named bookmark.
pub fn resolve_target_url(
    url_arg: Option<&str>,
    resume: bool,
    bookmark: Option<&str>,
    state: &State,
) -> (r: Result<WebUrl, TargetError>)
    ensures
        match url_arg {
            Some(raw) => match r {
                Ok(u) => parsed_url(raw@) == Some(u@),
                Err(TargetError::InvalidUrl { raw: given, .. }) => given@ == raw@ && parsed_url(raw@) is None,
                Err(_) => false,
            },
            None => if resume {
                if state.history@.dom().len() == 0 {
                    r matches Err(TargetError::NoHistory)
                } else {
                    exists|d: Seq<char>| {
                        &&& #[trigger] state.history@.contains_key(d)
                        &&& forall|d2: Seq<char>| #[trigger] state.history@.contains_key(d2)
                            ==> state.history@[d2].saved_at <= state.history@[d].saved_at
                        &&& match r {
                            Ok(u) => parsed_url(state.history@[d].url) == Some(u@),
                            Err(TargetError::BadSavedUrl { url, .. }) => url@ == state.history@[d].url
                                && parsed_url(url@) is None,
                            Err(_) => false,
                        }
                    }
                }
            } else {
                match bookmark {
                    Some(name) => match first_named(bookmarks_view(state.bookmarks@), name@) {
                        Some(i) => match r {
                            Ok(u) => parsed_url(bookmarks_view(state.bookmarks@)[i].url) == Some(u@),
                            Err(TargetError::BadSavedUrl { url, .. }) => url@ == bookmarks_view(
                                state.bookmarks@,
                            )[i].url && parsed_url(url@) is None,
                            Err(_) => false,
                        },
                        None => r matches Err(TargetError::NoSuchBookmark { name: n }) && n@ == name@,
                    },
                    None => r matches Err(TargetError::NoTarget),
                }
            },
        },
{
    if let Some(raw) = url_arg {
        return match WebUrl::parse(raw) {
            Ok(u) => Ok(u),
            Err(reason) => Err(TargetError::InvalidUrl { raw: owned(raw), reason }),
        };
    }
    if resume {
        let entry = match state.latest() {
            Some(e) => e,
            None => return Err(TargetError::NoHistory),
        };
        let ghost d = choose|d: Seq<char>| #[trigger]
            state.history@.contains_key(d) && state.history@[d] == entry@;
        assert(state.history@.contains_key(d) && state.history@[d] == entry@);
        return match WebUrl::parse(entry.url.as_str()) {
            Ok(u) => Ok(u),
            Err(reason) => Err(TargetError::BadSavedUrl { url: entry.url.clone(), reason }),
        };
    }
    if let Some(name) = bookmark {
        let b = match state.find_bookmark(name) {
            Some(b) => b,
            None => return Err(TargetError::NoSuchBookmark { name: owned(name) }),
        };
        return match WebUrl::parse(b.url.as_str()) {
            Ok(u) => Ok(u),
            Err(reason) => Err(TargetError::BadSavedUrl { url: b.url.clone(), reason }),
        };
    }
    Err(TargetError::NoTarget)
}

/// The title shown for an article, `(untitled)` when it has none.
pub open spec fn shown_title(t: Option<Seq<char>>) -> Seq<char> {
    match t {
        Some(s) => s,
        None => "(untitled)"@,
    }
}

/// The plain-text rendition of an article read from `href`: a title line, a
/// byline when there is one, the source, a blank line, the trimmed body and a
/// blank line, each line ended by a newline.
pub open spec fn printed(a: crate::plugin::ArticleView, href: Seq<char>) -> Seq<char> {
    let by = match a.byline {
        Some(b) => "by "@ + b + "\n"@,
        None => Seq::empty(),
    };
    "=== "@ + shown_title(a.title) + " ===\n"@ + by + "source: "@ + href + "\n\n"@ + trimmed(
        a.body_text,
    ) + "\n\n"@
}

/// The plain-text rendition of an article, for printing.
pub fn print_text(article: &Article, url: &WebUrl) -> (r: String)
    ensures
        r@ == printed(article@, url@.href),
{
    let mut v = chars_of("=== ");
    match &article.title {
        Some(t) => extend(&mut v, chars_of(t.as_str()).as_slice()),
        None => extend(&mut v, chars_of("(untitled)").as_slice()),
    }
    extend(&mut v, chars_of(" ===\n").as_slice());
    match &article.byline {
        Some(b) => {
            extend(&mut v, chars_of("by ").as_slice());
            extend(&mut v, chars_of(b.as_str()).as_slice());
            extend(&mut v, chars_of("\n").as_slice());
        },
        None => {},
    }
    extend(&mut v, chars_of("source: ").as_slice());
    extend(&mut v, chars_of(url.as_str()).as_slice());
    extend(&mut v, chars_of("\n\n").as_slice());
    extend(&mut v, trim(chars_of(article.body_text.as_str()).as_slice()).as_slice());
    extend(&mut v, chars_of("\n\n").as_slice());
    assert(v@ =~= printed(article@, url@.href));
    string_of(v.as_slice())
}

/// The page to print next when printing a chapter and then following `next`
/// links `follow` times: after `printed` pages have been printed, the next
/// page found (if any) while fewer than `follow + 1` pages are out, and none
/// after that.
pub fn next_to_print(printed: u64, follow: u32, next: Option<WebUrl>) -> (r: Option<WebUrl>)
    ensures
        printed <= follow ==> r == next,
        printed > follow ==> r is None,
{
    if printed <= follow as u64 {
        next
    } else {
        None
    }
}

// ---------------------------------------------------------------------------
// Laws
// ---------------------------------------------------------------------------

/// A restored scroll offset is never past the saved one, nor more than
/// `RESTORE_SLACK` lines past the end of the chapter (line counts taken modulo
/// 2^16 and capped at `u16::MAX`).
pub proof fn lemma_restored_scroll_bounded(restore: u16, body: Seq<char>)
    ensures
        restored_scroll(restore, body) <= restore,
        restored_scroll(restore, body) as int <= (line_count(body) as u16) as int + RESTORE_SLACK,
        restore as int <= (line_count(body) as u16) as int + RESTORE_SLACK ==> restored_scroll(
            restore,
            body,
        ) == restore,
{
}

/// Scrolling keeps the offset within `0..=max`, and the top and bottom keys
/// reach the ends.
pub proof fn lemma_scrolling_stays_in_bounds(m: Mode, delta: i32, max: u16)
    requires
        m is Reading,
    ensures
        scrolled(m, delta as int, max) matches Mode::Reading { scroll, .. } && scroll <= max,
        scrolled(m, i32::MAX as int, max) matches Mode::Reading { scroll, .. } && scroll == max,
        scrolled(m, -i32::MAX as int, max) matches Mode::Reading { scroll, .. } && scroll == 0,
{
}

/// While the boss screen is up, every key but Ctrl-B is ignored, whatever the
/// reader's state.
pub proof fn lemma_boss_swallows_keys(key: Key, mods: u8, height: u16)
    ensures
        (command_of(key, mods, height) == Command::ToggleBoss) <==> (key == Key::Char('b') && mods
            & CONTROL != 0),
{
}

/// The line keys move one line: Down and `j` scroll one line down, Up and `k`
/// one line up, whatever modifiers are held and however high the body is.
/// The page keys move a page less one line, Home/`g` and End/`G` go to the
/// ends, the arrow keys and `l`/`h` turn chapters, `b` bookmarks (toggling
/// the boss screen with control held), `q` quits, and `r` reloads.
pub proof fn lemma_key_bindings(key: Key, mods: u8, height: u16)
    ensures
        (key == Key::Down || key == Key::Char('j')) ==> command_of(key, mods, height)
            == Command::ScrollBy(1),
        (key == Key::Up || key == Key::Char('k')) ==> command_of(key, mods, height)
            == Command::ScrollBy(-1i32),
        (key == Key::PageDown || key == Key::Char(' ')) ==> command_of(key, mods, height)
            == Command::ScrollBy((height - 1) as i32),
        key == Key::PageUp ==> command_of(key, mods, height) == Command::ScrollBy(
            (1 - height) as i32,
        ),
        (key == Key::Home || key == Key::Char('g')) ==> command_of(key, mods, height)
            == Command::ScrollBy((-i32::MAX) as i32),
        (key == Key::End || key == Key::Char('G')) ==> command_of(key, mods, height)
            == Command::ScrollBy(i32::MAX),
        (key == Key::Right || key == Key::Char('l')) ==> command_of(key, mods, height)
            == Command::NextChapter,
        (key == Key::Left || key == Key::Char('h')) ==> command_of(key, mods, height)
            == Command::PrevChapter,
        key == Key::Char('b') && mods & CONTROL == 0 ==> command_of(key, mods, height)
            == Command::Bookmark,
        key == Key::Char('b') && mods & CONTROL != 0 ==> command_of(key, mods, height)
            == Command::ToggleBoss,
        key == Key::Char('q') ==> command_of(key, mods, height) == Command::Quit,
        key == Key::Char('c') ==> (command_of(key, mods, height) == Command::Quit <==> mods
            == CONTROL),
        key == Key::Char('r') ==> command_of(key, mods, height) == Command::Reload,
        key == Key::Other ==> command_of(key, mods, height) == Command::Ignore,
{
}

/// Scrolling one line down from offset `s` gives `s + 1`, stopping at `max`;
/// one line up gives `s - 1`, stopping at 0. The rest of the reading mode is
/// untouched.
pub proof fn lemma_line_scroll_moves_one_line(m: Mode, max: u16)
    requires
        m matches Mode::Reading { scroll, .. } && scroll <= max,
    ensures
        m matches Mode::Reading { url, article, html, scroll, loaded_in_ms } && {
            &&& scrolled(m, 1, max) == (Mode::Reading {
                url,
                article,
                html,
                scroll: if scroll < max { (scroll + 1) as u16 } else { max },
                loaded_in_ms,
            })
            &&& scrolled(m, -1, max) == (Mode::Reading {
                url,
                article,
                html,
                scroll: if scroll > 0 { (scroll - 1) as u16 } else { 0u16 },
                loaded_in_ms,
            })
            &&& (scroll < max ==> scrolled(m, 1, max)->scroll > scroll)
            &&& (scroll > 0 ==> scrolled(m, -1, max)->scroll < scroll)
        },
{
}

/// The heading of a printed article is `=== <title> ===` when the article has
/// a title, and `=== (untitled) ===` only when it has none; the by-line, when
/// there is one, comes right after; the text ends with the trimmed body and a
/// blank line.
pub proof fn lemma_printed_heading(a: crate::plugin::ArticleView, href: Seq<char>)
    ensures
        printed(a, href).skip(printed(a, href).len() - trimmed(a.body_text).len() - 2) == trimmed(
            a.body_text,
        ) + "\n\n"@,
        a.title matches Some(t) ==> printed(a, href).take(t.len() as int + 9) == "=== "@ + t + " ===\n"@,
        a.title is None ==> printed(a, href).take(19) == "=== (untitled) ===\n"@,
        ({
            let head = "=== "@ + shown_title(a.title) + " ===\n"@;
            &&& a.title matches Some(t) ==> head == "=== "@ + t + " ===\n"@
            &&& a.byline matches Some(b) ==> printed(a, href).subrange(
                head.len() as int,
                head.len() as int + b.len() as int + 4,
            ) == "by "@ + b + "\n"@
        }),
{
    reveal_strlit("=== ");
    reveal_strlit(" ===\n");
    reveal_strlit("(untitled)");
    reveal_strlit("=== (untitled) ===\n");
    reveal_strlit("by ");
    reveal_strlit("\n");
    let head = "=== "@ + shown_title(a.title) + " ===\n"@;
    let p = printed(a, href);
    reveal_strlit("\n\n");
    let tail = trimmed(a.body_text) + "\n\n"@;
    assert(p.skip(p.len() - tail.len()) =~= tail);
    match a.title {
        Some(t) => {
            assert(p.take(t.len() as int + 9) =~= "=== "@ + t + " ===\n"@);
        },
        None => {
            assert(p.take(19) =~= "=== (untitled) ===\n"@);
        },
    }
    match a.byline {
        Some(b) => {
            assert(p.subrange(head.len() as int, head.len() as int + b.len() as int + 4) =~= "by "@ + b + "\n"@);
        },
        None => {},
    }
}

} // verus!

use twr::generic::GenericPlugin;
use twr::plugin::{Article, Plugin, Registry, SitePlugin};
use twr::reader::{
    command_for, default_bookmark_name, max_scroll, next_to_print, print_text, resolve_target_url, App, Command, Effect,
    Key, Loaded, Mode, Modifiers, TargetError,
};
use twr::state::State;
use twr::weburl::{UrlParseError, WebUrl};

fn url(s: &str) -> WebUrl {
    WebUrl::parse(s).unwrap()
}

fn article(body: &str) -> Article {
    Article { title: Some("T".into()), byline: None, body_text: body.into(), next_url: None, prev_url: None }
}

fn reading_page(u: &str, body: &str, html: &str, scroll: u16) -> App {
    let mut app = App::new(Registry::with_defaults(None), State::default(), url(u));
    if let Mode::Loading { restore_scroll, .. } = &mut app.mode {
        *restore_scroll = scroll;
    }
    let e = app.finish_fetch_at(Ok(Loaded { article: article(body), html: html.into() }), 5, 1);
    assert_eq!(e, Effect::Save);
    app
}

fn reading_app(u: &str, body: &str, scroll: u16) -> App {
    reading_page(u, body, "", scroll)
}

fn scroll_of(app: &App) -> u16 {
    match &app.mode {
        Mode::Reading { scroll, .. } => *scroll,
        _ => panic!("not reading"),
    }
}

const NONE: Modifiers = Modifiers { bits: 0 };
const CTRL: Modifiers = Modifiers { bits: 2 };

#[test]
fn new_app_restores_saved_scroll_for_same_url_only() {
    let mut st = State::default();
    st.record_at(&url("https://example.com/c/5"), 33, 1);
    let app = App::new(Registry::with_defaults(None), st, url("https://example.com/c/5"));
    match &app.mode {
        Mode::Loading { restore_scroll, .. } => assert_eq!(*restore_scroll, 33),
        _ => panic!(),
    }
    let mut st = State::default();
    st.record_at(&url("https://example.com/c/5"), 33, 1);
    let app = App::new(Registry::with_defaults(None), st, url("https://example.com/c/6"));
    match &app.mode {
        Mode::Loading { restore_scroll, .. } => assert_eq!(*restore_scroll, 0),
        _ => panic!(),
    }
}

#[test]
fn finish_fetch_caps_restored_scroll_and_records_position() {
    let app = reading_app("https://example.com/a", "l1\nl2\nl3", 900);
    assert_eq!(scroll_of(&app), 203);
    assert_eq!(app.state.lookup(&url("https://example.com/a")), Some(203));
    let app = reading_app("https://example.com/a", "l1\nl2\nl3", 12);
    assert_eq!(scroll_of(&app), 12);
}

#[test]
fn finish_fetch_error_shows_message() {
    let mut st = State::default();
    st.record_at(&url("https://example.com/z"), 4, 1);
    st.font_size_step = 2;
    let mut app = App::new(Registry::with_defaults(None), st, url("https://example.com/a"));
    assert_eq!(app.finish_fetch(Err("boom".into()), 0), Effect::Nothing);
    match &app.mode {
        Mode::Error { message } => assert_eq!(message, "boom"),
        _ => panic!(),
    }
    assert_eq!(app.mode.tag(), "ERR ");
    assert_eq!(app.state.history.len(), 1);
    assert_eq!(app.state.lookup(&url("https://example.com/a")), None);
    assert_eq!(app.state.font_size_step, 2);
}

#[test]
fn scrolling_is_clamped() {
    let mut app = reading_app("https://example.com/a", "x", 0);
    app.scroll_by(5, 3);
    assert_eq!(scroll_of(&app), 3);
    app.scroll_by(-10, 3);
    assert_eq!(scroll_of(&app), 0);
    app.scroll_by(i32::MAX, 7);
    assert_eq!(scroll_of(&app), 7);
    app.scroll_by(-i32::MAX, 7);
    assert_eq!(scroll_of(&app), 0);
}

#[test]
fn boss_key_toggles_and_swallows_other_keys() {
    let mut app = reading_app("https://example.com/a", "x", 0);
    assert_eq!(app.handle_key(Key::Char('b'), CTRL, 24), Effect::Nothing);
    assert!(app.boss.is_some());
    app.handle_key(Key::Char('q'), NONE, 24);
    assert!(!app.quit);
    app.handle_key(Key::Char('b'), NONE, 24);
    assert_eq!(app.state.bookmarks.len(), 0);
    app.handle_key(Key::Char('b'), Modifiers { bits: 3 }, 24);
    assert!(app.boss.is_none());
    app.handle_key(Key::Char('q'), NONE, 24);
    assert!(app.quit);
}

#[test]
fn ctrl_c_quits_only_with_control_alone() {
    let mut app = reading_app("https://example.com/a", "x", 0);
    app.handle_key(Key::Char('c'), Modifiers { bits: 3 }, 24);
    assert!(!app.quit);
    app.handle_key(Key::Char('c'), CTRL, 24);
    assert!(app.quit);
}

#[test]
fn commands_for_keys() {
    assert_eq!(command_for(Key::PageDown, NONE, 20), Command::ScrollBy(19));
    assert_eq!(command_for(Key::PageUp, NONE, 20), Command::ScrollBy(-19));
    assert_eq!(command_for(Key::Char(' '), NONE, 0), Command::ScrollBy(-1));
    assert_eq!(command_for(Key::Char('G'), NONE, 5), Command::ScrollBy(i32::MAX));
    assert_eq!(command_for(Key::Home, NONE, 5), Command::ScrollBy(-i32::MAX));
    assert_eq!(command_for(Key::Char('l'), CTRL, 5), Command::NextChapter);
    assert_eq!(command_for(Key::Left, NONE, 5), Command::PrevChapter);
    assert_eq!(command_for(Key::Char('r'), NONE, 5), Command::Reload);
    assert_eq!(command_for(Key::Char('z'), NONE, 5), Command::Ignore);
    assert_eq!(command_for(Key::Other, CTRL, 5), Command::Ignore);
}

#[test]
fn end_key_scrolls_to_bottom_of_laid_out_body() {
    let body = (0..40).map(|i| format!("para {i}")).collect::<Vec<_>>().join("\n\n");
    let mut app = reading_app("https://example.com/a", &body, 0);
    let max = max_scroll(&app, 20);
    assert_eq!(max, 79 - 20);
    app.handle_key(Key::End, NONE, 24);
    assert_eq!(scroll_of(&app), max);
    app.handle_key(Key::Char('k'), NONE, 24);
    assert_eq!(scroll_of(&app), max - 1);
    app.handle_key(Key::Char('g'), NONE, 24);
    assert_eq!(scroll_of(&app), 0);
}

#[test]
fn chapter_keys_use_url_arithmetic_on_sangtacviet() {
    let mut app = reading_app("https://sangtacviet.vip/truyen/dich/1/5/2/", "x", 0);
    assert_eq!(app.handle_key(Key::Right, NONE, 24), Effect::Fetch);
    match &app.mode {
        Mode::Loading { url, restore_scroll } => {
            assert_eq!(url.as_str(), "https://sangtacviet.vip/truyen/dich/1/5/3/");
            assert_eq!(*restore_scroll, 0);
        }
        _ => panic!(),
    }
    let mut app = reading_app("https://sangtacviet.vip/truyen/dich/1/5/1/", "x", 0);
    assert_eq!(app.prev_chapter(), Effect::Nothing);
    assert_eq!(app.mode.tag(), "INFO");
}

#[test]
fn generic_pages_have_no_neighbours_without_links() {
    let mut app = reading_app("https://example.com/a", "x", 0);
    assert_eq!(app.next_chapter(), Effect::Nothing);
    assert_eq!(app.mode.tag(), "INFO");
}

#[test]
fn generic_next_chapter_follows_the_page_link() {
    let html = r#"<html><head><link rel="next" href="/chapter/3"></head><body><p>text</p></body></html>"#;
    let mut app = reading_page("https://example.com/chapter/2", "text", html, 0);
    assert_eq!(app.handle_key(Key::Char('l'), NONE, 24), Effect::Fetch);
    match &app.mode {
        Mode::Loading { url, restore_scroll } => {
            assert_eq!(url.as_str(), "https://example.com/chapter/3");
            assert_eq!(*restore_scroll, 0);
        }
        _ => panic!(),
    }
    let mut app = reading_page("https://example.com/chapter/2", "text", html, 0);
    assert_eq!(app.prev_chapter(), Effect::Nothing);
    assert_eq!(app.mode.tag(), "INFO");
}

#[test]
fn reading_mode_keeps_the_fetched_page() {
    let app = reading_page("https://example.com/a", "x", "<p>x</p>", 0);
    match &app.mode {
        Mode::Reading { html, loaded_in_ms, .. } => {
            assert_eq!(html, "<p>x</p>");
            assert_eq!(*loaded_in_ms, 5);
        }
        _ => panic!(),
    }
}

#[test]
fn bookmark_outside_reading_changes_nothing() {
    let mut app = App::new(Registry::with_defaults(None), State::default(), url("https://example.com/a"));
    assert_eq!(app.bookmark_current_at(9), Effect::Nothing);
    assert_eq!(app.handle_key(Key::Char('b'), NONE, 24), Effect::Nothing);
    assert_eq!(app.state.bookmarks.len(), 0);
    assert!(app.flash.is_none());
    assert_eq!(app.mode.tag(), "WARN");
}

#[test]
fn boss_key_keeps_the_flash() {
    let mut app = reading_app("https://example.com/book/ch7", "a", 0);
    app.bookmark_current_at(5);
    app.handle_key(Key::Char('b'), CTRL, 24);
    assert!(app.boss.is_some());
    assert_eq!(app.flash_text_after(0), Some("bookmarked as example.com/ch7"));
    app.toggle_boss();
    assert!(app.boss.is_none());
    assert_eq!(app.flash_text_after(0), Some("bookmarked as example.com/ch7"));
}

#[test]
fn print_follow_stops_after_follow_plus_one_pages() {
    let next = url("https://example.com/2");
    assert!(next_to_print(1, 0, Some(next.clone())).is_none());
    assert_eq!(next_to_print(1, 1, Some(next.clone())).unwrap().as_str(), "https://example.com/2");
    assert!(next_to_print(2, 1, Some(next.clone())).is_none());
    assert!(next_to_print(3, 5, None).is_none());
    assert_eq!(next_to_print(u32::MAX as u64, u32::MAX, Some(next)).unwrap().as_str(), "https://example.com/2");
}

#[test]
fn reload_keeps_scroll_and_bookmark_names_page() {
    let mut app = reading_app("https://example.com/book/ch7", "a\nb\nc", 2);
    assert_eq!(app.handle_key(Key::Char('b'), NONE, 24), Effect::Save);
    assert_eq!(app.state.bookmarks[0].name, "example.com/ch7");
    assert_eq!(app.flash_text(), Some("bookmarked as example.com/ch7"));
    assert_eq!(app.handle_key(Key::Char('r'), NONE, 24), Effect::Fetch);
    match &app.mode {
        Mode::Loading { restore_scroll, .. } => assert_eq!(*restore_scroll, 2),
        _ => panic!(),
    }
    assert_eq!(app.mode.tag(), "WARN");
}

#[test]
fn save_now_records_position() {
    let mut app = reading_app("https://example.com/a", "x\ny", 1);
    app.scroll_by(-1, 5);
    assert_eq!(app.save_now(), Effect::Save);
    assert_eq!(app.state.lookup(&url("https://example.com/a")), Some(0));
}

#[test]
fn default_bookmark_names() {
    assert_eq!(default_bookmark_name(&url("https://sangtacviet.vip/truyen/a/1/2/3/")), "sangtacviet.vip/3");
    assert_eq!(default_bookmark_name(&url("https://example.com/")), "example.com/root");
    assert_eq!(default_bookmark_name(&url("data:text/plain,x")), "unknown/root");
}

#[test]
fn target_resolution() {
    let mut st = State::default();
    st.record_at(&url("https://a.example/1"), 0, 10);
    st.record_at(&url("https://b.example/2"), 0, 20);
    st.set_bookmark("fav".into(), "https://c.example/3".into(), 1);
    st.set_bookmark("broken".into(), "not a url".into(), 1);
    assert_eq!(resolve_target_url(Some("https://x.example/"), true, None, &st).unwrap().as_str(), "https://x.example/");
    match resolve_target_url(Some("nope"), false, None, &st) {
        Err(TargetError::InvalidUrl { raw, reason }) => {
            assert_eq!(raw, "nope");
            assert_eq!(reason, UrlParseError::RelativeUrlWithoutBase);
        }
        _ => panic!(),
    }
    assert_eq!(resolve_target_url(None, true, None, &st).unwrap().as_str(), "https://b.example/2");
    assert_eq!(resolve_target_url(None, false, Some("fav"), &st).unwrap().as_str(), "https://c.example/3");
    assert!(matches!(resolve_target_url(None, false, Some("broken"), &st), Err(TargetError::BadSavedUrl { .. })));
    assert!(matches!(resolve_target_url(None, false, Some("zzz"), &st), Err(TargetError::NoSuchBookmark { .. })));
    assert!(matches!(resolve_target_url(None, false, None, &st), Err(TargetError::NoTarget)));
    assert!(matches!(resolve_target_url(None, true, None, &State::default()), Err(TargetError::NoHistory)));
}

#[test]
fn print_text_layout() {
    let a = Article { title: None, byline: Some("Ann".into()), body_text: "  body \n".into(), next_url: None, prev_url: None };
    assert_eq!(print_text(&a, &url("https://example.com/p")), "=== (untitled) ===\nby Ann\nsource: https://example.com/p\n\nbody\n\n");
}

#[test]
fn registry_dispatches_first_match() {
    let reg = Registry::with_defaults(None);
    assert_eq!(reg.plugins().len(), 2);
    assert_eq!(reg.resolve(&url("https://sangtacviet.vip/truyen/a/1/2/3/")).name(), "sangtacviet");
    assert_eq!(reg.resolve(&url("https://sangtacviet.vip/truyen/a/1/2/")).name(), "generic");
    let mut only = Registry::new();
    only.register(Plugin::Generic(GenericPlugin::new()));
    assert_eq!(only.resolve(&url("https://sangtacviet.vip/truyen/a/1/2/3/")).name(), "generic");
}

#[test]
fn flash_fades_after_three_seconds() {
    let mut app = reading_app("https://example.com/book/ch7", "a", 0);
    assert_eq!(app.flash_text_after(0), None);
    app.bookmark_current();
    assert_eq!(app.flash_text_after(2999), Some("bookmarked as example.com/ch7"));
    assert_eq!(app.flash_text_after(3000), None);
}

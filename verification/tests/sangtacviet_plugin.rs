use twr::plugin::{ExtractError, RenderedPage, SitePlugin};
use twr::sangtacviet::{chapter_loaded, load_timed_out, SangtacvietPlugin};
use twr::weburl::WebUrl;

#[test]
fn parses_chapter_url() {
    let u = WebUrl::parse("https://sangtacviet.vip/truyen/yushubo/1/134050/42/").unwrap();
    let (host, book, chap) = SangtacvietPlugin::parse_chapter_url(&u).unwrap();
    assert_eq!(host, "yushubo");
    assert_eq!(book, 134050);
    assert_eq!(chap, 42);
}

#[test]
fn rejects_non_chapter_paths() {
    let u = WebUrl::parse("https://sangtacviet.vip/truyen/yushubo/1/134050/").unwrap();
    assert!(SangtacvietPlugin::parse_chapter_url(&u).is_none());
}

#[test]
fn rejects_chapter_paths_without_the_one_segment() {
    let plugin = SangtacvietPlugin::new(None);
    let u = WebUrl::parse("https://sangtacviet.vip/truyen/yushubo/2/134050/42/").unwrap();
    assert!(SangtacvietPlugin::parse_chapter_url(&u).is_none());
    assert!(!plugin.matches(&u));
    assert!(plugin.neighbor_url(&u, 1).is_none());
    let reg = twr::plugin::Registry::with_defaults(None);
    assert_eq!(reg.resolve(&u).name(), "generic");
}

#[test]
fn rejects_chapter_paths_with_extra_segments() {
    let plugin = SangtacvietPlugin::new(None);
    let u = WebUrl::parse("https://sangtacviet.vip/truyen/yushubo/1/134050/42/extra/").unwrap();
    assert!(SangtacvietPlugin::parse_chapter_url(&u).is_none());
    assert!(!plugin.matches(&u));
    let reg = twr::plugin::Registry::with_defaults(None);
    assert_eq!(reg.resolve(&u).name(), "generic");
    let q = WebUrl::parse("https://sangtacviet.vip/truyen/yushubo/1/134050/42/?x=1").unwrap();
    assert!(plugin.matches(&q));
}

#[test]
fn rejects_other_domains() {
    let u = WebUrl::parse("https://other.vip/truyen/yushubo/1/134050/1/").unwrap();
    assert!(SangtacvietPlugin::parse_chapter_url(&u).is_none());
}

#[test]
fn next_increments_chapter() {
    let plugin = SangtacvietPlugin::new(None);
    let src = WebUrl::parse("https://sangtacviet.vip/truyen/yushubo/1/134050/7/").unwrap();
    let n = plugin.neighbor_url(&src, 1).unwrap();
    assert_eq!(n.as_str(), "https://sangtacviet.vip/truyen/yushubo/1/134050/8/");
}

#[test]
fn prev_stops_at_chapter_1() {
    let plugin = SangtacvietPlugin::new(None);
    let src = WebUrl::parse("https://sangtacviet.vip/truyen/yushubo/1/134050/1/").unwrap();
    assert!(plugin.neighbor_url(&src, -1).is_none());
}

#[test]
fn prev_decrements_chapter_and_accepts_plus_sign() {
    let plugin = SangtacvietPlugin::new(None);
    let src = WebUrl::parse("https://sangtacviet.vip/truyen/qidian/1/+77/12").unwrap();
    assert!(plugin.matches(&src));
    let p = plugin.neighbor_url(&src, -1).unwrap();
    assert_eq!(p.as_str(), "https://sangtacviet.vip/truyen/qidian/1/77/11/");
}

#[test]
fn rejects_non_numeric_and_overflowing_ids() {
    let a = WebUrl::parse("https://sangtacviet.vip/truyen/h/1/abc/2/").unwrap();
    assert!(SangtacvietPlugin::parse_chapter_url(&a).is_none());
    let b = WebUrl::parse("https://sangtacviet.vip/truyen/h/1/18446744073709551616/2/").unwrap();
    assert!(SangtacvietPlugin::parse_chapter_url(&b).is_none());
    let c = WebUrl::parse("https://sangtacviet.vip/books/h/1/3/2/").unwrap();
    assert!(SangtacvietPlugin::parse_chapter_url(&c).is_none());
}

#[test]
fn next_and_prev_use_page_url_only() {
    let plugin = SangtacvietPlugin::new(Some("/usr/bin/chromium".to_string()));
    assert_eq!(plugin.name(), "sangtacviet");
    let page = RenderedPage {
        url: WebUrl::parse("https://sangtacviet.vip/truyen/dich/1/5/2/").unwrap(),
        html: String::new(),
    };
    assert_eq!(plugin.next(&page).unwrap().as_str(), "https://sangtacviet.vip/truyen/dich/1/5/3/");
    assert_eq!(plugin.prev(&page).unwrap().as_str(), "https://sangtacviet.vip/truyen/dich/1/5/1/");
}

fn chapter_page(body: &str) -> RenderedPage {
    RenderedPage {
        url: WebUrl::parse("https://sangtacviet.vip/truyen/dich/1/5/2/").unwrap(),
        html: format!(
            "<html><body><span id=\"bookchapnameholder\"> Chapter Two </span><span id=\"booknameholder\">_</span><div id=\"cld-5-2\">{body}</div></body></html>"
        ),
    }
}

#[test]
fn extract_reads_loaded_chapter() {
    let plugin = SangtacvietPlugin::new(None);
    let body = "word ".repeat(60);
    let art = plugin.extract(&chapter_page(&body)).unwrap();
    assert_eq!(art.title.as_deref(), Some("Chapter Two"));
    assert_eq!(art.byline, None);
    assert_eq!(art.body_text, body.trim());
}

#[test]
fn extract_refuses_placeholder_and_short_bodies() {
    let plugin = SangtacvietPlugin::new(None);
    let placeholder = format!("{} Nhấp vào để tải chương", "x".repeat(300));
    assert_eq!(plugin.extract(&chapter_page(&placeholder)).unwrap_err(), ExtractError::NotLoaded);
    assert_eq!(plugin.extract(&chapter_page("short")).unwrap_err(), ExtractError::NotLoaded);
    let page = RenderedPage {
        url: WebUrl::parse("https://sangtacviet.vip/truyen/dich/1/5/2/").unwrap(),
        html: "<p>nothing</p>".to_string(),
    };
    assert_eq!(plugin.extract(&page).unwrap_err(), ExtractError::ContainerNotFound);
}

#[test]
fn extract_counts_bytes_not_characters() {
    let plugin = SangtacvietPlugin::new(None);
    // 100 two-byte characters: 200 bytes, enough.
    let body = "é".repeat(100);
    assert!(plugin.extract(&chapter_page(&body)).is_ok());
    let shorter = "é".repeat(99);
    assert_eq!(plugin.extract(&chapter_page(&shorter)).unwrap_err(), ExtractError::NotLoaded);
}

#[test]
fn load_polling_decisions() {
    assert!(!load_timed_out(1000, 1000));
    assert!(load_timed_out(1001, 1000));
    assert!(!chapter_loaded(500));
    assert!(chapter_loaded(501));
}

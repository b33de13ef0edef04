use twr::state::{Bookmark, HistoryEntry, State};
use twr::weburl::WebUrl;

#[test]
fn record_and_lookup_same_url_returns_scroll() {
    let mut s = State::default();
    let u = WebUrl::parse("https://example.com/chapter/5").unwrap();
    s.record(&u, 42);
    assert_eq!(s.lookup(&u), Some(42));
}

#[test]
fn lookup_different_url_same_domain_returns_none() {
    let mut s = State::default();
    let u = WebUrl::parse("https://example.com/chapter/5").unwrap();
    s.record(&u, 42);
    let other = WebUrl::parse("https://example.com/chapter/6").unwrap();
    assert_eq!(s.lookup(&other), None);
}

#[test]
fn record_overwrites_same_domain() {
    let mut s = State::default();
    let a = WebUrl::parse("https://example.com/a").unwrap();
    let b = WebUrl::parse("https://example.com/b").unwrap();
    s.record(&a, 10);
    s.record(&b, 20);
    assert_eq!(s.history.len(), 1);
    assert_eq!(s.lookup(&b), Some(20));
}

#[test]
fn latest_picks_highest_saved_at() {
    let mut s = State::default();
    s.history.insert(
        "older.com".into(),
        HistoryEntry {
            url: "https://older.com/".into(),
            scroll: 0,
            saved_at: 100,
        },
    );
    s.history.insert(
        "newer.com".into(),
        HistoryEntry {
            url: "https://newer.com/".into(),
            scroll: 0,
            saved_at: 200,
        },
    );
    assert_eq!(s.latest().unwrap().url, "https://newer.com/");
}

fn to_table(s: &State) -> toml::Table {
    let mut history = toml::Table::new();
    for (domain, e) in s.history.pairs() {
        let mut t = toml::Table::new();
        t.insert("url".into(), toml::Value::String(e.url.clone()));
        t.insert("scroll".into(), toml::Value::Integer(e.scroll as i64));
        t.insert("saved_at".into(), toml::Value::Integer(e.saved_at as i64));
        history.insert(domain.clone(), toml::Value::Table(t));
    }
    let mut bookmarks = Vec::new();
    for b in &s.bookmarks {
        let mut t = toml::Table::new();
        t.insert("name".into(), toml::Value::String(b.name.clone()));
        t.insert("url".into(), toml::Value::String(b.url.clone()));
        t.insert("saved_at".into(), toml::Value::Integer(b.saved_at as i64));
        bookmarks.push(toml::Value::Table(t));
    }
    let mut root = toml::Table::new();
    root.insert("history".into(), toml::Value::Table(history));
    root.insert("bookmarks".into(), toml::Value::Array(bookmarks));
    root
}

fn from_table(root: &toml::Table) -> State {
    let mut s = State::default();
    if let Some(toml::Value::Table(h)) = root.get("history") {
        for (domain, v) in h {
            let t = v.as_table().unwrap();
            s.history.insert(
                domain.clone(),
                HistoryEntry {
                    url: t["url"].as_str().unwrap().to_string(),
                    scroll: t.get("scroll").and_then(|x| x.as_integer()).unwrap_or(0) as u16,
                    saved_at: t.get("saved_at").and_then(|x| x.as_integer()).unwrap_or(0) as u64,
                },
            );
        }
    }
    if let Some(toml::Value::Array(bs)) = root.get("bookmarks") {
        for v in bs {
            let t = v.as_table().unwrap();
            s.bookmarks.push(Bookmark {
                name: t["name"].as_str().unwrap().to_string(),
                url: t["url"].as_str().unwrap().to_string(),
                saved_at: t.get("saved_at").and_then(|x| x.as_integer()).unwrap_or(0) as u64,
            });
        }
    }
    s
}

#[test]
fn roundtrip_toml() {
    let mut s = State::default();
    let u = WebUrl::parse("https://example.com/chapter/5").unwrap();
    s.record(&u, 17);
    s.bookmarks.push(Bookmark {
        name: "test".into(),
        url: u.as_str().to_string(),
        saved_at: 123,
    });
    let body = toml::to_string_pretty(&to_table(&s)).unwrap();
    let back: State = from_table(&toml::from_str::<toml::Table>(&body).unwrap());
    assert_eq!(back.lookup(&u), Some(17));
    assert_eq!(back.bookmarks[0].name, "test");
}

#[test]
fn record_without_host_saves_nothing() {
    let mut s = State::default();
    let u = WebUrl::parse("data:text/plain,hello").unwrap();
    s.record_at(&u, 5, 1);
    assert_eq!(s.history.len(), 0);
    assert_eq!(s.lookup(&u), None);
}

#[test]
fn record_at_stamps_entry_and_keeps_other_domains() {
    let mut s = State::default();
    let a = WebUrl::parse("https://a.example/1").unwrap();
    let b = WebUrl::parse("https://b.example/2").unwrap();
    s.record_at(&a, 3, 1000);
    s.record_at(&b, 4, 2000);
    assert_eq!(s.history.len(), 2);
    assert_eq!(s.lookup(&a), Some(3));
    assert_eq!(s.history.get("a.example").unwrap().saved_at, 1000);
    let latest = s.latest().unwrap();
    assert_eq!(latest.url, "https://b.example/2");
    assert_eq!(latest.scroll, 4);
}

#[test]
fn history_insert_returns_replaced_entry() {
    let mut s = State::default();
    let first = s.history.insert("d".into(), HistoryEntry { url: "u1".into(), scroll: 1, saved_at: 1 });
    assert!(first.is_none());
    let second = s.history.insert("d".into(), HistoryEntry { url: "u2".into(), scroll: 2, saved_at: 2 });
    assert_eq!(second.unwrap().url, "u1");
    assert_eq!(s.history.len(), 1);
    assert_eq!(s.history.get("d").unwrap().url, "u2");
    assert!(s.history.get("e").is_none());
}

#[test]
fn latest_of_empty_history_is_none() {
    let s = State::default();
    assert!(s.latest().is_none());
}

#[test]
fn bookmarks_are_replaced_by_name_and_found_first_by_name() {
    let mut s = State::default();
    s.set_bookmark("a".into(), "https://x/1".into(), 1);
    s.set_bookmark("b".into(), "https://x/2".into(), 2);
    s.set_bookmark("a".into(), "https://x/3".into(), 3);
    assert_eq!(s.bookmarks.len(), 2);
    assert_eq!(s.bookmarks[0].name, "b");
    assert_eq!(s.bookmarks[1].url, "https://x/3");
    assert_eq!(s.find_bookmark("a").unwrap().url, "https://x/3");
    assert!(s.find_bookmark("c").is_none());
    s.bookmarks.push(Bookmark { name: "b".into(), url: "dup".into(), saved_at: 9 });
    assert_eq!(s.find_bookmark("b").unwrap().url, "https://x/2");
}

#[test]
fn now_unix_reads_the_clock() {
    assert!(twr::state::now_unix() > 1_600_000_000);
}

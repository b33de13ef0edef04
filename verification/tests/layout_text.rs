use twr::layout::{
    body_lines, normalize_whitespace, now_hms, pseudo_path, sanitize, scaled_wrap_width, spinner_frame,
    split_paragraphs, truncate, MIN_WRAP_WIDTH,
};
use twr::weburl::WebUrl;

#[test]
fn wrap_width_scales_with_font_step_and_has_a_floor() {
    assert_eq!(scaled_wrap_width(100, 0), 100);
    assert_eq!(scaled_wrap_width(100, -3), 145);
    assert_eq!(scaled_wrap_width(100, -9), 145);
    assert_eq!(scaled_wrap_width(100, 2), 78);
    assert_eq!(scaled_wrap_width(100, 7), 70);
    assert_eq!(scaled_wrap_width(20, 3), MIN_WRAP_WIDTH);
}

#[test]
fn normalize_breaks_after_closing_quotes() {
    let n = normalize_whitespace("a\r\nb.\"c”d");
    assert_eq!(n, "a\nb.\"\n\nc”\n\nd");
    let m = normalize_whitespace("x.”y");
    assert_eq!(m, "x.”\n\n\n\ny");
}

#[test]
fn paragraphs_skip_blank_pieces() {
    let cs: Vec<char> = "one\n\n  \n\ntwo\n\n".chars().collect();
    let ps: Vec<String> = split_paragraphs(&cs).into_iter().map(|p| p.into_iter().collect()).collect();
    assert_eq!(ps, vec!["one".to_string(), "two".to_string()]);
}

#[test]
fn body_lines_wrap_indent_and_separate_paragraphs() {
    let lines = body_lines("alpha beta\n\ngamma", 80, 0);
    assert_eq!(lines, vec!["  alpha beta".to_string(), "".to_string(), "  gamma".to_string()]);
    let narrow = body_lines("aaaa bbbb cccc dddd eeee ffff", 10, 0);
    assert_eq!(narrow, vec!["  aaaa bbbb cccc dddd".to_string(), "  eeee ffff".to_string()]);
}

#[test]
fn empty_body_shows_placeholder() {
    assert_eq!(body_lines("  \n\n ", 80, 0), vec!["  (empty chapter)".to_string()]);
}

#[test]
fn sanitize_and_truncate() {
    assert_eq!(sanitize("a-b_c.d/é"), "a-b_c_d__");
    assert_eq!(truncate("hello", 5), "hello");
    assert_eq!(truncate("hello!", 5), "hell…");
    assert_eq!(truncate("", 0), "");
}

#[test]
fn pseudo_paths() {
    let stv = WebUrl::parse("https://sangtacviet.vip/truyen/yushubo/1/134050/42/").unwrap();
    assert_eq!(pseudo_path(&stv), "src/chapter_42.rs");
    let other = WebUrl::parse("https://example.com/posts/my-post.html").unwrap();
    assert_eq!(pseudo_path(&other), "src/my-post_html.rs");
    let root = WebUrl::parse("https://example.com/").unwrap();
    assert_eq!(pseudo_path(&root), "src/index.rs");
}

#[test]
fn spinner_and_clock() {
    assert_eq!(spinner_frame(0), "⠋");
    assert_eq!(spinner_frame(13), "⠸");
    let t = now_hms();
    assert_eq!(t.len(), 8);
    assert_eq!(&t[2..3], ":");
}

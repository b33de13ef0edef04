use twr::text::{
    chars_of, contains, count_lines, format_clock, parse_u64, replace, string_of, trim,
    utf8_len_below,
};

fn cs(s: &str) -> Vec<char> {
    s.chars().collect()
}

#[test]
fn replace_scans_left_to_right_without_overlap() {
    let r = replace(&cs("aaa"), &cs("aa"), &cs("b"));
    assert_eq!(r.iter().collect::<String>(), "ba");
    let r = replace(&cs("x.\"y"), &cs(".\""), &cs(".\"\n\n"));
    assert_eq!(r.iter().collect::<String>(), "x.\"\n\ny");
    assert_eq!(replace(&cs(""), &cs("a"), &cs("b")), Vec::<char>::new());
}

#[test]
fn contains_finds_substrings() {
    assert!(contains(&cs("chương sau »"), &cs("sau")));
    assert!(!contains(&cs("home"), &cs("next")));
    assert!(contains(&cs("anything"), &cs("")));
    assert!(!contains(&cs("ab"), &cs("abc")));
}

#[test]
fn count_lines_matches_std_lines() {
    for s in ["", "a", "a\n", "a\nb", "a\n\nb\n", "\n", "x\r\ny"] {
        assert_eq!(count_lines(&cs(s)), s.lines().count(), "{s:?}");
    }
}

#[test]
fn parse_u64_matches_std() {
    for s in ["0", "42", "+7", "", "+", "-1", "12a", "18446744073709551615", "18446744073709551616", "007"] {
        assert_eq!(parse_u64(&cs(s)), s.parse::<u64>().ok(), "{s:?}");
    }
}

#[test]
fn trim_matches_std() {
    for s in ["  a b  ", "\u{3000}x\u{a0}", "", "   ", "\tq\n"] {
        assert_eq!(trim(&cs(s)).iter().collect::<String>(), s.trim(), "{s:?}");
    }
}

#[test]
fn conversions_and_clock() {
    assert_eq!(string_of(&chars_of("đọc")), "đọc");
    assert_eq!(format_clock(3661), "01:01:01");
}

#[test]
fn utf8_size_is_counted_in_bytes() {
    assert!(utf8_len_below(&cs("abc"), 4));
    assert!(!utf8_len_below(&cs("abcd"), 4));
    assert!(!utf8_len_below(&cs("é€"), 5));
    assert!(utf8_len_below(&cs("é€"), 6));
    assert!(!utf8_len_below(&cs(""), 0));
}

use slumber::text::{
    find_text, nat_string, parse_i32, parse_u32, path_join, split_once, text_before, text_lines,
    trim_str,
};

#[test]
fn trims_unicode_white_space() {
    assert_eq!(trim_str("  a b \t\n"), "a b");
    assert_eq!(trim_str("\u{3000}x\u{85}"), "x");
    assert_eq!(trim_str(" \r\n "), "");
    assert_eq!(trim_str("x"), "x");
}

#[test]
fn parses_integers_like_std() {
    for text in ["0", "42", "+7", "-7", "2147483647", "-2147483648", "2147483648", "", "-", "+", "1a", " 1", "007", "99999999999999999999"] {
        assert_eq!(parse_i32(text), text.parse::<i32>().ok(), "{text:?}");
        assert_eq!(parse_u32(text), text.parse::<u32>().ok(), "{text:?}");
    }
    assert_eq!(parse_u32("4294967295"), Some(u32::MAX));
    assert_eq!(parse_u32("4294967296"), None);
    assert_eq!(parse_u32("-0"), None);
}

#[test]
fn numerals_match_display() {
    for n in [0u64, 9, 10, 1234567890, u64::MAX] {
        assert_eq!(nat_string(n), n.to_string());
    }
}

#[test]
fn joins_paths_like_std() {
    assert_eq!(path_join("/a", "b"), "/a/b");
    assert_eq!(path_join("/a/", "b"), "/a/b");
    assert_eq!(path_join("/a", "/b"), "/b");
    assert_eq!(path_join("", "b"), "b");
    assert_eq!(path_join("a", ""), "a/");
}

#[test]
fn splits_lines_like_std() {
    for text in ["", "a", "a\n", "a\nb", "a\r\nb\r\n", "\n", "\n\n", "x\r", "a\n\r\n"] {
        let expected: Vec<String> = text.lines().map(str::to_owned).collect();
        assert_eq!(text_lines(text), expected, "{text:?}");
    }
}

#[test]
fn splits_at_first_character() {
    assert_eq!(split_once("a=b=c", '='), Some(("a".to_owned(), "b=c".to_owned())));
    assert_eq!(split_once("abc", '='), None);
    assert_eq!(text_before("a # b # c", '#'), "a ");
    assert_eq!(text_before("abc", '#'), "abc");
}

#[test]
fn finds_first_occurrence() {
    let hay: Vec<char> = "abcabc".chars().collect();
    let needle: Vec<char> = "ca".chars().collect();
    assert_eq!(find_text(&hay, &needle), Some(2));
    let missing: Vec<char> = "cb".chars().collect();
    assert_eq!(find_text(&hay, &missing), None);
    assert_eq!(find_text(&hay, &[]), Some(0));
}

use monitor_hub::text::{
    chars_of, has, is_all_digits, is_alphanumeric, is_control, is_digit, is_whitespace, part,
    position, replace, same, split_lines, string_of, trim,
};

#[test]
fn characters_are_classified_as_by_the_standard_library() {
    for code in 0..=0x10ffffu32 {
        if let Some(c) = char::from_u32(code) {
            assert_eq!(is_digit(c), c.is_ascii_digit(), "{code:x}");
            assert_eq!(is_alphanumeric(c), c.is_ascii_alphanumeric(), "{code:x}");
            assert_eq!(is_control(c), c.is_control(), "{code:x}");
            assert_eq!(is_whitespace(c), c.is_whitespace(), "{code:x}");
        }
    }
}

#[test]
fn strings_and_characters_go_back_and_forth() {
    for s in ["", "abc", "未知 · é"] {
        assert_eq!(chars_of(s), s.chars().collect::<Vec<char>>());
        assert_eq!(string_of(&chars_of(s)), s);
    }
}

#[test]
fn strings_are_compared_by_what_they_hold() {
    assert!(same("", ""));
    assert!(same("on", "on"));
    assert!(!same("on", "On"));
    assert!(!same("on", "one"));
    assert!(same("é", "\u{e9}"));
    assert!(!same("é", "e"));
}

#[test]
fn a_pattern_is_found_anywhere() {
    let s = chars_of("Mozilla/5.0 Chrome/120");
    assert!(has(&s, "Mozilla"));
    assert!(has(&s, "Chrome/"));
    assert!(has(&s, "120"));
    assert!(has(&s, ""));
    assert!(!has(&s, "chrome"));
    assert!(!has(&chars_of("ab"), "abc"));
    assert!(has(&chars_of("aab"), "ab"));
}

#[test]
fn replacing_agrees_with_the_standard_library() {
    for (s, from, to) in [
        ("a<br/>b<br/>", "<br/>", "\n"),
        ("aaa", "aa", "b"),
        ("abab", "ab", ""),
        ("xyz", "q", "r"),
        ("<<b>b>", "<b>", ""),
        ("", "a", "b"),
    ] {
        assert_eq!(replace(s, from, to), s.replace(from, to));
    }
    assert_eq!(replace("ab", "", "x"), "ab");
}

#[test]
fn white_space_is_trimmed_at_both_ends() {
    for s in ["", "  ", " a b ", "\t\u{3000}x\r\n", "x", "\u{200b}x"] {
        assert_eq!(string_of(&trim(&chars_of(s))), s.trim());
    }
}

#[test]
fn a_part_and_a_position_are_found() {
    let s = chars_of("name: value: more");
    assert_eq!(position(&s, ':'), Some(4));
    assert_eq!(position(&s, '!'), None);
    assert_eq!(string_of(&part(&s, 0, 4)), "name");
    assert_eq!(string_of(&part(&s, 4, 4)), "");
}

#[test]
fn a_run_of_digits_has_at_least_one() {
    assert!(is_all_digits(&chars_of("0")));
    assert!(is_all_digits(&chars_of("0123456789")));
    assert!(!is_all_digits(&chars_of("")));
    assert!(!is_all_digits(&chars_of("12a")));
    assert!(!is_all_digits(&chars_of("-1")));
}

#[test]
fn lines_stand_between_line_feeds() {
    let lines = |s: &str| -> Vec<String> {
        split_lines(&chars_of(s)).iter().map(|l| string_of(l)).collect()
    };
    assert_eq!(lines(""), vec![""]);
    assert_eq!(lines("a"), vec!["a"]);
    assert_eq!(lines("a\nb"), vec!["a", "b"]);
    assert_eq!(lines("a\n\nb\n"), vec!["a", "", "b", ""]);
}

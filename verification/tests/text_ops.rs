use whoamifuck::text::{
    chars_of, decimal_string, is_listed, is_whitespace, join_path, join_strings, lines_of,
    pad_right_str, repeat_char, same_text, str_contains, str_starts_with, string_of, trim,
    trim_end_matches, words_of,
};

fn strings(items: &[&str]) -> Vec<String> {
    items.iter().map(|s| s.to_string()).collect()
}

#[test]
fn lines_follow_str_lines() {
    for text in ["", "a", "a\n", "a\nb", "a\r\nb\r\n", "\n\n", "x\r", "a\r\r\n", "é\nü\r\n\n"] {
        let expected: Vec<String> = text.lines().map(|l| l.to_string()).collect();
        assert_eq!(lines_of(text), expected, "text {:?}", text);
    }
}

#[test]
fn lines_drop_terminators() {
    assert_eq!(lines_of("a\nb\r\n\nc\r"), strings(&["a", "b", "", "c\r"]));
    assert!(lines_of("").is_empty());
    assert_eq!(lines_of("x\n"), strings(&["x"]));
}

#[test]
fn words_follow_split_whitespace() {
    for text in ["", "   ", "a", " a  b\tc\n", "requirepass\u{a0}secret", "x\u{3000}y\u{2028}z "] {
        let expected: Vec<String> = text.split_whitespace().map(|l| l.to_string()).collect();
        assert_eq!(words_of(text), expected, "text {:?}", text);
    }
}

#[test]
fn whitespace_matches_char_is_whitespace() {
    for c in ['\t', '\n', '\u{b}', '\u{c}', '\r', ' ', '\u{85}', '\u{a0}', '\u{1680}', '\u{2000}',
        '\u{200a}', '\u{200b}', '\u{2028}', '\u{2029}', '\u{202f}', '\u{205f}', '\u{3000}', 'a',
        '\u{feff}', '\u{180e}']
    {
        assert_eq!(is_whitespace(c), c.is_whitespace(), "char {:?}", c);
    }
}

#[test]
fn containment_and_prefixes() {
    assert!(str_contains("GET /?id=1 union select", "union"));
    assert!(!str_contains("abc", "abd"));
    assert!(str_contains("abc", ""));
    assert!(!str_contains("", "a"));
    assert!(str_contains("aab", "ab"));
    assert!(str_starts_with("requirepass x", "requirepass"));
    assert!(!str_starts_with("# requirepass", "requirepass"));
    assert!(!str_starts_with("req", "requirepass"));
}

#[test]
fn trailing_suffixes_are_all_removed() {
    assert_eq!(trim_end_matches("nginx.service", ".service"), "nginx");
    assert_eq!(trim_end_matches("odd.service.service", ".service"), "odd");
    assert_eq!(trim_end_matches("plain", ".service"), "plain");
    assert_eq!(trim_end_matches("abc", ""), "abc");
    assert_eq!(trim_end_matches(".service", ".service"), "");
}

#[test]
fn joining_and_padding() {
    assert_eq!(join_strings(&strings(&["a", "b", "c"]), ", "), "a, b, c");
    assert_eq!(join_strings(&strings(&["solo"]), ", "), "solo");
    assert_eq!(join_strings(&Vec::new(), ", "), "");
    assert_eq!(pad_right_str("ab", 5), "ab   ");
    assert_eq!(pad_right_str("abcdef", 3), "abcdef");
    assert_eq!(pad_right_str("代码", 4), format!("{:<4}", "代码"));
    assert_eq!(repeat_char('=', 3), "===");
    assert_eq!(repeat_char('=', 0), "");
}

#[test]
fn decimal_notation() {
    assert_eq!(decimal_string(0), "0");
    assert_eq!(decimal_string(7), "7");
    assert_eq!(decimal_string(10), "10");
    assert_eq!(decimal_string(1234567890), "1234567890");
    assert_eq!(decimal_string(u64::MAX), u64::MAX.to_string());
}

#[test]
fn paths_join_like_pathbuf() {
    assert_eq!(join_path("/home/u", ".ssh/authorized_keys"), "/home/u/.ssh/authorized_keys");
    assert_eq!(join_path("/root/", ".ssh/authorized_keys"), "/root/.ssh/authorized_keys");
    assert_eq!(join_path("", "x"), "x");
    assert_eq!(join_path("/a", "/b"), "/b");
    for (base, name) in [("/home/u", "x"), ("rel", "y/z"), ("/", "etc")] {
        let expected = std::path::PathBuf::from(base).join(name);
        assert_eq!(join_path(base, name), expected.to_str().unwrap());
    }
}

#[test]
fn trimming_and_helpers() {
    assert_eq!(trim("  hi there \n"), "hi there");
    assert_eq!(trim(" \t "), "");
    assert_eq!(trim("x"), "x");
    assert_eq!(chars_of("añb"), vec!['a', 'ñ', 'b']);
    assert_eq!(string_of(&['a', 'b', 'c'], 1, 3), "bc");
    assert!(same_text("x", "x"));
    assert!(!same_text("x", "y"));
    assert!(is_listed(&strings(&["a", "b"]), "b"));
    assert!(!is_listed(&strings(&["a", "b"]), "c"));
}

#[test]
fn terminated_lines_read_back() {
    let passwords = strings(&["hunter2", "p@ssw0rd", "x"]);
    let mut file = String::new();
    for p in &passwords {
        file.push_str(p);
        file.push('\n');
    }
    assert_eq!(lines_of(&file), passwords);
}

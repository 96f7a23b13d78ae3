use confluence_updater::text::{
    bracketed, chars_of, find_char, has_prefix, is_whitespace, joined, parse_u64_chars, str_eq,
    string_of, trim_end_index, trim_start_index,
    trimmed_end,
};

#[test]
fn chars_of_lists_every_character() {
    assert_eq!(chars_of("héllo"), vec!['h', 'é', 'l', 'l', 'o']);
    assert!(chars_of("").is_empty());
}

#[test]
fn str_eq_compares_contents() {
    assert!(str_eq("abc", "abc"));
    assert!(str_eq("", ""));
    assert!(!str_eq("abc", "abd"));
    assert!(!str_eq("abc", "ab"));
}

#[test]
fn has_prefix_agrees_with_std() {
    for (text, prefix) in [("https://x", "https://"), ("http://x", "https://"), ("", "a"), ("a", "")] {
        assert_eq!(has_prefix(&chars_of(text), prefix), text.starts_with(prefix));
    }
}

#[test]
fn is_whitespace_agrees_with_std_on_every_character() {
    for code in 0u32..=0x10FFFF {
        if let Some(c) = char::from_u32(code) {
            assert_eq!(is_whitespace(c), c.is_whitespace(), "U+{code:04X}");
        }
    }
}

#[test]
fn trimming_agrees_with_std() {
    for s in ["", "a", " a ", "a \n\t", "\u{3000}x\u{2003}\u{85}", "  ", "x\u{200b}", "\n a b \r\n"] {
        assert_eq!(trimmed_end(s), s.trim_end());
        let chars = chars_of(s);
        let start = trim_start_index(&chars, 0, chars.len());
        let end = trim_end_index(&chars, start, chars.len());
        assert_eq!(string_of(&chars, start, end), s.trim());
    }
}

#[test]
fn string_of_cuts_a_range() {
    let chars = chars_of("hello");
    assert_eq!(string_of(&chars, 1, 4), "ell");
    assert_eq!(string_of(&chars, 2, 2), "");
}

#[test]
fn parse_u64_chars_agrees_with_std() {
    for s in [
        "0", "42", "+42", "007", "", "+", "-1", "4 2", "12a", "18446744073709551615",
        "18446744073709551616", "99999999999999999999999", "++1", "٣", "1_000",
    ] {
        let chars = chars_of(s);
        assert_eq!(parse_u64_chars(&chars, 0, chars.len()), s.parse::<u64>().ok(), "{s:?}");
    }
    let chars = chars_of("ab123cd");
    assert_eq!(parse_u64_chars(&chars, 2, 5), Some(123));
}

#[test]
fn find_char_gives_the_first_place() {
    assert_eq!(find_char(&chars_of("a@b@c"), '@'), Some(1));
    assert_eq!(find_char(&chars_of("abc"), '@'), None);
    assert_eq!(find_char(&chars_of("@"), '@'), Some(0));
}

#[test]
fn joined_and_bracketed_concatenate() {
    assert_eq!(joined("a", "b"), "ab");
    assert_eq!(bracketed("[", "x", "]"), "[x]");
}

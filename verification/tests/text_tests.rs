use menma::text::{chars_of, contains, contains_chars, is_white_space_char, matches_at,
    remove_white_space, replace_char, same_chars, split, string_of};

fn chars(s: &str) -> Vec<char> {
    s.chars().collect()
}

fn pieces(s: &str, sep: char) -> Vec<String> {
    split(&chars(s), sep).iter().map(|p| p.iter().collect()).collect()
}

#[test]
fn characters_round_trip() {
    for s in ["", "abc", "日本語 と ascii", "a\u{10ffff}b"] {
        assert_eq!(chars_of(s), chars(s));
        assert_eq!(string_of(&chars(s)), s);
    }
}

#[test]
fn contains_agrees_with_std() {
    let hays = ["", "a", "abc", "aaa", "abcabc", "日本語", "ab ab", "mississippi"];
    let needles = ["", "a", "b", "c", "ab", "bc", "abc", "abcd", "aa", "aaaa", "本", "本語", "語本", "ssi", "ssip", "ppi", "pi "];
    for hay in hays {
        for needle in needles {
            assert_eq!(contains(hay, needle), hay.contains(needle), "{:?} in {:?}", needle, hay);
            assert_eq!(contains_chars(&chars(hay), &chars(needle)), hay.contains(needle));
        }
    }
}

#[test]
fn match_at_a_position() {
    let hay = chars("abcabc");
    assert!(matches_at(&hay, &chars("abc"), 0));
    assert!(!matches_at(&hay, &chars("abc"), 1));
    assert!(matches_at(&hay, &chars("abc"), 3));
    assert!(matches_at(&hay, &chars(""), 6));
    assert!(matches_at(&hay, &chars("c"), 5));
}

#[test]
fn same_characters() {
    assert!(same_chars(&chars(""), &chars("")));
    assert!(same_chars(&chars("md"), &chars("md")));
    assert!(!same_chars(&chars("md"), &chars("mD")));
    assert!(!same_chars(&chars("md"), &chars("m")));
    assert!(!same_chars(&chars(""), &chars("m")));
}

#[test]
fn white_space_is_what_unicode_says() {
    for code in 0..=0x10ffffu32 {
        if let Some(c) = char::from_u32(code) {
            assert_eq!(is_white_space_char(c), c.is_whitespace(), "U+{:04X}", code);
        }
    }
}

#[test]
fn white_space_by_example() {
    for c in [' ', '\t', '\n', '\r', '\u{b}', '\u{c}', '\u{85}', '\u{a0}', '\u{1680}', '\u{2000}',
        '\u{200a}', '\u{2028}', '\u{2029}', '\u{202f}', '\u{205f}', '\u{3000}'] {
        assert!(is_white_space_char(c), "{:?}", c);
    }
    for c in ['a', '#', ':', '\u{8}', '\u{e}', '\u{1f}', '\u{200b}', '\u{180e}', '\u{2060}', '\u{feff}', '日'] {
        assert!(!is_white_space_char(c), "{:?}", c);
    }
}

#[test]
fn white_space_is_taken_out() {
    assert_eq!(remove_white_space(&chars(" a b  c ")), chars("abc"));
    assert_eq!(remove_white_space(&chars(" \t\r\n\u{3000}")), chars(""));
    assert_eq!(remove_white_space(&chars("")), chars(""));
    assert_eq!(remove_white_space(&chars("abc")), chars("abc"));
    assert_eq!(remove_white_space(&chars("a\tb\u{a0}c\u{200b}d")), chars("abc\u{200b}d"));
}

#[test]
fn character_is_replaced() {
    assert_eq!(replace_char("a/b/c", '/', '\\'), "a\\b\\c");
    assert_eq!(replace_char("a\\b", '\\', '/'), "a/b");
    assert_eq!(replace_char("", 'a', 'b'), "");
    assert_eq!(replace_char("aaa", 'a', 'a'), "aaa");
    assert_eq!(replace_char("日本", '本', '日'), "日日");
}

#[test]
fn split_agrees_with_std() {
    for s in ["", "a", "#", "##", "a#b", "#a", "a#", "a##b", "tags:#x#y", "no separator"] {
        let expected: Vec<String> = s.split('#').map(|p| p.to_string()).collect();
        assert_eq!(pieces(s, '#'), expected, "{:?}", s);
    }
}

#[test]
fn split_by_example() {
    assert_eq!(pieces("a#b", '#'), vec!["a", "b"]);
    assert_eq!(pieces("", '#'), vec![""]);
    assert_eq!(pieces("#", '#'), vec!["", ""]);
}

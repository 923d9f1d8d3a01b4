use optifine_scraper::text::{
    char_is_whitespace, chars_of, contains, split_after_whitespace, starts_with, trim,
};

#[test]
fn whitespace_is_the_unicode_property() {
    let mut code: u32 = 0;
    while code <= 0x10FFFF {
        if let Some(c) = char::from_u32(code) {
            assert_eq!(char_is_whitespace(c), c.is_whitespace(), "U+{:04X}", code);
        }
        code += 1;
    }
}

#[test]
fn chars_of_gives_the_characters_in_order() {
    assert_eq!(chars_of(""), Vec::<char>::new());
    assert_eq!(chars_of("a\u{e9}\u{4e2d}\u{1f600}z"), vec!['a', '\u{e9}', '\u{4e2d}', '\u{1f600}', 'z']);
}

#[test]
fn contains_finds_parts_anywhere() {
    assert!(contains("http://host/f=OptiFine_1.16.5_HD.jar", "1.16.5"));
    assert!(contains("1.16.5", "1.16.5"));
    assert!(contains("1.16.5", "1.1"));
    assert!(contains("abc", "c"));
    assert!(contains("abc", "a"));
    assert!(contains("abc", ""));
    assert!(contains("", ""));
    assert!(!contains("", "a"));
    assert!(!contains("1.17", "1.16.5"));
    assert!(!contains("1.1", "1.16.5"));
    assert!(!contains("abcabd", "abda"));
    assert!(contains("aaab", "aab"));
    assert!(contains("gr\u{fc}\u{df}e", "\u{fc}\u{df}"));
}

#[test]
fn contains_agrees_with_std_on_samples() {
    let words = ["", "a", "ab", "ba", "aba", "1.1", "1.16.5", "f=1.16.5_x", "\u{e9}a", "a\u{e9}"];
    for hay in words {
        for needle in words {
            assert_eq!(contains(hay, needle), hay.contains(needle), "{:?} in {:?}", needle, hay);
            assert_eq!(
                starts_with(hay, needle),
                hay.starts_with(needle),
                "{:?} before {:?}",
                needle,
                hay
            );
        }
    }
}

#[test]
fn starts_with_compares_the_beginning() {
    assert!(starts_with("https://optifine.net/downloadx?f=a", "https://optifine.net"));
    assert!(starts_with("https://optifine.net", "https://optifine.net"));
    assert!(starts_with("abc", ""));
    assert!(!starts_with("http://optifine.net/x", "https://optifine.net"));
    assert!(!starts_with("https://optifine.ne", "https://optifine.net"));
    assert!(!starts_with("xhttps://optifine.net", "https://optifine.net"));
}

#[test]
fn split_after_whitespace_takes_the_rest() {
    assert_eq!(split_after_whitespace("Version 1.16.5"), Some("1.16.5".to_string()));
    assert_eq!(split_after_whitespace("a b c"), Some("b c".to_string()));
    assert_eq!(split_after_whitespace("ab "), Some(String::new()));
    assert_eq!(split_after_whitespace("\u{e9}t\u{e9}\u{3000}1.2"), Some("1.2".to_string()));
    assert_eq!(split_after_whitespace("ab"), None);
    assert_eq!(split_after_whitespace(""), None);
}

#[test]
fn trim_agrees_with_std_on_samples() {
    let samples = [
        "",
        " ",
        "\t\n ",
        "1.16.5",
        " 1.16.5",
        "1.16.5\n",
        "  1.16.5 \r\n",
        " a b ",
        "\u{a0}x\u{2003}",
        "\u{e9} \u{e9}",
    ];
    for s in samples {
        assert_eq!(trim(s), s.trim(), "{:?}", s);
    }
}

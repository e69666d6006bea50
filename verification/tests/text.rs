use recent_posts::text::{contains, has_prefix, push_decimal};

#[test]
fn text_contains_what_is_part_of_it() {
    assert!(contains("<a>3 hours ago</a>", " hours ago</a>"));
    assert!(contains("abc", "abc"));
    assert!(contains("abc", "c"));
    assert!(contains("abc", ""));
    assert!(contains("", ""));
    assert!(!contains("abc", "abcd"));
    assert!(!contains("abc", "ca"));
    assert!(!contains("", "a"));
}

#[test]
fn text_search_agrees_with_the_standard_search() {
    let texts = [
        "",
        "a",
        "aab",
        "banana",
        ">1 day ago</a>",
        "na\u{ef}ve caf\u{e9}",
        "\u{65e5}\u{672c}\u{8a9e} 2 days ago",
        "\u{1f600}\u{1f601}x\u{1f600}",
        "\u{e9}\u{e8}\u{e9}",
    ];
    let patterns = [
        "",
        "a",
        "ab",
        "ana",
        "day",
        "\u{e9}",
        "\u{e8}\u{e9}",
        "\u{e8}\u{e8}",
        "\u{672c}",
        "\u{1f601}x",
        "x\u{1f601}",
        "\u{a9}",
        "\u{129}",
    ];
    for text in texts {
        for pattern in patterns {
            assert_eq!(contains(text, pattern), text.contains(pattern), "{:?} in {:?}", pattern, text);
            assert_eq!(
                has_prefix(text, pattern),
                text.starts_with(pattern),
                "{:?} before {:?}",
                pattern,
                text
            );
        }
    }
}

#[test]
fn a_pattern_never_matches_inside_a_character() {
    // U+00E9 is C3 A9 in UTF-8, U+00A9 is C2 A9, U+0129 is C4 A9: they share
    // their last byte without sharing a character.
    assert!(!contains("\u{e9}", "\u{a9}"));
    assert!(!contains("\u{e9}", "\u{129}"));
    assert!(contains("\u{e9}\u{a9}", "\u{a9}"));
}

#[test]
fn text_has_prefix_looks_at_the_beginning_only() {
    assert!(has_prefix("https://www.reddit.com/r/rust/new/", "https://www.reddit.com/"));
    assert!(!has_prefix(" https://www.reddit.com/r/rust/new/", "https://www.reddit.com/"));
    assert!(!has_prefix("https://www.reddit.co", "https://www.reddit.com/"));
    assert!(has_prefix("abc", ""));
    assert!(has_prefix("abc", "abc"));
    assert!(has_prefix("\u{e9}t\u{e9}", "\u{e9}t"));
    assert!(!has_prefix("\u{e9}t\u{e9}", "t"));
}

#[test]
fn push_decimal_renders_without_leading_zeros() {
    let cases: [(u32, &str); 9] = [
        (0, "0"),
        (1, "1"),
        (9, "9"),
        (10, "10"),
        (25, "25"),
        (100, "100"),
        (1009, "1009"),
        (65535, "65535"),
        (u32::MAX, "4294967295"),
    ];
    for (number, expected) in cases {
        let mut out = String::new();
        push_decimal(&mut out, number);
        assert_eq!(out, expected);
    }
}

#[test]
fn push_decimal_agrees_with_the_standard_rendering() {
    let mut number: u32 = 0;
    while number < 3000 {
        let mut out = String::new();
        push_decimal(&mut out, number);
        assert_eq!(out, format!("{}", number));
        number += 7;
    }
}

#[test]
fn push_decimal_appends_to_what_is_there() {
    let mut out = String::from(">");
    push_decimal(&mut out, 42);
    assert_eq!(out, ">42");
    push_decimal(&mut out, 0);
    assert_eq!(out, ">420");
}

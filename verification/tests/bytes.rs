use recent_posts::bytes::{contains, has_prefix, matches_at};

#[test]
fn contains_finds_a_pattern_anywhere() {
    assert!(contains(b"abcdef", b"abc"));
    assert!(contains(b"abcdef", b"cde"));
    assert!(contains(b"abcdef", b"def"));
    assert!(contains(b"abcdef", b"abcdef"));
    assert!(contains(b"abcdef", b"f"));
}

#[test]
fn contains_rejects_what_is_not_there() {
    assert!(!contains(b"abcdef", b"abd"));
    assert!(!contains(b"abcdef", b"fe"));
    assert!(!contains(b"abcdef", b"abcdefg"));
    assert!(!contains(b"", b"a"));
    assert!(!contains(b"aaab", b"aaaa"));
}

#[test]
fn contains_takes_the_empty_pattern_for_present() {
    assert!(contains(b"abc", b""));
    assert!(contains(b"", b""));
}

#[test]
fn contains_handles_repeated_prefixes() {
    assert!(contains(b"aaaaab", b"aaab"));
    assert!(contains(b"abababac", b"ababac"));
    assert!(!contains(b"abababab", b"ababac"));
}

#[test]
fn contains_agrees_with_the_standard_search() {
    let texts = ["", "a", "ab", "aab", "abab", "banana", "1 day ago", ">1 day ago</a>"];
    let patterns = ["", "a", "b", "ab", "ba", "nan", "ana", "day", "</a>", "ago<"];
    for text in texts {
        for pattern in patterns {
            assert_eq!(
                contains(text.as_bytes(), pattern.as_bytes()),
                text.contains(pattern),
                "{:?} in {:?}",
                pattern,
                text
            );
        }
    }
}

#[test]
fn contains_works_on_text_beyond_ascii() {
    let text = "gr\u{fc}\u{df}e \u{2014} 3 hours ago</a>";
    assert!(contains(text.as_bytes(), " hours ago</a>".as_bytes()));
    assert!(contains(text.as_bytes(), "\u{fc}\u{df}".as_bytes()));
    assert!(!contains(text.as_bytes(), "\u{e4}".as_bytes()));
}

#[test]
fn matches_at_tests_one_offset() {
    assert!(matches_at(b"abcabc", b"abc", 0));
    assert!(matches_at(b"abcabc", b"abc", 3));
    assert!(!matches_at(b"abcabc", b"abc", 1));
    assert!(!matches_at(b"abcabc", b"abc", 4));
    assert!(!matches_at(b"abcabc", b"abc", 6));
    assert!(!matches_at(b"abcabc", b"abc", usize::MAX));
    assert!(matches_at(b"abc", b"", 3));
    assert!(!matches_at(b"abc", b"", 4));
}

#[test]
fn has_prefix_looks_at_the_beginning_only() {
    assert!(has_prefix(b"https://www.reddit.com/r/rust/new/", b"https://www.reddit.com/"));
    assert!(!has_prefix(b" https://www.reddit.com/r/rust/new/", b"https://www.reddit.com/"));
    assert!(!has_prefix(b"https://www.reddit.co", b"https://www.reddit.com/"));
    assert!(has_prefix(b"abc", b""));
    assert!(has_prefix(b"abc", b"abc"));
}

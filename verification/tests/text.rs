use vintage_story_mod_loader::text::{
    chars_of, catenate, contains, ends_with, find, head, last_after, lex_at_most, position_of,
    replace_all, starts_with, str_eq, strip_trailing, tail, to_decimal,
};

#[test]
fn suffix_and_prefix() {
    assert!(ends_with("pack.zip", ".zip"));
    assert!(!ends_with("zip", ".zip"));
    assert!(ends_with("anything", ""));
    assert!(starts_with("http://x", "http"));
    assert!(!starts_with("ht", "http"));
}

#[test]
fn characters_and_joining() {
    assert_eq!(chars_of("aé"), vec!['a', 'é']);
    assert_eq!(catenate("ab", "cd"), "abcd");
    assert!(str_eq("same", "same"));
    assert!(!str_eq("same", "Same"));
}

#[test]
fn finding_a_needle() {
    assert_eq!(find("a/b/c", "/"), Some(1));
    assert_eq!(find("abc", "x"), None);
    assert_eq!(find("abc", ""), Some(0));
    assert_eq!(position_of("xxabxxab", "ab"), Some(2));
    assert!(contains("one/download/two", "/download/"));
    assert!(!contains("short", "longer needle"));
}

#[test]
fn trailing_markers_are_all_stripped() {
    assert_eq!(strip_trailing("a.zip.disabled", ".disabled"), "a.zip");
    assert_eq!(strip_trailing("a.disabled.disabled", ".disabled"), "a");
    assert_eq!(strip_trailing("a.zip", ".disabled"), "a.zip");
    assert_eq!(strip_trailing(".disabled", ".disabled"), "");
    assert_eq!(strip_trailing("abc", ""), "abc");
}

#[test]
fn lexicographic_order_is_by_character() {
    assert!(lex_at_most("1.0.0", "1.0.0"));
    assert!(lex_at_most("1.0", "1.0.1"));
    assert!(!lex_at_most("1.0.1", "1.0"));
    assert!(lex_at_most("10.0", "2.0"));
    assert!(!lex_at_most("2.0", "10.0"));
    assert!(lex_at_most("", "a"));
    assert!(!lex_at_most("a", ""));
}

#[test]
fn replacing_and_splitting() {
    assert_eq!(replace_all("aXbXc", "X", "--"), "a--b--c");
    assert_eq!(replace_all("aaa", "aa", "b"), "ba");
    assert_eq!(replace_all("abc", "", "z"), "abc");
    assert_eq!(last_after("a/api/mods/b/api/mods/c", "/api/mods/"), "c");
    assert_eq!(last_after("nothing", "/x/"), "nothing");
    assert_eq!(head("hello", 2), "he");
    assert_eq!(tail("hello", 2), "llo");
    assert_eq!(head("hello", 9), "hello");
    assert_eq!(tail("hello", 9), "");
    assert_eq!(tail("hello", 5), "");
}

#[test]
fn decimal_digits() {
    assert_eq!(to_decimal(0), "0");
    assert_eq!(to_decimal(7), "7");
    assert_eq!(to_decimal(10), "10");
    assert_eq!(to_decimal(1234567890), "1234567890");
}

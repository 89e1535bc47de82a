use fslabscli::text::{
    after_last_text, decimal_text, has_text, holds, join_texts, replace_text, sort_texts,
    trim_text, wrap_texts,
};

fn list(words: &[&str]) -> Vec<String> {
    words.iter().map(|w| w.to_string()).collect()
}

#[test]
fn replacing_goes_from_the_left() {
    assert_eq!(replace_text("aaaa", "aa", "b"), "bb");
    assert_eq!(replace_text("aaa", "aa", "b"), "ba");
    assert_eq!(replace_text("", "a", "b"), "");
    assert_eq!(replace_text("xay", "a", "aa"), "xaay");
}

#[test]
fn searching_finds_the_empty_text() {
    assert!(has_text("abc", "bc"));
    assert!(!has_text("abc", "cb"));
    assert!(has_text("", ""));
    assert!(!has_text("", "a"));
}

#[test]
fn trimming_takes_all_spaces() {
    assert_eq!(trim_text(" \u{a0}\n x y \t\u{3000}"), "x y");
    assert_eq!(trim_text("  "), "");
}

#[test]
fn numbers_are_written_in_decimal() {
    assert_eq!(decimal_text(0), "0");
    assert_eq!(decimal_text(1907), "1907");
    assert_eq!(decimal_text(u64::MAX), "18446744073709551615");
}

#[test]
fn last_component_is_what_follows_the_last_separator() {
    assert_eq!(after_last_text("a/b/c", '/'), "c");
    assert_eq!(after_last_text("c", '/'), "c");
    assert_eq!(after_last_text("a/", '/'), "");
}

#[test]
fn lists_are_joined_and_sorted() {
    assert_eq!(join_texts(&list(&["a", "b", "c"]), ", "), "a, b, c");
    assert_eq!(join_texts(&[], ", "), "");
    assert_eq!(wrap_texts(&list(&["a", "b"]), "<", ">"), "<a><b>");
    assert_eq!(
        sort_texts(&list(&["b", "ab", "a", "é", "z", "a"])),
        list(&["a", "a", "ab", "b", "z", "é"])
    );
    assert!(holds(&list(&["a", "b"]), "b"));
    assert!(!holds(&list(&["a", "b"]), "c"));
}

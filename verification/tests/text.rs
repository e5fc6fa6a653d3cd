use hf_providers::hardware::{fold_separator_chars, strip_separator_chars};
use hf_providers::query::nth_char;
use hf_providers::text::{
    ascii_lower_chars, char_is_alnum, char_is_digit, chars_after_last, chars_before_first,
    chars_of, find_in, find_in_from, has_prefix, has_sub, has_suffix, is_match_at, is_word,
    push_all, push_str, rfind_in, same_chars, slice_chars, string_of,
};

fn c(s: &str) -> Vec<char> {
    s.chars().collect()
}

fn s(v: Vec<char>) -> String {
    v.into_iter().collect()
}

#[test]
fn strings_and_characters() {
    for text in ["", "a", "na\u{ef}ve \u{1f600} caf\u{e9}", "\n\t ", "\u{0}"] {
        assert_eq!(chars_of(text), c(text));
        assert_eq!(string_of(&c(text)), text);
    }
    let mut out = c("ab");
    push_all(&mut out, &c("cd"));
    push_str(&mut out, "\u{e9}f");
    push_str(&mut out, "");
    assert_eq!(s(out), "abcd\u{e9}f");
    assert_eq!(s(slice_chars(&c("hello"), 1, 3)), "el");
    assert_eq!(s(slice_chars(&c("hello"), 5, 5)), "");
    assert_eq!(s(slice_chars(&c("hello"), 0, 5)), "hello");
    assert!(same_chars(&c("abc"), &c("abc")));
    assert!(same_chars(&[], &[]));
    assert!(!same_chars(&c("abc"), &c("abd")));
    assert!(!same_chars(&c("abc"), &c("ab")));
    assert!(is_word(&c("abc"), "abc"));
    assert!(!is_word(&c("abc"), "ABC"));
}

#[test]
fn classes_of_characters() {
    for ch in ['0', '5', '9'] {
        assert!(char_is_digit(ch) && char_is_alnum(ch));
    }
    for ch in ['a', 'z', 'A', 'Z', 'm'] {
        assert!(!char_is_digit(ch) && char_is_alnum(ch));
    }
    for ch in ['/', ':', '@', '[', '`', '{', ' ', '-', '.', '\u{e9}', '\u{661}', '\u{ff11}'] {
        assert!(!char_is_digit(ch) && !char_is_alnum(ch), "{ch:?}");
        assert_eq!(char_is_alnum(ch), ch.is_ascii_alphanumeric());
    }
    assert_eq!(s(ascii_lower_chars(&c("AbC-\u{c9}Z09"))), "abc-\u{c9}z09");
    assert_eq!(s(ascii_lower_chars(&c("@[`{"))), "@[`{");
    assert_eq!(s(fold_separator_chars(&c("a-b c_d--  e"))), "a_b_c_d____e");
    assert_eq!(s(strip_separator_chars(&c("_a__b_c_"))), "abc");
    assert_eq!(s(strip_separator_chars(&c("a-b"))), "a-b");
}

#[test]
fn searching() {
    let text = c("abcabcab");
    assert_eq!(find_in(&text, &c("abc")), Some(0));
    assert_eq!(find_in(&text, &c("bca")), Some(1));
    assert_eq!(find_in(&text, &c("cab")), Some(2));
    assert_eq!(find_in(&text, &c("abcabcab")), Some(0));
    assert_eq!(find_in(&text, &c("abcabcabc")), None);
    assert_eq!(find_in(&text, &c("x")), None);
    assert_eq!(find_in(&text, &[]), Some(0));
    assert_eq!(find_in(&[], &[]), Some(0));
    assert_eq!(find_in(&[], &c("a")), None);
    assert_eq!(find_in_from(&text, &c("abc"), 1), Some(3));
    assert_eq!(find_in_from(&text, &c("abc"), 4), None);
    assert_eq!(find_in_from(&text, &c("ab"), 6), Some(6));
    assert_eq!(find_in_from(&text, &c("ab"), 7), None);
    assert_eq!(find_in_from(&text, &[], 8), Some(8));
    assert_eq!(find_in_from(&text, &[], 9), None);
    assert_eq!(rfind_in(&text, &c("abc")), Some(3));
    assert_eq!(rfind_in(&text, &c("ab")), Some(6));
    assert_eq!(rfind_in(&text, &c("x")), None);
    assert_eq!(rfind_in(&text, &[]), Some(8));
    assert_eq!(rfind_in(&c("a"), &c("ab")), None);
    assert!(is_match_at(&text, &c("cab"), 5));
    assert!(!is_match_at(&text, &c("cab"), 6));
    assert!(!is_match_at(&text, &c("cab"), 100));
    assert!(has_sub(&text, &c("cabc")) && !has_sub(&text, &c("cc")));
    assert!(has_suffix(&text, &c("cab")) && !has_suffix(&text, &c("abc")));
    assert!(has_suffix(&text, &[]) && has_prefix(&text, &[]));
    assert!(has_prefix(&text, &c("abca")) && !has_prefix(&text, &c("bc")));
    assert!(!has_suffix(&c("ab"), &c("cab")) && !has_prefix(&c("ab"), &c("abc")));
    for (hay, pat) in [("naïve café", "é"), ("naïve café", "ï"), ("a\u{1f600}b", "b"), ("", "")] {
        let byte = hay.find(pat).map(|b| hay[..b].chars().count());
        assert_eq!(find_in(&c(hay), &c(pat)), byte);
    }
}

#[test]
fn splitting() {
    assert_eq!(s(chars_after_last(&c("a/b/c"), '/')), "c");
    assert_eq!(s(chars_after_last(&c("abc"), '/')), "abc");
    assert_eq!(s(chars_after_last(&c("abc/"), '/')), "");
    assert_eq!(s(chars_before_first(&c("a/b/c"), '/')), "a");
    assert_eq!(s(chars_before_first(&c("abc"), '/')), "abc");
    assert_eq!(s(chars_before_first(&c("/abc"), '/')), "");
    assert_eq!(nth_char(&c("a-b-c-d"), '-', 1), 1);
    assert_eq!(nth_char(&c("a-b-c-d"), '-', 3), 5);
    assert_eq!(nth_char(&c("a-b-c-d"), '-', 4), 7);
    assert_eq!(nth_char(&c("a-b-c-d"), '-', 0), 1);
    assert_eq!(nth_char(&c("abc"), '-', 1), 3);
    assert_eq!(nth_char(&[], '-', 1), 0);
}

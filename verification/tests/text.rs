use virtual_soundboard::text::{
    append_chars, chars_of, contains_chars, copy_range, decimal_chars, find_chars, is_whitespace,
    join_chars, keep_non_empty, lower_ascii_chars, replace_char_in, rfind_char_in, split_chars,
    str_is_blank, string_from_chars, to_ascii_lower, trim_char_in,
};

fn cs(s: &str) -> Vec<char> {
    s.chars().collect()
}

fn st(v: &[char]) -> String {
    v.iter().collect()
}

#[test]
fn chars_round_trip() {
    assert_eq!(chars_of("héllo"), cs("héllo"));
    assert_eq!(string_from_chars(&cs("héllo")), "héllo");
    assert_eq!(string_from_chars(&[]), "");
}

#[test]
fn ascii_lowering_leaves_other_characters() {
    assert_eq!(to_ascii_lower('Q'), 'q');
    assert_eq!(to_ascii_lower('É'), 'É');
    assert_eq!(st(&lower_ascii_chars(&cs("MiX3D É"))), "mix3d É");
}

#[test]
fn blank_strings_are_all_white_space() {
    assert!(str_is_blank(""));
    assert!(str_is_blank(" \t\n\u{3000}\u{a0}"));
    assert!(!str_is_blank(" a "));
    for c in ['\u{0}', 'a', '\u{200b}', '\u{180e}', '\u{feff}', ' ', '\u{85}', '\u{2029}'] {
        assert_eq!(is_whitespace(c), c.is_whitespace(), "{c:?}");
        assert_eq!(str_is_blank(&c.to_string()), c.to_string().trim().is_empty());
    }
}

#[test]
fn finding_patterns() {
    assert_eq!(find_chars(&cs("a__b__c"), &cs("__")), Some(1));
    assert_eq!(find_chars(&cs("abc"), &cs("")), Some(0));
    assert_eq!(find_chars(&cs("abc"), &cs("abcd")), None);
    assert_eq!(rfind_char_in(&cs("a.b.c"), '.'), Some(3));
    assert_eq!(rfind_char_in(&cs("abc"), '.'), None);
    assert!(contains_chars(&cs("my cable input"), &cs("cable input")));
    assert!(!contains_chars(&cs("cable"), &cs("cable input")));
}

#[test]
fn splitting_and_joining() {
    let parts = split_chars(&cs("-a--b-"), '-');
    let shown: Vec<String> = parts.iter().map(|p| st(p)).collect();
    assert_eq!(shown, vec!["", "a", "", "b", ""]);
    let kept = keep_non_empty(&parts);
    let shown: Vec<String> = kept.iter().map(|p| st(p)).collect();
    assert_eq!(shown, vec!["a", "b"]);
    assert_eq!(st(&join_chars(&kept, &cs(", "))), "a, b");
    assert_eq!(st(&join_chars(&Vec::new(), &cs(", "))), "");
    assert_eq!(split_chars(&[], '-').len(), 1);
}

#[test]
fn replacing_trimming_and_copying() {
    assert_eq!(st(&replace_char_in(&cs("a-b-c"), '-', &cs(" "))), "a b c");
    assert_eq!(st(&trim_char_in(&cs("--a-b--"), '-')), "a-b");
    assert_eq!(st(&trim_char_in(&cs("---"), '-')), "");
    assert_eq!(st(&copy_range(&cs("abcdef"), 1, 4)), "bcd");
    let mut v = cs("ab");
    append_chars(&mut v, &cs("cd"));
    assert_eq!(st(&v), "abcd");
}

#[test]
fn decimals_match_display() {
    for n in [0u128, 7, 10, 99, 1_700_000_000_000, u128::MAX] {
        assert_eq!(st(&decimal_chars(n)), n.to_string());
    }
}

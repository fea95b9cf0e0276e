use todox::text::{
    append_str, chars_of, contains_chars, is_blank, is_white_space, matches_at, owned,
    replace_all, same_text, string_from_range, text_lt, trim,
};

#[test]
fn trimming_follows_unicode_white_space() {
    assert_eq!(trim("  a b \n"), "a b");
    assert_eq!(trim("\u{3000}任务\u{a0}"), "任务");
    assert_eq!(trim(""), "");
    assert!(is_blank(" \t\n"));
    assert!(!is_blank(" x "));
    assert!(is_white_space('\u{2028}'));
    assert!(!is_white_space('x'));
}

#[test]
fn replacing_scans_from_the_left() {
    assert_eq!(replace_all("{a}{a}", "{a}", "x"), "xx");
    assert_eq!(replace_all("aaa", "aa", "b"), "ba");
    assert_eq!(replace_all("abc", "z", "y"), "abc");
}

#[test]
fn searching_and_comparing() {
    let hay = chars_of("hello world");
    let needle = chars_of("o w");
    assert!(contains_chars(&hay, &needle));
    assert!(matches_at(&hay, &needle, 4));
    assert!(!matches_at(&hay, &needle, 3));
    assert!(contains_chars(&hay, &Vec::new()));
    assert!(same_text("abc", "abc"));
    assert!(!same_text("abc", "abd"));
    assert!(text_lt("ab", "abc"));
    assert!(text_lt("de_DE", "ja_JP"));
    assert!(!text_lt("b", "a"));
    assert!(!text_lt("a", "a"));
}

#[test]
fn building_strings() {
    let mut s = owned("ab");
    append_str(&mut s, "cd");
    assert_eq!(s, "abcd");
    let cs = chars_of("任务清单");
    assert_eq!(string_from_range(&cs, 1, 3), "务清");
}

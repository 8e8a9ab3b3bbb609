use tg_adapter::text::{contains_str, find_char, str_eq, trim, trim_start};

#[test]
fn trims_unicode_white_space_like_str_trim() {
    for s in ["  a b  ", "\u{3000}x\u{85}", "\t\n", "", "no-space", "\u{200b}z\u{200b}", " \u{a0}é\u{2028}"] {
        assert_eq!(trim(s), s.trim(), "input {s:?}");
        assert_eq!(trim_start(s), s.trim_start(), "input {s:?}");
    }
}

#[test]
fn searches_like_str_methods() {
    assert!(contains_str("data:image/png;base64", "base64"));
    assert!(!contains_str("data:image/png", "base64"));
    assert!(contains_str("abc", ""));
    assert!(!contains_str("ab", "abc"));
    assert_eq!(find_char("start@bot@x", '@'), Some(5));
    assert_eq!(find_char("héllo@", '@'), Some(5));
    assert_eq!(find_char("none", '@'), None);
    assert!(str_eq("é", "é"));
    assert!(!str_eq("a", "ab"));
}

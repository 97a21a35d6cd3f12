use libe_desk::text::{
    char_is_white_space, concat_str, lower_char_is, lower_equals, lower_has_suffix, str_eq,
    str_is_blank,
};

#[test]
fn lower_case_comparisons() {
    assert!(lower_char_is('A', 'a'));
    assert!(lower_char_is('z', 'z'));
    assert!(!lower_char_is('a', 'A'));
    assert!(!lower_char_is('Ä', 'ä'));
    assert!(lower_equals("LibeCity.COM", "libecity.com"));
    assert!(!lower_equals("libecity.co", "libecity.com"));
    assert!(lower_has_suffix("WWW.LIBECITY.COM", ".libecity.com"));
    assert!(!lower_has_suffix("libecity.com", ".libecity.com"));
    assert!(lower_has_suffix("abc", ""));
}

#[test]
fn equality_and_concatenation() {
    assert!(str_eq("日本", "日本"));
    assert!(!str_eq("日本", "日本語"));
    assert!(!str_eq("ab", "ba"));
    assert_eq!(concat_str("tab-", "日本"), "tab-日本");
}

#[test]
fn white_space_matches_std() {
    for c in ['\t', '\n', '\u{b}', '\u{c}', '\r', ' ', '\u{85}', '\u{a0}', '\u{1680}',
        '\u{2000}', '\u{200a}', '\u{2028}', '\u{2029}', '\u{202f}', '\u{205f}', '\u{3000}']
    {
        assert!(char_is_white_space(c));
        assert!(c.is_whitespace());
    }
    for c in ['a', '\u{200b}', '\u{feff}', '0', '\u{1f}'] {
        assert!(!char_is_white_space(c));
        assert!(!c.is_whitespace());
    }
    for code in 0u32..0x3100 {
        if let Some(c) = char::from_u32(code) {
            assert_eq!(char_is_white_space(c), c.is_whitespace(), "{code:#x}");
        }
    }
    assert!(str_is_blank(""));
    assert!(str_is_blank(" \u{3000}\t"));
    assert!(!str_is_blank(" a "));
}

use codex_runtime::text::{bounded, is_whitespace, trim};

#[test]
fn whitespace_is_the_unicode_property() {
    let mut code: u32 = 0;
    while code <= 0x10ffff {
        if let Some(c) = char::from_u32(code) {
            assert_eq!(is_whitespace(c), c.is_whitespace(), "{code:x}");
        }
        code += 1;
    }
}

#[test]
fn trim_removes_the_white_space_at_both_ends() {
    assert_eq!(trim(" \t a b \u{3000}\n"), "a b");
    assert_eq!(trim("   "), "");
}

#[test]
fn bounded_never_splits_a_character() {
    assert_eq!(bounded("\u{1f980}x", 3), "");
    assert_eq!(bounded("\u{1f980}x", 4), "\u{1f980}");
    assert_eq!(bounded("abc", 2), "ab");
    assert_eq!(bounded("abc", 9), "abc");
}

use tui_player::settings::volume_from_text;
use tui_player::text::{
    chars_of, find_sub, is_digit_char, is_space_char, push_chars, push_nat, read_digits,
    starts_with_at, string_of, trim_range, vec_of,
};

fn chars(s: &str) -> Vec<char> {
    s.chars().collect()
}

#[test]
fn white_space_is_that_of_unicode() {
    for c in ['\t', '\n', '\u{b}', '\u{c}', '\r', ' ', '\u{85}', '\u{a0}', '\u{1680}', '\u{2000}', '\u{200a}', '\u{2028}', '\u{2029}', '\u{202f}', '\u{205f}', '\u{3000}'] {
        assert!(is_space_char(c), "{:?}", c);
        assert!(c.is_whitespace());
    }
    for c in ['a', '0', '\u{8}', '\u{e}', '\u{200b}', '\u{feff}', '\u{180e}', '_'] {
        assert!(!is_space_char(c), "{:?}", c);
        assert!(!c.is_whitespace());
    }
    for code in 0..0x11_0000u32 {
        if let Some(c) = char::from_u32(code) {
            assert_eq!(is_space_char(c), c.is_whitespace(), "{code:x}");
        }
    }
}

#[test]
fn trimming_takes_white_space_off_both_ends() {
    let v = chars("  a b \n");
    assert_eq!(trim_range(&v, 0, v.len()), (2, 5));
    assert_eq!(trim_range(&v, 3, v.len()), (4, 5));
    assert_eq!(trim_range(&v, 0, 2), (2, 2));
    assert_eq!(trim_range(&v, 5, 5), (5, 5));
    let v = chars("\u{a0}1\u{2003}");
    assert_eq!(trim_range(&v, 0, v.len()), (1, 2));
    assert_eq!(volume_from_text(Some("\u{a0}1\u{2003}")), 20);
}

#[test]
fn texts_and_characters() {
    assert_eq!(chars_of("a\u{e4}\u{1F3B5}"), vec!['a', '\u{e4}', '\u{1F3B5}']);
    assert_eq!(chars_of(""), Vec::<char>::new());
    let v = chars("hello");
    assert_eq!(string_of(&v, 1, 4), "ell");
    assert_eq!(string_of(&v, 2, 2), "");
    assert_eq!(vec_of(&v, 0, 5), v);
    assert_eq!(vec_of(&v, 3, 5), vec!['l', 'o']);
    let mut s = "x".to_string();
    push_chars(&mut s, &v);
    assert_eq!(s, "xhello");
    push_nat(&mut s, 0);
    push_nat(&mut s, 1203);
    push_nat(&mut s, u64::MAX);
    assert_eq!(s, "xhello0120318446744073709551615");
}

#[test]
fn digits_are_read_up_to_a_cap() {
    assert!(is_digit_char('0') && is_digit_char('9'));
    assert!(!is_digit_char('a') && !is_digit_char('\u{661}') && !is_digit_char('/'));
    let v = chars("0123x");
    assert_eq!(read_digits(&v, 0, 4, 1000), Some(123));
    assert_eq!(read_digits(&v, 0, 4, 100), Some(100));
    assert_eq!(read_digits(&v, 0, 5, 1000), None);
    assert_eq!(read_digits(&v, 2, 2, 1000), Some(0));
    let v = chars("99999999999999999999999999999999999999999999999999");
    assert_eq!(read_digits(&v, 0, v.len(), 7), Some(7));
    assert_eq!(
        read_digits(&v, 0, v.len(), 0xFFFF_FFFF_FFFF_FFFF_FFFF),
        Some(0xFFFF_FFFF_FFFF_FFFF_FFFF)
    );
}

#[test]
fn patterns_are_found_from_left_to_right() {
    let v = chars("abcabcab");
    assert!(starts_with_at(&v, 3, &chars("abc")));
    assert!(!starts_with_at(&v, 6, &chars("abc")));
    assert!(!starts_with_at(&v, 1, &chars("abc")));
    assert!(starts_with_at(&v, 8, &chars("")));
    assert!(!starts_with_at(&v, 9, &chars("")));
    assert!(!starts_with_at(&v, usize::MAX, &chars("a")));
    assert_eq!(find_sub(&v, &chars("abc"), 0), Some(0));
    assert_eq!(find_sub(&v, &chars("abc"), 1), Some(3));
    assert_eq!(find_sub(&v, &chars("abc"), 4), None);
    assert_eq!(find_sub(&v, &chars("b"), 7), Some(7));
    assert_eq!(find_sub(&v, &chars(""), 8), Some(8));
    assert_eq!(find_sub(&v, &chars(""), 9), None);
    assert_eq!(find_sub(&v, &chars("abcabcabc"), 0), None);
    assert_eq!(find_sub(&Vec::new(), &chars("a"), 0), None);
}

use backutil::text::{
    char_is_space, chars_of, contains, decimal, matches_at, parse_decimal, same_chars, slice_of,
    split, split_lines, split_words, starts_with, string_of, trim, Separator,
};

fn v(s: &str) -> Vec<char> {
    s.chars().collect()
}

fn strings(rows: Vec<Vec<char>>) -> Vec<String> {
    rows.into_iter().map(|r| r.into_iter().collect()).collect()
}

#[test]
fn conversions_round_trip() {
    assert_eq!(chars_of("héllo"), v("héllo"));
    assert_eq!(string_of(&v("héllo")), "héllo");
    assert_eq!(chars_of(""), Vec::<char>::new());
    assert_eq!(slice_of(&v("abcdef"), 2, 4), v("cd"));
    assert_eq!(slice_of(&v("abcdef"), 3, 3), v(""));
    assert!(same_chars(&v("ab"), &v("ab")));
    assert!(!same_chars(&v("ab"), &v("ac")));
    assert!(!same_chars(&v("ab"), &v("abc")));
}

#[test]
fn white_space_is_unicode_white_space() {
    for c in ['\t', '\n', '\u{b}', '\u{c}', '\r', ' ', '\u{85}', '\u{a0}', '\u{1680}', '\u{2003}',
        '\u{2028}', '\u{2029}', '\u{202f}', '\u{205f}', '\u{3000}']
    {
        assert!(char_is_space(c));
        assert!(c.is_whitespace());
    }
    for c in ['a', '0', '\u{200b}', '\u{feff}', '_', '\u{1c}'] {
        assert_eq!(char_is_space(c), c.is_whitespace());
    }
    let mut c = 0u32;
    while c < 0x3100 {
        if let Some(ch) = char::from_u32(c) {
            assert_eq!(char_is_space(ch), ch.is_whitespace(), "{:x}", c);
        }
        c += 1;
    }
}

#[test]
fn splitting() {
    assert_eq!(strings(split(&v("a:b::c"), Separator::Char(':'))), vec!["a", "b", "", "c"]);
    assert_eq!(strings(split(&v(""), Separator::Char(':'))), vec![""]);
    assert_eq!(strings(split(&v(":"), Separator::Char(':'))), vec!["", ""]);
    assert_eq!(strings(split(&v("a b\tc"), Separator::Whitespace)), vec!["a", "b", "c"]);
    assert_eq!(strings(split_words(&v("  one\ttwo \n three  "))), vec!["one", "two", "three"]);
    assert!(split_words(&v(" \t ")).is_empty());
    let s = "  a  bb\u{a0}c ";
    assert_eq!(strings(split_words(&v(s))), s.split_whitespace().collect::<Vec<_>>());
}

#[test]
fn lines_match_std() {
    for s in ["", "\n", "a", "a\n", "a\nb", "a\r\nb\r\n", "a\r", "a\r\n\r\nb", "\r\n", "a\n\nb\n\n", "x\ry\n"] {
        assert_eq!(strings(split_lines(&v(s))), s.lines().collect::<Vec<_>>(), "{:?}", s);
    }
}

#[test]
fn trimming_and_searching() {
    for s in ["", "  ", " a b ", "\ta\n", "a", "\u{3000}x\u{2003}"] {
        assert_eq!(string_of(&trim(&v(s))), s.trim(), "{:?}", s);
    }
    assert!(contains(&v("total bytes reclaimed: 5"), &v("reclaimed:")));
    assert!(contains(&v("abc"), &v("")));
    assert!(contains(&v(""), &v("")));
    assert!(contains(&v("abc"), &v("abc")));
    assert!(contains(&v("aab"), &v("ab")));
    assert!(!contains(&v("abc"), &v("abcd")));
    assert!(!contains(&v("abc"), &v("ca")));
    assert!(matches_at(&v("abc"), &v("bc"), 1));
    assert!(!matches_at(&v("abc"), &v("bc"), 2));
    assert!(!matches_at(&v("abc"), &v("bc"), 7));
    assert!(starts_with(&v("~/x"), &v("~/")));
    assert!(!starts_with(&v("~"), &v("~/")));
    assert!(starts_with(&v("x"), &v("")));
}

#[test]
fn decimal_numbers() {
    assert_eq!(decimal(0), "0");
    assert_eq!(decimal(7), "7");
    assert_eq!(decimal(10), "10");
    assert_eq!(decimal(1234567890), "1234567890");
    assert_eq!(decimal(u64::MAX), "18446744073709551615");
    assert_eq!(parse_decimal(&v("0")), Some(0));
    assert_eq!(parse_decimal(&v("007")), Some(7));
    assert_eq!(parse_decimal(&v("18446744073709551615")), Some(u64::MAX));
    assert_eq!(parse_decimal(&v("18446744073709551616")), None);
    assert_eq!(parse_decimal(&v("99999999999999999999999")), None);
    assert_eq!(parse_decimal(&v("")), None);
    assert_eq!(parse_decimal(&v("12a")), None);
    assert_eq!(parse_decimal(&v("+1")), None);
    assert_eq!(parse_decimal(&v("١٢")), None);
}

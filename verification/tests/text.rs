use hindsight_desktop::text::{
    chars_of, find_in, is_white_space_char, matches_at, parse_u16, trim_str, u16_decimal,
};

fn v(s: &str) -> Vec<char> {
    s.chars().collect()
}

#[test]
fn chars_of_keeps_every_character() {
    assert_eq!(chars_of("a·b"), vec!['a', '·', 'b']);
    assert_eq!(chars_of(""), Vec::<char>::new());
}

#[test]
fn matches_at_checks_in_place() {
    assert!(matches_at(&v("HTTP/1.0 200"), &v("HTTP/1."), 0));
    assert!(!matches_at(&v("HTTP/1.0 200"), &v("HTTP/1."), 1));
    assert!(!matches_at(&v("HTTP"), &v("HTTP/1."), 0));
    assert!(matches_at(&v("abc"), &v(""), 3));
}

#[test]
fn find_in_gives_first_occurrence_from_start() {
    assert_eq!(find_in(&v("a\"b\"c"), &v("\""), 0), Some(1));
    assert_eq!(find_in(&v("a\"b\"c"), &v("\""), 2), Some(3));
    assert_eq!(find_in(&v("a\"b\"c"), &v("\""), 4), None);
    assert_eq!(find_in(&v("aaa"), &v("aa"), 0), Some(0));
    assert_eq!(find_in(&v("ab"), &v("abc"), 0), None);
}

#[test]
fn u16_decimal_renders_like_to_string() {
    assert_eq!(u16_decimal(0), "0");
    assert_eq!(u16_decimal(7), "7");
    assert_eq!(u16_decimal(8899), "8899");
    assert_eq!(u16_decimal(65535), "65535");
    for n in [10u16, 99, 100, 1024, 7878, 40000] {
        assert_eq!(u16_decimal(n), n.to_string());
    }
}

#[test]
fn parse_u16_accepts_what_std_accepts() {
    assert_eq!(parse_u16("8080"), Some(8080));
    assert_eq!(parse_u16("+80"), Some(80));
    assert_eq!(parse_u16("0080"), Some(80));
    assert_eq!(parse_u16("65535"), Some(65535));
    assert_eq!(parse_u16(""), None);
    assert_eq!(parse_u16("+"), None);
    assert_eq!(parse_u16("-1"), None);
    assert_eq!(parse_u16("-0"), None);
    assert_eq!(parse_u16("65536"), None);
    assert_eq!(parse_u16("99999999999999999999"), None);
    assert_eq!(parse_u16(" 80"), None);
    assert_eq!(parse_u16("8a"), None);
    assert_eq!(parse_u16("++1"), None);
    assert_eq!(parse_u16("٣"), None);
}

#[test]
fn parse_u16_matches_std_on_samples() {
    let samples = [
        "", "0", "1", "+1", "-1", "+", "-", "00000", "65535", "65536", "123456", "1_000", "1 ",
        "+0", "9x", "x9", "+65535", "+65536", "0000065535",
    ];
    for s in samples {
        assert_eq!(parse_u16(s), s.parse::<u16>().ok(), "input {:?}", s);
    }
}

#[test]
fn parse_reads_back_every_rendered_u16() {
    for n in 0..=u16::MAX {
        assert_eq!(parse_u16(&u16_decimal(n)), Some(n));
    }
}

#[test]
fn white_space_matches_char_is_whitespace() {
    for code in 0u32..=0x10FFFF {
        if let Some(c) = char::from_u32(code) {
            assert_eq!(is_white_space_char(c), c.is_whitespace(), "char {:#x}", code);
        }
    }
}

#[test]
fn trim_str_matches_str_trim() {
    assert_eq!(trim_str("  tok \n"), "tok");
    assert_eq!(trim_str("\u{3000}x y\u{85}"), "x y");
    assert_eq!(trim_str("   "), "");
    assert_eq!(trim_str(""), "");
    for s in ["abc", " a", "a ", "\t\r\na b\u{2028}", "\u{200B}z\u{200B}", "\u{A0}"] {
        assert_eq!(trim_str(s), s.trim());
    }
}

use kodik_parser::numbers::{decimal_i32, decimal_u32, parse_u32, parse_u8, IntErrorKind};
use kodik_parser::text::{
    contains_chars, find_index, lines_vec, rfind_index, rsplit_once_vec, split_once_vec, split_vec,
    strip_prefix_vec, strip_suffix_vec, trimmed, white_space,
};

fn cs(s: &str) -> Vec<char> {
    s.chars().collect()
}

fn st(v: &[char]) -> String {
    v.iter().collect()
}

#[test]
fn parse_u32_reads_decimal_digits() {
    assert_eq!(parse_u32(&cs("0")), Ok(0));
    assert_eq!(parse_u32(&cs("123")), Ok(123));
    assert_eq!(parse_u32(&cs("+7")), Ok(7));
    assert_eq!(parse_u32(&cs("4294967295")), Ok(u32::MAX));
}

#[test]
fn parse_u32_errors_match_std() {
    for text in ["", "+", "-", "-1", "12a", " 1", "1 ", "4294967296", "99999999999a", "+-1", "١٢"] {
        let expected = text.parse::<u32>().map_err(|e| format!("{:?}", e.kind()));
        let got = parse_u32(&cs(text)).map_err(|e| format!("{:?}", e));
        assert_eq!(got, expected, "{:?}", text);
    }
    assert_eq!(parse_u32(&cs("")), Err(IntErrorKind::Empty));
    assert_eq!(parse_u32(&cs("+")), Err(IntErrorKind::InvalidDigit));
    assert_eq!(parse_u32(&cs("4294967296")), Err(IntErrorKind::PosOverflow));
    assert_eq!(parse_u32(&cs("99999999999a")), Err(IntErrorKind::PosOverflow));
}

#[test]
fn parse_u8_bounds() {
    assert_eq!(parse_u8(&cs("255")), Ok(255));
    assert_eq!(parse_u8(&cs("256")), Err(IntErrorKind::PosOverflow));
    assert_eq!(parse_u8(&cs("013")), Ok(13));
}

#[test]
fn decimal_writing_matches_to_string() {
    for n in [0u32, 7, 10, 360, 4294967295] {
        assert_eq!(st(&decimal_u32(n)), n.to_string());
    }
    for n in [0i32, -5, 12, i32::MIN, i32::MAX] {
        assert_eq!(st(&decimal_i32(n)), n.to_string());
    }
}

#[test]
fn trim_removes_unicode_white_space() {
    let s = " \t\u{3000}a b\u{a0}\n";
    assert_eq!(st(&trimmed(&cs(s))), s.trim());
    assert_eq!(st(&trimmed(&cs("   "))), "");
    for c in ['\u{85}', '\u{2028}', '\u{200b}', 'x', '\u{1680}'] {
        assert_eq!(white_space(c), c.is_whitespace(), "{:?}", c);
    }
}

#[test]
fn lines_match_str_lines() {
    for s in ["", "a", "a\n", "a\r\nb\r", "\n\n", "a\r\n\r\nb", "x\ry\n"] {
        let got: Vec<String> = lines_vec(&cs(s)).iter().map(|l| st(l)).collect();
        let expected: Vec<String> = s.lines().map(|l| l.to_string()).collect();
        assert_eq!(got, expected, "{:?}", s);
    }
}

#[test]
fn split_matches_str_split() {
    for s in ["", "a,b", ",", "a,,b,"] {
        let got: Vec<String> = split_vec(&cs(s), ',').iter().map(|l| st(l)).collect();
        let expected: Vec<String> = s.split(',').map(|l| l.to_string()).collect();
        assert_eq!(got, expected);
    }
}

#[test]
fn searching_and_stripping() {
    let s = cs("a=b=c");
    assert_eq!(find_index(&s, &cs("=")), Some(1));
    assert_eq!(rfind_index(&s, &cs("=")), Some(3));
    assert_eq!(find_index(&s, &cs("x")), None);
    let (a, b) = split_once_vec(&s, &cs("=")).unwrap();
    assert_eq!((st(&a), st(&b)), ("a".to_string(), "b=c".to_string()));
    let (a, b) = rsplit_once_vec(&s, &cs("=")).unwrap();
    assert_eq!((st(&a), st(&b)), ("a=b".to_string(), "c".to_string()));
    assert!(contains_chars(&s, &cs("b=c")));
    assert_eq!(strip_prefix_vec(&s, &cs("a=")).map(|v| st(&v)), Some("b=c".to_string()));
    assert_eq!(strip_suffix_vec(&s, &cs("=c")).map(|v| st(&v)), Some("a=b".to_string()));
    assert_eq!(strip_suffix_vec(&s, &cs("a=b=c=")), None);
}

#[test]
fn decimal_then_parse_gives_the_number_back() {
    for n in [0u32, 9, 10, 360, 65535, 4294967295] {
        assert_eq!(parse_u32(&decimal_u32(n)), Ok(n));
    }
    for n in [0u8, 25, 255] {
        assert_eq!(parse_u8(&decimal_u32(n as u32)), Ok(n));
    }
}

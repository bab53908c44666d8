use derusting::ids::{generate_uuid_v7, new_uuid_v7, parse_uuid, to_hyphenated, to_hyphenated_string};
use derusting::text::{
    copy_range, decimal_string, eq_chars, eq_ignore_ascii_case_chars, find_bytes, find_char_from,
    line_at, parse_usize_chars, split_once_chars, str_chars, string_of, to_ascii_lower,
    trim_chars,
};

fn chars(s: &str) -> Vec<char> {
    s.chars().collect()
}

#[test]
fn find_bytes_gives_first_match() {
    assert_eq!(find_bytes(b"ab\r\ncd\r\n", b"\r\n"), Some(2));
    assert_eq!(find_bytes(b"abc", b"\r\n"), None);
    assert_eq!(find_bytes(b"", b"x"), None);
}

#[test]
fn find_char_from_starts_at_offset() {
    let s = chars("a b c");
    assert_eq!(find_char_from(&s, ' ', 0), Some(1));
    assert_eq!(find_char_from(&s, ' ', 2), Some(3));
    assert_eq!(find_char_from(&s, ' ', 4), None);
}

#[test]
fn trim_removes_surrounding_whitespace() {
    assert_eq!(trim_chars(&chars("  text/x.gcode \t")), chars("text/x.gcode"));
    assert_eq!(trim_chars(&chars("   ")), chars(""));
}

#[test]
fn split_once_at_first_colon() {
    let (k, v) = split_once_chars(&chars("guid: a:b"), ':').unwrap();
    assert_eq!(k, chars("guid"));
    assert_eq!(v, chars(" a:b"));
    assert!(split_once_chars(&chars("no colon"), ':').is_none());
}

#[test]
fn ascii_case_comparison() {
    assert_eq!(to_ascii_lower('Q'), 'q');
    assert_eq!(to_ascii_lower('é'), 'é');
    assert!(eq_ignore_ascii_case_chars(&chars("Content-Length"), &chars("content-length")));
    assert!(!eq_ignore_ascii_case_chars(&chars("Content-Type"), &chars("content-length")));
    assert!(eq_chars(&chars("PUT"), &chars("PUT")));
    assert!(!eq_chars(&chars("PUT"), &chars("put")));
}

#[test]
fn parse_usize_like_from_str() {
    assert_eq!(parse_usize_chars(&chars("1234")), Some(1234));
    assert_eq!(parse_usize_chars(&chars("+7")), Some(7));
    assert_eq!(parse_usize_chars(&chars("")), None);
    assert_eq!(parse_usize_chars(&chars("+")), None);
    assert_eq!(parse_usize_chars(&chars("12a")), None);
    assert_eq!(parse_usize_chars(&chars("-1")), None);
    assert_eq!(parse_usize_chars(&chars("99999999999999999999999")), None);
}

#[test]
fn decimal_digits() {
    assert_eq!(decimal_string(0), chars("0"));
    assert_eq!(decimal_string(1_000_000), chars("1000000"));
    assert_eq!(string_of(&decimal_string(u64::MAX)), u64::MAX.to_string());
}

#[test]
fn ranges_and_lines() {
    assert_eq!(copy_range(&[1u8, 2, 3, 4], 1, 3), vec![2u8, 3]);
    assert_eq!(line_at(&chars("abc\r\ndef"), 0, 4), chars("abc"));
    assert_eq!(line_at(&chars("abc\ndef"), 4, 7), chars("def"));
    assert_eq!(str_chars("hé"), vec!['h', 'é']);
}

#[test]
fn uuid_hyphenated_form() {
    let id: u128 = 0x67e5_5044_10b1_426f_9247_bb68_0e5f_e0c8;
    assert_eq!(to_hyphenated_string(id), "67e55044-10b1-426f-9247-bb680e5fe0c8");
    assert_eq!(to_hyphenated(id), chars("67e55044-10b1-426f-9247-bb680e5fe0c8"));
    assert_eq!(to_hyphenated_string(0), "00000000-0000-0000-0000-000000000000");
}

#[test]
fn uuid_parses_back() {
    let id: u128 = 0x67e5_5044_10b1_426f_9247_bb68_0e5f_e0c8;
    assert_eq!(parse_uuid(&to_hyphenated(id)), Some(id));
    assert_eq!(parse_uuid(&chars("67E55044-10B1-426F-9247-BB680E5FE0C8")), Some(id));
    assert_eq!(parse_uuid(&chars("not a uuid")), None);
}

#[test]
fn uuid_v7_holds_the_time() {
    let now_ms: u64 = 1_234_567;
    let bytes: [u8; 10] = [0xab, 0xcd, 0xff, 1, 2, 3, 4, 5, 6, 7];
    let id = generate_uuid_v7(now_ms, &bytes);
    assert_eq!((id >> 80) as u64, now_ms);
    assert_eq!((id >> 76) & 0xf, 7);
    assert_eq!((id >> 64) & 0xfff, 0xbcd);
    assert_eq!((id >> 62) & 0x3, 2);
    assert_eq!((id >> 56) & 0x3f, 0x3f);
    assert_eq!(id & 0xff_ffff_ffff_ffff, 0x01_0203_0405_0607);
    let fresh = new_uuid_v7(now_ms).unwrap();
    assert_eq!((fresh >> 80) as u64, now_ms);
    assert_eq!((fresh >> 76) & 0xf, 7);
    assert_eq!((fresh >> 62) & 0x3, 2);
}

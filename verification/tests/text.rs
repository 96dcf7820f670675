//! Character sequences against what the standard library does.

use lmu_pitwall::text::{
    chars_of, decimal_text, first_line_of, first_word_of, lines_of, parse_number, same,
    signed_decimal_text, split_on, text_after, text_contains, text_less, text_starts_with,
    trimmed, without_leading,
};

fn samples() -> Vec<&'static str> {
    vec![
        "", " ", "a", "a b", " a  b ", "\n", "a\nb", "a\r\nb\r\n", "a\r", "\r\n", "a\n\nb", "..",
        "1.2.3", "vvx", "é ü\u{a0}x", "\u{2028}y", "x\ty\u{b}z", "aXa", "aa", "abc", "ab", "ä",
    ]
}

fn string(v: &[char]) -> String {
    v.iter().collect()
}

#[test]
fn texts_are_taken_apart_like_std_does() {
    for s in samples() {
        let v = chars_of(s);
        assert_eq!(string(&v), s);
        let lines: Vec<String> = lines_of(&v).iter().map(|l| string(l)).collect();
        assert_eq!(lines, s.lines().collect::<Vec<_>>(), "{:?}", s);
        assert_eq!(string(&first_line_of(&v)), s.lines().next().unwrap_or(""), "{:?}", s);
        let pieces: Vec<String> = split_on(&v, '.').iter().map(|l| string(l)).collect();
        assert_eq!(pieces, s.split('.').collect::<Vec<_>>(), "{:?}", s);
        assert_eq!(string(&trimmed(&v)), s.trim(), "{:?}", s);
        assert_eq!(first_word_of(&v), s.split_whitespace().next().unwrap_or(""), "{:?}", s);
        assert_eq!(without_leading(s, 'v'), s.trim_start_matches('v'));
        for t in samples() {
            assert_eq!(same(s, t), s == t);
            assert_eq!(text_contains(s, t), s.contains(t), "{:?} in {:?}", t, s);
            assert_eq!(text_starts_with(s, t), s.starts_with(t));
            assert_eq!(text_after(s, t).as_deref(), s.strip_prefix(t));
            assert_eq!(text_less(s, t), s < t, "{:?} < {:?}", s, t);
        }
    }
}

#[test]
fn every_space_is_one() {
    for n in 0..0x3100u32 {
        if let Some(c) = char::from_u32(n) {
            assert_eq!(lmu_pitwall::text::is_space_char(c), c.is_whitespace(), "U+{:04X}", n);
        }
    }
}

#[test]
fn numbers_are_read_and_written() {
    for s in ["0", "7", "+7", "007", "", "+", "-1", "1 ", "4294967295", "4294967296", "1a", "٣"] {
        let got = parse_number(&chars_of(s), u32::MAX as u64);
        assert_eq!(got, s.parse::<u32>().ok().map(|n| n as u64), "{:?}", s);
    }
    for s in ["18446744073709551615", "18446744073709551616", "99999999999999999999999"] {
        assert_eq!(parse_number(&chars_of(s), u64::MAX), s.parse::<u64>().ok(), "{:?}", s);
    }
    for n in [0u64, 1, 9, 10, 1024, u64::MAX] {
        assert_eq!(decimal_text(n), n.to_string());
    }
    for n in [0i64, -1, 9, i64::MIN, i64::MAX] {
        assert_eq!(signed_decimal_text(n), n.to_string());
    }
}

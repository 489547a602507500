//! The character primitives against the functions of the standard library
//! that they stand for.

use doris_profile_analyzer::numbers::{int_chars, nat_chars, parse_i32, parse_i64};
use doris_profile_analyzer::text::{
    char_is_space, chars_of, contains, ends_with, find, indent, join_lines, same, split_lines,
    starts_with, trim, trim_end, trim_start,
};

const TEXTS: &[&str] = &[
    "",
    " ",
    "a",
    "  a b  ",
    "\t\r\n x \u{a0}\u{3000}",
    "\u{85}\u{1680}\u{2000}\u{200a}\u{2028}\u{2029}\u{202f}\u{205f}y\u{200b}",
    "line one\nline two",
    "ends with feed\n",
    "\n",
    "\n\n",
    "a\r\nb\r\n",
    "a\rb\r",
    "a\r\r\nb",
    "\r\n",
    "x\n\ny\n \nz",
    "héllo wörld\nünïcode",
];

fn text(chars: &[char]) -> String {
    chars.iter().collect()
}

#[test]
fn whitespace_is_what_char_calls_whitespace() {
    for code in 0..=0x3100u32 {
        if let Some(c) = char::from_u32(code) {
            assert_eq!(char_is_space(c), c.is_whitespace(), "U+{:04X}", code);
        }
    }
    for c in ['\u{feff}', '\u{e000}', '\u{10ffff}'] {
        assert_eq!(char_is_space(c), c.is_whitespace());
    }
}

#[test]
fn trimming_is_that_of_str() {
    for t in TEXTS {
        let chars = chars_of(t);
        assert_eq!(text(&chars), *t);
        assert_eq!(text(trim(&chars)), t.trim(), "text {:?}", t);
        assert_eq!(text(trim_start(&chars)), t.trim_start(), "text {:?}", t);
        assert_eq!(text(trim_end(&chars)), t.trim_end(), "text {:?}", t);
        assert_eq!(indent(&chars), t.chars().count() - t.trim_start().chars().count());
    }
}

#[test]
fn lines_are_those_of_str() {
    for t in TEXTS {
        let chars = chars_of(t);
        let lines = split_lines(&chars);
        let found: Vec<String> = lines.iter().map(|l| text(l)).collect();
        let expected: Vec<String> = t.lines().map(|l| l.to_string()).collect();
        assert_eq!(found, expected, "text {:?}", t);
        for from in 0..=lines.len() {
            for to in from..=lines.len() {
                assert_eq!(text(&join_lines(&lines, from, to)), expected[from..to].join("\n"));
            }
        }
    }
}

#[test]
fn searching_is_that_of_str() {
    let patterns = ["", "a", "b", "ab", "line", "\n", " ", "ö", "two", "xyz"];
    for t in TEXTS {
        let chars = chars_of(t);
        for p in patterns {
            let pattern = chars_of(p);
            let expected = t.find(p).map(|at| t[..at].chars().count());
            assert_eq!(find(&chars, &pattern), expected, "{:?} in {:?}", p, t);
            assert_eq!(contains(&chars, &pattern), t.contains(p));
            assert_eq!(starts_with(&chars, &pattern), t.starts_with(p));
            assert_eq!(ends_with(&chars, &pattern), t.ends_with(p));
            assert_eq!(same(&chars, &pattern), *t == p);
        }
    }
}

#[test]
fn integers_are_read_and_written_as_by_std() {
    let numerals = [
        "", "0", "-0", "+0", "7", "+7", "-7", "007", "12a", "a12", " 1", "1 ", "-", "+", "--1", "+-1",
        "1.0", "2147483647", "2147483648", "-2147483648", "-2147483649", "9223372036854775807",
        "9223372036854775808", "-9223372036854775808", "-9223372036854775809",
        "99999999999999999999999999999", "١٢٣",
    ];
    for n in numerals {
        let chars = chars_of(n);
        assert_eq!(parse_i64(&chars), n.parse::<i64>().ok(), "numeral {:?}", n);
        assert_eq!(parse_i32(&chars), n.parse::<i32>().ok(), "numeral {:?}", n);
    }
    for v in [0i64, 1, 9, 10, 11, 99, 100, 12345, -1, -10, -999, i64::MAX, i64::MIN, i32::MIN as i64] {
        assert_eq!(text(&int_chars(v)), v.to_string());
    }
    for v in [0u128, 5, 10, 1000, u64::MAX as u128, u128::MAX] {
        assert_eq!(text(&nat_chars(v)), v.to_string());
    }
}

//! Texts and numbers.
use codelink::number::{decimal, decimal_signed, parse_i32, parse_i64, parse_usize};
use codelink::text::{
    chars_of, find_text, is_blank, is_whitespace, join, lines, split_once, strip_prefix, text_eq,
    trim, trim_start,
};

const SAMPLES: [&str; 16] = [
    "",
    " ",
    "a",
    "\n",
    "a\n",
    "a\r\n",
    "a\r",
    "a\r\r\n",
    "\r\n\r\n",
    "a\nb",
    "a\n\nb\n",
    " \t a b \u{a0}\u{3000}",
    "\u{200b}x\u{200b}",
    "é\nü\r\nß",
    "\u{85}\u{2028}x",
    "a\n\r\nb",
];

#[test]
fn white_space_is_that_of_unicode() {
    for n in 0..=0x10ffffu32 {
        if let Some(c) = char::from_u32(n) {
            assert_eq!(is_whitespace(c), c.is_whitespace(), "{n:x}");
        }
    }
}

#[test]
fn trimming_agrees_with_std() {
    for s in SAMPLES {
        assert_eq!(trim(s), s.trim());
        assert_eq!(trim_start(s), s.trim_start());
        assert_eq!(is_blank(s), s.trim().is_empty());
    }
}

#[test]
fn lines_agree_with_std() {
    for s in SAMPLES {
        let expected: Vec<String> = s.lines().map(|line| line.to_string()).collect();
        assert_eq!(lines(s), expected, "{s:?}");
        assert_eq!(join(&expected, "\n"), expected.join("\n"));
        assert_eq!(join(&expected, ", "), expected.join(", "));
    }
}

#[test]
fn prefixes_and_splits_agree_with_std() {
    for s in SAMPLES {
        for t in SAMPLES {
            assert_eq!(strip_prefix(s, t), s.strip_prefix(t));
            assert_eq!(text_eq(s, t), s == t);
            assert_eq!(
                find_text(&chars_of(s), t).is_some(),
                s.contains(t),
                "{s:?} {t:?}"
            );
        }
        for c in ['a', '\n', ' ', 'ü'] {
            assert_eq!(split_once(s, c), s.split_once(c));
        }
    }
    assert_eq!(strip_prefix("turns=3", "turns="), Some("3"));
    assert_eq!(strip_prefix("turn", "turns"), None);
    assert_eq!(find_text(&chars_of("éab ab"), "ab"), Some(1));
}

#[test]
fn numerals_agree_with_std() {
    for n in [0u128, 7, 9, 10, 99, 100, 12345, u64::MAX as u128, u128::MAX] {
        assert_eq!(decimal(n), n.to_string());
    }
    for n in [0i64, 1, -1, 10, -10, i64::MAX, i64::MIN] {
        assert_eq!(decimal_signed(n), n.to_string());
        assert_eq!(parse_i64(&decimal_signed(n)), Some(n));
    }
}

#[test]
fn parsing_agrees_with_std() {
    for s in [
        "", "0", "+", "-", "+0", "-0", "007", "+12", "-12", "1 ", " 1", "1a", "--1", "+-1", "٣",
        "2147483647", "2147483648", "-2147483648", "-2147483649", "9223372036854775807",
        "9223372036854775808", "-9223372036854775808", "-9223372036854775809",
        "18446744073709551615", "18446744073709551616", "99999999999999999999999999999999999999999",
    ] {
        assert_eq!(parse_usize(s), s.parse::<usize>().ok(), "{s}");
        assert_eq!(parse_i64(s), s.parse::<i64>().ok(), "{s}");
        assert_eq!(parse_i32(s), s.parse::<i32>().ok(), "{s}");
    }
}

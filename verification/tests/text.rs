use xiaozhi_server::text::{
    contains, decimal, ends_with, is_blank, is_whitespace, join, parse_uint,
    split_whitespace, to_ascii_lowercase, trim, trim_end, trim_end_char,
};

const SAMPLES: &[&str] = &[
    "",
    " ",
    "a",
    " a ",
    "\u{3000}你好\u{a0}\n",
    "a b\tc",
    "  x  y  ",
    "AbC9Ä",
    "//a//",
    "///",
];

#[test]
fn white_space_is_what_unicode_says() {
    for code in 0..=0x10FFFFu32 {
        if let Some(c) = char::from_u32(code) {
            assert_eq!(is_whitespace(c), c.is_whitespace(), "{code:x}");
        }
    }
}

#[test]
fn texts_are_trimmed_and_split() {
    for s in SAMPLES {
        assert_eq!(trim(s), s.trim());
        assert_eq!(trim_end(s), s.trim_end());
        assert_eq!(trim_end_char(s, '/'), s.trim_end_matches('/'));
        assert_eq!(is_blank(s), s.trim().is_empty());
        assert_eq!(to_ascii_lowercase(s), s.to_ascii_lowercase());
        let words: Vec<String> = s.split_whitespace().map(str::to_string).collect();
        assert_eq!(split_whitespace(s), words);
        assert_eq!(join(&words, ", "), words.join(", "));
        for t in SAMPLES {
            assert_eq!(contains(s, t), s.contains(t));
            assert_eq!(ends_with(s, t), s.ends_with(t));
        }
    }
}

#[test]
fn numbers_are_read_and_written() {
    for s in ["", "+", "0", "+7", "-1", "255", "256", "007", "1a", " 1", "18446744073709551615", "18446744073709551616"] {
        assert_eq!(parse_uint(s, 255), s.parse::<u8>().ok().map(u64::from), "{s}");
        assert_eq!(parse_uint(s, u64::MAX), s.parse::<u64>().ok(), "{s}");
    }
    for n in [0, 9, 10, 99, 100, 12345, u64::MAX] {
        assert_eq!(decimal(n), n.to_string());
        assert_eq!(parse_uint(&decimal(n), u64::MAX), Some(n));
    }
}

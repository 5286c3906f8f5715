use system_monitor::text::{chars_of, is_float_text, is_white_space_char, parse_u64, text_eq, trim_bounds};

const SAMPLES: &[&str] = &[
    "", "0", "7", "+7", "-7", "+", "-", "00042", "42", " 42", "42 ", "4 2", "1.5", "1.", ".5", ".", "..5",
    "1.2.3", "1e5", "1E5", "1e+5", "1e-5", "1e", "1e+", "e5", ".e5", "1.e5", ".5e-3", "inf", "INF", "-Inf",
    "+infinity", "Infinity", "infinit", "infinityy", "nan", "NaN", "-nan", "nAn", "na", "0x10", "1_000",
    "18446744073709551615", "18446744073709551616", "99999999999999999999999", "٣", "１", "+-1", "--1",
    "1e5.0", "1e1e1", "\u{212A}", "5%", "12.5", "0.000001", "1e400", "+.5", "-.5e+7",
];

#[test]
fn parse_u64_agrees_with_std() {
    for s in SAMPLES {
        assert_eq!(parse_u64(s), s.parse::<u64>().ok(), "{:?}", s);
    }
}

#[test]
fn parse_u64_reads_values() {
    assert_eq!(parse_u64("0"), Some(0));
    assert_eq!(parse_u64("+123"), Some(123));
    assert_eq!(parse_u64("18446744073709551615"), Some(u64::MAX));
    assert_eq!(parse_u64("18446744073709551616"), None);
    assert_eq!(parse_u64("-0"), None);
    assert_eq!(parse_u64(""), None);
}

#[test]
fn float_text_agrees_with_std() {
    for s in SAMPLES {
        assert_eq!(is_float_text(s), s.parse::<f64>().is_ok(), "{:?}", s);
    }
}

#[test]
fn chars_and_text_equality() {
    assert_eq!(chars_of("añb"), vec!['a', 'ñ', 'b']);
    assert!(text_eq("añb", "añb"));
    assert!(!text_eq("añb", "anb"));
    assert!(!text_eq("ab", "abc"));
    assert!(text_eq("", ""));
}

#[test]
fn trim_bounds_match_std_trim() {
    for s in ["", "   ", " a ", "\t\n a b \r\n", "\u{2003}x\u{2029}", "x", "\u{200B}x"] {
        let v = chars_of(s);
        let (a, b) = trim_bounds(&v, 0, v.len());
        let trimmed: String = v[a..b].iter().collect();
        assert_eq!(trimmed, s.trim(), "{:?}", s);
    }
}

#[test]
fn white_space_agrees_with_std_on_every_char() {
    for u in 0..=0x10FFFFu32 {
        if let Some(c) = char::from_u32(u) {
            assert_eq!(is_white_space_char(c), c.is_whitespace(), "U+{:04X}", u);
        }
    }
}

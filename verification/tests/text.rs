use budget_master_9000::text::char_is_whitespace;
use budget_master_9000::text::{chars_of, i64_to_decimal, str_contains, str_ends_with, str_eq, trim, u64_to_decimal};

#[test]
fn contains_and_ends_with_match_std() {
    let cases = [("Groceries", "roc"), ("abc", ""), ("", ""), ("", "a"), ("aaab", "aab"), ("ab", "abc"), ("héllo", "éll")];
    for (h, n) in cases {
        assert_eq!(str_contains(h, n), h.contains(n), "{h} / {n}");
        assert_eq!(str_ends_with(h, n), h.ends_with(n), "{h} / {n}");
    }
    assert!(str_eq("same", "same"));
    assert!(!str_eq("same", "Same"));
    assert_eq!(chars_of("añb"), vec!['a', 'ñ', 'b']);
}

#[test]
fn trim_matches_std() {
    for s in ["  DELETE DATA \n", "\t", "", "x", " a b ", "\u{3000}wide\u{3000}"] {
        assert_eq!(trim(s), s.trim());
    }
}

#[test]
fn decimal_numerals() {
    assert_eq!(u64_to_decimal(0), "0");
    assert_eq!(u64_to_decimal(120), "120");
    assert_eq!(u64_to_decimal(u64::MAX), u64::MAX.to_string());
    assert_eq!(i64_to_decimal(-45), "-45");
    assert_eq!(i64_to_decimal(i64::MIN), i64::MIN.to_string());
    assert_eq!(i64_to_decimal(7), "7");
}

#[test]
fn whitespace_matches_std() {
    for u in 0u32..0x3100 {
        if let Some(c) = char::from_u32(u) {
            assert_eq!(char_is_whitespace(c), c.is_whitespace(), "U+{u:04X}");
        }
    }
    for c in ['\u{FEFF}', '\u{200B}', 'a', '\u{10FFFF}'] {
        assert_eq!(char_is_whitespace(c), c.is_whitespace());
    }
}

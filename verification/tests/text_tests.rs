use media_download::text::{
    after_last_index, find_match, has_substring, is_decimal_text, is_percentage_text,
    is_space_char, parse_u64, split,
    stem_len, to_chars, to_text, trim_bounds,
};

fn chars(s: &str) -> Vec<char> {
    s.chars().collect()
}

fn pieces(s: &str, d: &str) -> Vec<String> {
    split(&chars(s), &chars(d)).iter().map(|p| p.iter().collect::<String>()).collect()
}

#[test]
fn split_cuts_at_each_delimiter() {
    assert_eq!(pieces("a[|]b[|]c", "[|]"), vec!["a", "b", "c"]);
    assert_eq!(pieces("abc", "[|]"), vec!["abc"]);
    assert_eq!(pieces("", "[|]"), vec![""]);
    assert_eq!(pieces("[|]", "[|]"), vec!["", ""]);
    assert_eq!(pieces("a[|]", "[|]"), vec!["a", ""]);
    assert_eq!(pieces("[|]a", "[|]"), vec!["", "a"]);
    assert_eq!(pieces("a[|][|]b", "[|]"), vec!["a", "", "b"]);
    assert_eq!(pieces("a[|b|]c", "[|]"), vec!["a[|b|]c"]);
    assert_eq!(pieces("a\nb\n\nc", "\n"), vec!["a", "b", "", "c"]);
    assert_eq!(pieces("aaa", "aa"), vec!["", "a"]);
    assert_eq!(pieces("abc", ""), vec!["abc"]);
}

#[test]
fn find_match_gives_first_occurrence() {
    assert_eq!(find_match(&chars("xx[|]yy[|]"), &chars("[|]"), 0), 2);
    assert_eq!(find_match(&chars("xx[|]yy[|]"), &chars("[|]"), 3), 7);
    assert_eq!(find_match(&chars("xx[|]yy[|]"), &chars("[|]"), 8), 10);
    assert_eq!(find_match(&chars("abc"), &chars("abcd"), 0), 3);
    assert_eq!(find_match(&chars("abc"), &chars("c"), 7), 3);
    assert_eq!(find_match(&chars("abc"), &chars(""), 1), 1);
}

#[test]
fn trim_bounds_skip_white_space() {
    assert_eq!(trim_bounds(&chars("  ab c \n")), (2, 6));
    assert_eq!(trim_bounds(&chars("abc")), (0, 3));
    assert_eq!(trim_bounds(&chars("")), (0, 0));
    let (lo, hi) = trim_bounds(&chars(" \t\r\n"));
    assert_eq!(lo, hi);
    assert_eq!(trim_bounds(&chars("\u{2003}x\u{feff}")), (1, 3));
}

#[test]
fn white_space_agrees_with_std() {
    let mut code: u32 = 0;
    while code < 0x3100 {
        if let Some(c) = char::from_u32(code) {
            assert_eq!(is_space_char(c), c.is_whitespace());
        }
        code += 1;
    }
}

#[test]
fn decimal_numbers() {
    assert_eq!(parse_u64(&chars("0")), Some(0));
    assert_eq!(parse_u64(&chars("007")), Some(7));
    assert_eq!(parse_u64(&chars("+42")), Some(42));
    assert_eq!(parse_u64(&chars("+")), None);
    assert_eq!(parse_u64(&chars("")), None);
    assert_eq!(parse_u64(&chars("4 2")), None);
    assert_eq!(parse_u64(&chars("-1")), None);
    assert_eq!(parse_u64(&chars("++1")), None);
    assert_eq!(parse_u64(&chars("18446744073709551615")), Some(u64::MAX));
    assert_eq!(parse_u64(&chars("18446744073709551616")), None);
    assert_eq!(parse_u64(&chars("99999999999999999999999")), None);
    assert_eq!(parse_u64(&chars("1844674407370955161x")), None);
}

#[test]
fn decimal_numbers_agree_with_std() {
    for s in ["1", "+1", "12345678901234567890", "18446744073709551620", "1a", "", "+", "00"] {
        assert_eq!(parse_u64(&chars(s)), s.parse::<u64>().ok());
    }
}

#[test]
fn substrings() {
    assert!(has_substring(&chars("MyVideo_20240101_part"), &chars("MyVideo_20240101")));
    assert!(has_substring(&chars("abc"), &chars("")));
    assert!(has_substring(&chars(""), &chars("")));
    assert!(has_substring(&chars("abc"), &chars("c")));
    assert!(!has_substring(&chars("abc"), &chars("abcd")));
    assert!(!has_substring(&chars("abc"), &chars("ca")));
}

#[test]
fn stems() {
    assert_eq!(stem_len(&chars("video.mp4")), 5);
    assert_eq!(stem_len(&chars("archive.tar.gz")), 11);
    assert_eq!(stem_len(&chars("noext")), 5);
    assert_eq!(stem_len(&chars(".hidden")), 7);
    assert_eq!(stem_len(&chars("name.")), 4);
    assert_eq!(stem_len(&chars("")), 0);
    assert_eq!(after_last_index(&chars("/a/b/c.txt"), '/'), 5);
    assert_eq!(after_last_index(&chars("c.txt"), '/'), 0);
}

#[test]
fn conversions_keep_the_characters() {
    assert_eq!(to_chars("h\u{e9}llo \u{1f600}"), chars("h\u{e9}llo \u{1f600}"));
    assert_eq!(to_text(&chars("h\u{e9}llo \u{1f600}")), "h\u{e9}llo \u{1f600}");
}

#[test]
fn decimal_fractions() {
    assert!(is_decimal_text(&chars("45.2")));
    assert!(is_decimal_text(&chars("100.0")));
    assert!(is_decimal_text(&chars("0.125")));
    assert!(!is_decimal_text(&chars("45")));
    assert!(!is_decimal_text(&chars("45.")));
    assert!(!is_decimal_text(&chars(".2")));
    assert!(!is_decimal_text(&chars(".")));
    assert!(!is_decimal_text(&chars("")));
    assert!(!is_decimal_text(&chars("4.5.2")));
    assert!(!is_decimal_text(&chars("+4.5")));
    assert!(!is_decimal_text(&chars("4,5")));
    for s in ["45.2", "100.0", "0.125", "007.50"] {
        assert!(s.parse::<f32>().is_ok());
    }
}

#[test]
fn percentages() {
    assert!(is_percentage_text(&chars("0.0")));
    assert!(is_percentage_text(&chars("99.9")));
    assert!(is_percentage_text(&chars("100.0")));
    assert!(is_percentage_text(&chars("100.000")));
    assert!(is_percentage_text(&chars("00100.0")));
    assert!(!is_percentage_text(&chars("100.001")));
    assert!(!is_percentage_text(&chars("101.0")));
    assert!(!is_percentage_text(&chars("250.0")));
    assert!(!is_percentage_text(&chars("18446744073709551616.0")));
    assert!(!is_percentage_text(&chars("50")));
    assert!(!is_percentage_text(&chars("-1.0")));
    assert!(!is_percentage_text(&chars("")));
}

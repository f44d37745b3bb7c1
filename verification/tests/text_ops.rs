use onemorebeer_ui::pattern::first_present;
use onemorebeer_ui::text::{
    find, is_whitespace, parse_u64, replace, split_once, str_eq, strip_prefix, strip_suffix,
    trim, usize_to_decimal,
};

#[test]
fn trim_matches_std() {
    let samples = [
        "", "   ", "abc", "  a b \t", "\u{3000}x\u{a0}", "\n\r x y\u{2028}", "\u{200b}x",
        "a\u{85}", "\u{1680}\u{205f}z\u{202f}",
    ];
    for s in samples {
        assert_eq!(trim(s), s.trim(), "trimming {:?}", s);
    }
}

#[test]
fn trim_is_idempotent() {
    for s in ["  x  ", "\t\ty\u{3000}", "", "a b"] {
        let once = trim(s);
        assert_eq!(trim(&once), once);
    }
}

#[test]
fn whitespace_agrees_with_char() {
    for c in ['\t', '\n', '\u{b}', '\u{c}', '\r', ' ', '\u{85}', '\u{a0}', '\u{1680}', '\u{2000}',
        '\u{200a}', '\u{2028}', '\u{2029}', '\u{202f}', '\u{205f}', '\u{3000}', 'a', '\u{200b}',
        '\u{feff}', '0', '\u{180e}']
    {
        assert_eq!(is_whitespace(c), c.is_whitespace(), "char {:?}", c);
    }
}

#[test]
fn replace_matches_std() {
    let cases = [
        ("BUT.BUT.x", "BUT.", ""),
        ("aaa", "aa", "b"),
        ("PIWO BUTELKA 0,5 L", "BUTELKA", ""),
        ("no match here", "zz", "y"),
        ("ąęść ść", "ść", "X"),
        ("", "a", "b"),
    ];
    for (s, pat, rep) in cases {
        assert_eq!(replace(s, pat, rep), s.replace(pat, rep));
    }
}

#[test]
fn find_and_split_once() {
    assert_eq!(find("abcPROMOCJAdef", "PROMOCJA"), Some(3));
    assert_eq!(find("abc", "PROMOCJA"), None);
    assert_eq!(find("xxPROMOCJAyyPROMOCJA", "PROMOCJA"), Some(2));
    assert_eq!(
        split_once("Lager PROMOCJA -20%", "PROMOCJA"),
        Some(("Lager ".to_string(), " -20%".to_string()))
    );
    assert_eq!(split_once("Lager", "PROMOCJA"), None);
}

#[test]
fn strip_affixes() {
    assert_eq!(strip_prefix("/piwo/x", "/"), Some("piwo/x".to_string()));
    assert_eq!(strip_prefix("piwo", "/"), None);
    assert_eq!(strip_suffix("5,5%", "%"), Some("5,5".to_string()));
    assert_eq!(strip_suffix("5,5", "%"), None);
    assert_eq!(strip_suffix("%", "%"), Some(String::new()));
}

#[test]
fn string_equality() {
    assert!(str_eq("moc", "moc"));
    assert!(!str_eq("moc", "mocy"));
    assert!(!str_eq("styl", "Styl"));
    assert!(str_eq("", ""));
}

#[test]
fn decimal_formatting() {
    assert_eq!(usize_to_decimal(0), "0");
    assert_eq!(usize_to_decimal(7), "7");
    assert_eq!(usize_to_decimal(1234), "1234");
    assert_eq!(usize_to_decimal(usize::MAX), usize::MAX.to_string());
}

#[test]
fn u64_parsing_matches_std() {
    let samples = [
        "", "+", "-", "0", "+42", "-1", "12a", " 1", "007", "18446744073709551615",
        "18446744073709551616", "99999999999999999999999", "+0", "1_000",
    ];
    for s in samples {
        assert_eq!(parse_u64(s), s.parse::<u64>().ok(), "parsing {:?}", s);
    }
}

#[test]
fn decimal_round_trip() {
    for n in [0usize, 9, 10, 99, 100, 4096, 123456789, usize::MAX] {
        assert_eq!(parse_u64(&usize_to_decimal(n)), Some(n as u64));
    }
}

#[test]
fn first_present_text() {
    assert_eq!(
        first_present(vec![None, Some("4.2".to_string()), Some("1".to_string())]),
        Some("4.2".to_string())
    );
    assert_eq!(first_present(vec![None, None]), None);
    assert_eq!(first_present(vec![]), None);
}

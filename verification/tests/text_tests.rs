use market_engine::text::{lower_eq, parse_usize, push_decimal, split_at_separator, split_whitespace, str_eq, trims_to_empty};

#[test]
fn decimal_representation_of_numbers() {
    for (n, s) in [(0usize, "0"), (7, "7"), (10, "10"), (255, "255"), (1_000_000, "1000000")] {
        let mut out = String::from("n=");
        push_decimal(&mut out, n);
        assert_eq!(out, format!("n={}", s));
    }
    let mut out = String::new();
    push_decimal(&mut out, usize::MAX);
    assert_eq!(out, usize::MAX.to_string());
}

#[test]
fn usize_parsing_follows_from_str() {
    for s in ["0", "42", "+7", "007", "18446744073709551615", "", "+", "-1", " 1", "1 ", "1_000", "18446744073709551616", "٣"] {
        assert_eq!(parse_usize(s), s.parse::<usize>().ok(), "input {:?}", s);
    }
}

#[test]
fn whitespace_split_follows_split_whitespace() {
    for s in ["", "   ", "a", " a  b\tc\n", "x\u{a0}y\u{2003}z", "\u{85}lead trail\u{3000}"] {
        let expected: Vec<String> = s.split_whitespace().map(|w| w.to_string()).collect();
        assert_eq!(split_whitespace(s), expected, "input {:?}", s);
    }
}

#[test]
fn separator_split_follows_splitn() {
    for s in ["a: b", "a:b", "a: b: c", ": ", "x:", "ab", ""] {
        let mut parts = s.splitn(2, ": ");
        let first = parts.next().map(|p| p.to_string());
        let second = parts.next().map(|p| p.to_string());
        let expected = match (first, second) {
            (Some(a), Some(b)) => Some((a, b)),
            _ => None,
        };
        assert_eq!(split_at_separator(s), expected, "input {:?}", s);
    }
}

#[test]
fn string_comparisons() {
    assert!(str_eq("abc", "abc"));
    assert!(!str_eq("abc", "abd"));
    assert!(lower_eq("Content-LENGTH", "content-length"));
    assert!(!lower_eq("Content-Lengths", "content-length"));
    assert!(trims_to_empty(" \t\u{2028}"));
    assert!(!trims_to_empty(" x "));
}

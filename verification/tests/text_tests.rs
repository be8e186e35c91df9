use sugata::text::{decimal_string, parse_usize, starts_with};

#[test]
fn decimal_renders_digits() {
    assert_eq!(decimal_string(0), "0");
    assert_eq!(decimal_string(7), "7");
    assert_eq!(decimal_string(10), "10");
    assert_eq!(decimal_string(1234567890), "1234567890");
    assert_eq!(decimal_string(usize::MAX), usize::MAX.to_string());
}

#[test]
fn parse_accepts_what_std_accepts() {
    for s in ["0", "42", "+7", "007", "18446744073709551615", "4294967295"] {
        assert_eq!(parse_usize(s), s.parse::<usize>().ok(), "{}", s);
    }
    assert_eq!(parse_usize("42"), Some(42));
    assert_eq!(parse_usize("+7"), Some(7));
}

#[test]
fn parse_rejects_what_std_rejects() {
    for s in ["", "+", "-", "-1", "1-", "12a", " 1", "1 ", "１", "99999999999999999999999"] {
        assert_eq!(parse_usize(s), None, "{}", s);
        assert_eq!(s.parse::<usize>().ok(), None, "{}", s);
    }
}

#[test]
fn prefix_test_matches_std() {
    for (s, p) in [("目星", "目"), ("目星", ""), ("目星", "星"), ("SAN", "SAN"), ("SA", "SAN"), ("", "")] {
        assert_eq!(starts_with(s, p), s.starts_with(p), "{} {}", s, p);
    }
}

#[test]
fn decimal_reads_back() {
    for n in [0usize, 1, 9, 10, 99, 100, 65535, 1234567, usize::MAX] {
        assert_eq!(parse_usize(&decimal_string(n)), Some(n));
    }
}

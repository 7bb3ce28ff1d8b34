use antigen::text::{parse_usize, push_decimal, usize_to_string};

#[test]
fn parse_usize_cases() {
    assert_eq!(parse_usize("0"), Some(0));
    assert_eq!(parse_usize("42"), Some(42));
    assert_eq!(parse_usize("+7"), Some(7));
    assert_eq!(parse_usize("007"), Some(7));
    assert_eq!(parse_usize(""), None);
    assert_eq!(parse_usize("+"), None);
    assert_eq!(parse_usize("-1"), None);
    assert_eq!(parse_usize("1 "), None);
    assert_eq!(parse_usize("1a"), None);
    assert_eq!(parse_usize("18446744073709551615"), "18446744073709551615".parse::<usize>().ok());
    assert_eq!(parse_usize("18446744073709551616"), None);
}

#[test]
fn parse_usize_agrees_with_std() {
    for s in ["12", "+3", "0004", "", "x", "99999999999999999999", "-0", "1_0"] {
        assert_eq!(parse_usize(s), s.parse::<usize>().ok(), "{}", s);
    }
}

#[test]
fn decimal_roundtrip() {
    for n in [0usize, 1, 9, 10, 99, 100, 12345, usize::MAX] {
        let s = usize_to_string(n);
        assert_eq!(s, format!("{}", n));
        assert_eq!(parse_usize(&s), Some(n));
    }
}

#[test]
fn push_decimal_appends() {
    let mut cs = vec!['a'];
    push_decimal(305, &mut cs);
    assert_eq!(cs, vec!['a', '3', '0', '5']);
}

use tmo_catalog::text::{chars_of, find_chars, parse_decimal, push_decimal, same_text, trim};

#[test]
fn trimming() {
    assert_eq!(trim("  a b \n"), "a b");
    assert_eq!(trim("\u{3000}x\u{a0}"), "x");
    assert_eq!(trim("   "), "");
    assert_eq!(trim(""), "");
    assert_eq!(trim("é"), "é");
}

#[test]
fn decimals() {
    assert_eq!(parse_decimal("42", 100), Some(42));
    assert_eq!(parse_decimal("+42", 100), Some(42));
    assert_eq!(parse_decimal("007", 100), Some(7));
    assert_eq!(parse_decimal("101", 100), None);
    assert_eq!(parse_decimal("", 100), None);
    assert_eq!(parse_decimal("+", 100), None);
    assert_eq!(parse_decimal("-1", 100), None);
    assert_eq!(parse_decimal("1a", 100), None);
    assert_eq!(parse_decimal("18446744073709551615", u64::MAX), Some(u64::MAX));
    assert_eq!(parse_decimal("18446744073709551616", u64::MAX), None);
    let mut s = String::from("n=");
    push_decimal(&mut s, 1234567890);
    assert_eq!(s, "n=1234567890");
}

#[test]
fn searching() {
    let s = chars_of("abcabc");
    assert_eq!(find_chars(&s, &chars_of("ca"), 0), Some(2));
    assert_eq!(find_chars(&s, &chars_of("bc"), 2), Some(4));
    assert_eq!(find_chars(&s, &chars_of("x"), 0), None);
    assert!(same_text("ab", "ab"));
    assert!(!same_text("ab", "abc"));
}

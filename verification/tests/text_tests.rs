use discord_tui::text::{find, owned, parse_u64, push_decimal, push_signed_decimal, same_text, starts_with, trimmed};

fn dec(n: u64) -> String {
    let mut s = String::new();
    push_decimal(&mut s, n);
    s
}

#[test]
fn decimal_notation() {
    assert_eq!(dec(0), "0");
    assert_eq!(dec(7), "7");
    assert_eq!(dec(1234), "1234");
    assert_eq!(dec(u64::MAX), "18446744073709551615");
    let mut s = owned("n-");
    push_signed_decimal(&mut s, -42);
    assert_eq!(s, "n--42");
    let mut t = String::new();
    push_signed_decimal(&mut t, i64::MIN);
    assert_eq!(t, "-9223372036854775808");
}

#[test]
fn parse_u64_like_std() {
    for case in ["0", "42", "+42", "", "+", "-1", "12a", "18446744073709551615", "18446744073709551616", "007", " 1"] {
        assert_eq!(parse_u64(case), case.parse::<u64>().ok(), "case {:?}", case);
    }
}

#[test]
fn parse_reads_back_decimal() {
    for n in [0u64, 9, 10, 99, 100, 1_000_000_007, u64::MAX] {
        assert_eq!(parse_u64(&dec(n)), Some(n));
    }
}

#[test]
fn trim_like_std() {
    for case in ["", "   ", " a b ", "\t\nx\u{3000}", "x", "\u{85}y\u{a0}"] {
        assert_eq!(trimmed(case), case.trim());
    }
}

#[test]
fn find_and_prefix() {
    assert_eq!(find("abcabc", "ca"), Some(2));
    assert_eq!(find("abc", "d"), None);
    assert_eq!(find("abc", ""), Some(0));
    assert_eq!(find("ünï|x", "|"), Some(3));
    assert!(starts_with("err-close", "err-"));
    assert!(!starts_with("er", "err-"));
    assert!(same_text("abc", "abc"));
    assert!(!same_text("abc", "abd"));
}

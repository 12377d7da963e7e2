use ses_mailer::text::{i32_text, parse_i32, str_eq};

#[test]
fn i32_text_writes_decimal() {
    assert_eq!(i32_text(0), "0");
    assert_eq!(i32_text(7), "7");
    assert_eq!(i32_text(1234), "1234");
    assert_eq!(i32_text(-56), "-56");
    assert_eq!(i32_text(i32::MAX), "2147483647");
    assert_eq!(i32_text(i32::MIN), "-2147483648");
}

#[test]
fn parse_i32_reads_as_std_does() {
    let samples = [
        "0", "12", "+12", "-12", "-0", "007", "2147483647", "2147483648", "-2147483648",
        "-2147483649", "", "+", "-", "1a", " 1", "1 ", "--1", "+-1", "99999999999999",
        "١٢", "12345678901234567890",
    ];
    for s in samples {
        assert_eq!(parse_i32(s), s.parse::<i32>().ok(), "input {:?}", s);
    }
}

#[test]
fn i32_text_reads_back() {
    for n in [0, 1, -1, 42, -42, 1000000, i32::MAX, i32::MIN] {
        assert_eq!(parse_i32(&i32_text(n)), Some(n));
    }
}

#[test]
fn str_eq_compares_text() {
    assert!(str_eq("Notification", "Notification"));
    assert!(!str_eq("Notification", "notification"));
    assert!(!str_eq("ab", "abc"));
    assert!(str_eq("", ""));
}

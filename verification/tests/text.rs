use sponsorblock_mirror::text::append_decimal;
use sponsorblock_mirror::text::parse_decimal;
use sponsorblock_mirror::text::same_text;

#[test]
fn same_text_compares_the_characters() {
    assert!(same_text("", ""));
    assert!(same_text("chapter", "chapter"));
    assert!(!same_text("chapter", "chapters"));
    assert!(!same_text("chapter", "chapteR"));
    assert!(!same_text("", "a"));
    assert!(same_text("\u{e9}t\u{e9}", "\u{e9}t\u{e9}"));
    assert!(!same_text("\u{e9}", "e\u{301}"));
}

#[test]
fn append_decimal_writes_the_digits() {
    let mut out = String::from("n=");
    append_decimal(&mut out, 0);
    assert_eq!(out, "n=0");
    append_decimal(&mut out, 1234567890);
    assert_eq!(out, "n=01234567890");
    let mut out = String::new();
    append_decimal(&mut out, u64::MAX);
    assert_eq!(out, "18446744073709551615");
    for n in [7u64, 10, 99, 100, 101, 8001, 65535, 1_000_000_007] {
        let mut out = String::new();
        append_decimal(&mut out, n);
        assert_eq!(out, n.to_string());
    }
}

#[test]
fn parse_decimal_reads_plain_numbers() {
    assert_eq!(parse_decimal("0", 10), Some(0));
    assert_eq!(parse_decimal("10", 10), Some(10));
    assert_eq!(parse_decimal("11", 10), None);
    assert_eq!(parse_decimal("+7", 10), Some(7));
    assert_eq!(parse_decimal("007", 10), Some(7));
    assert_eq!(parse_decimal("0000000000000000000000000000000000009", 10), Some(9));
    assert_eq!(parse_decimal("18446744073709551615", u64::MAX), Some(u64::MAX));
    assert_eq!(parse_decimal("18446744073709551616", u64::MAX), None);
    assert_eq!(parse_decimal("99999999999999999999999", u64::MAX), None);
    assert_eq!(parse_decimal("5", 0), None);
    assert_eq!(parse_decimal("0", 0), Some(0));
}

#[test]
fn parse_decimal_refuses_everything_else() {
    for text in ["", "+", "-", "-1", "++1", "+-1", "1+", " 1", "1 ", "1_000", "1e3", "0x10",
        "1.0", "\u{661}\u{662}", "1\u{e9}", "\u{e9}", "+\u{e9}", "one"]
    {
        assert_eq!(parse_decimal(text, u64::MAX), None);
    }
}

#[test]
fn parse_decimal_agrees_with_the_standard_parser() {
    let pieces = ["", "+", "-", "0", "1", "9", "65535", "65536", " ", "a", "\u{e9}", "00",
        "18446744073709551615", "18446744073709551616", "4294967296"];
    for a in pieces {
        for b in pieces {
            for c in pieces {
                let text = format!("{}{}{}", a, b, c);
                assert_eq!(parse_decimal(&text, u64::MAX), text.parse::<u64>().ok());
                assert_eq!(
                    parse_decimal(&text, 65535),
                    text.parse::<u16>().ok().map(|n| n as u64)
                );
            }
        }
    }
}

#[test]
fn written_numbers_are_read_back() {
    for n in [0u64, 1, 9, 10, 11, 99, 100, 8001, 65535, 65536, u64::MAX - 1, u64::MAX] {
        let mut out = String::new();
        append_decimal(&mut out, n);
        assert_eq!(parse_decimal(&out, u64::MAX), Some(n));
    }
}

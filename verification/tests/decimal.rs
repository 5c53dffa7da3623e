use unstorage::decimal::{parse_decimal, to_decimal};

#[test]
fn to_decimal_writes_plain_numerals() {
    assert_eq!(to_decimal(0), "0");
    assert_eq!(to_decimal(7), "7");
    assert_eq!(to_decimal(60), "60");
    assert_eq!(to_decimal(1234567890), "1234567890");
    assert_eq!(to_decimal(u64::MAX), "18446744073709551615");
}

#[test]
fn parse_decimal_reads_what_the_standard_library_reads() {
    let samples = [
        "", "0", "7", "007", "60", "+60", "+", "-", "-0", "-5", "++5", "+-5", " 5", "5 ", "5_0",
        "18446744073709551615", "18446744073709551616", "+18446744073709551615",
        "99999999999999999999999", "12a", "a12", "1.5", "0x10", "\u{0661}", "1\u{00a0}",
        "000000000000000000000000000001",
    ];
    for text in samples {
        assert_eq!(parse_decimal(text), text.parse::<u64>().ok(), "on {:?}", text);
    }
}

use vendor_timers::number::decimal_text;
use vendor_timers::number::i64_text;
use vendor_timers::number::parse_i64;
use vendor_timers::number::two_digit_text;

#[test]
fn numbers_are_read_as_the_standard_library_reads_them() {
    for s in [
        "", "+", "-", "+-1", "0", "-0", "+0", "007", "12a", " 1", "1 ", "1_000", "١",
        "9223372036854775807", "9223372036854775808", "-9223372036854775808",
        "-9223372036854775809", "92233720368547758070", "+9223372036854775807",
        "00000000000000000000000000000000000000000042", "18446744073709551616", "--1",
    ] {
        assert_eq!(parse_i64(s), s.parse::<i64>().ok(), "{s}");
    }
    assert_eq!(parse_i64("-42"), Some(-42));
    assert_eq!(parse_i64("+17"), Some(17));
}

#[test]
fn numbers_are_written_and_read_back() {
    for n in [0, 1, -1, 9, 10, 99, 100, -100, 12345, i64::MAX, i64::MIN, i64::MIN + 1] {
        assert_eq!(i64_text(n), n.to_string());
        assert_eq!(parse_i64(&i64_text(n)), Some(n));
    }
    assert_eq!(decimal_text(18446744073709551615), "18446744073709551615");
}

#[test]
fn short_numbers_get_two_digits() {
    assert_eq!(two_digit_text(0), "00");
    assert_eq!(two_digit_text(7), "07");
    assert_eq!(two_digit_text(10), "10");
    assert_eq!(two_digit_text(123), "123");
}

use ground_business::oracle::parse_time;

#[test]
fn time_is_a_run_of_decimal_digits() {
    assert_eq!(parse_time("0"), Some(0));
    assert_eq!(parse_time("1660000000"), Some(1_660_000_000));
    assert_eq!(parse_time("007"), Some(7));
    assert_eq!(parse_time("+42"), Some(42));
    assert_eq!(parse_time("18446744073709551615"), Some(u64::MAX));
}

#[test]
fn time_that_is_no_count_of_seconds_is_absent() {
    assert_eq!(parse_time(""), None);
    assert_eq!(parse_time("+"), None);
    assert_eq!(parse_time("-1"), None);
    assert_eq!(parse_time("12a"), None);
    assert_eq!(parse_time(" 12"), None);
    assert_eq!(parse_time("1.5"), None);
    assert_eq!(parse_time("++1"), None);
    assert_eq!(parse_time("18446744073709551616"), None);
    assert_eq!(parse_time("99999999999999999999999"), None);
}

#[test]
fn time_reads_as_the_standard_parser_does() {
    let samples = ["0", "+0", "123", "+", "", "1_000", "٣", "18446744073709551615", "18446744073709551616"];
    for sample in samples {
        assert_eq!(parse_time(sample), sample.parse::<u64>().ok());
    }
}

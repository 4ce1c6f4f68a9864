use web_link::clock::timeval_from_millis;

#[test]
fn clock_truncates_to_whole_seconds() {
    assert_eq!(timeval_from_millis(1_699_999_999_123), (1_699_999_999, 0));
}

#[test]
fn clock_reports_zero_microseconds() {
    assert_eq!(timeval_from_millis(999), (0, 0));
    assert_eq!(timeval_from_millis(1000), (1, 0));
    assert_eq!(timeval_from_millis(0), (0, 0));
}

use ergodox_display::build_info::build_timestamp;

#[test]
fn timestamps_read_as_numbers() {
    assert_eq!(build_timestamp("1725029869"), 1725029869);
    assert_eq!(build_timestamp("0"), 0);
    assert_eq!(build_timestamp("007"), 7);
    assert_eq!(build_timestamp("+42"), 42);
    assert_eq!(build_timestamp("18446744073709551615"), u64::MAX);
}

#[test]
fn bad_timestamps_read_as_zero() {
    for text in ["", "+", "-1", " 1", "1 ", "12a", "18446744073709551616", "99999999999999999999999"] {
        assert_eq!(build_timestamp(text), 0, "{text:?}");
        assert_eq!(text.parse::<u64>().unwrap_or(0), 0);
    }
}

#[test]
fn timestamps_agree_with_std_parse() {
    for text in ["1", "+0", "0000000000000000000001", "123456789012345678", "18446744073709551615", "+18446744073709551615"] {
        assert_eq!(build_timestamp(text), text.parse::<u64>().unwrap_or(0), "{text:?}");
    }
}

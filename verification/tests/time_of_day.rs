use thetadatadx::time_of_day::normalize_time_of_day;

#[test]
fn normalize_time_of_day_accepts_legacy_milliseconds() {
    assert_eq!(normalize_time_of_day("34200000"), "09:30:00.000");
}

#[test]
fn normalize_time_of_day_accepts_short_formatted_values() {
    assert_eq!(normalize_time_of_day("09:30"), "09:30:00.000");
    assert_eq!(normalize_time_of_day("09:30:00"), "09:30:00.000");
    assert_eq!(normalize_time_of_day("09:30:00.5"), "09:30:00.500");
}

#[test]
fn normalize_time_of_day_preserves_invalid_values_for_server_rejection() {
    assert_eq!(normalize_time_of_day("86400000"), "86400000");
    assert_eq!(normalize_time_of_day("09:61"), "09:61");
    assert_eq!(normalize_time_of_day("not-a-time"), "not-a-time");
}

#[test]
fn normalize_time_of_day_edge_cases() {
    assert_eq!(normalize_time_of_day("0"), "00:00:00.000");
    assert_eq!(normalize_time_of_day("86399999"), "23:59:59.999");
    assert_eq!(normalize_time_of_day(""), "");
    assert_eq!(normalize_time_of_day("9:5"), "09:05:00.000");
    assert_eq!(normalize_time_of_day("+9:30"), "09:30:00.000");
    assert_eq!(normalize_time_of_day("16:00:00.25"), "16:00:00.250");
    assert_eq!(normalize_time_of_day("16:00:00.123"), "16:00:00.123");
    assert_eq!(normalize_time_of_day("16:00:00.1234"), "16:00:00.1234");
    assert_eq!(normalize_time_of_day("16:00:00."), "16:00:00.");
    assert_eq!(normalize_time_of_day("16:00:00:00"), "16:00:00:00");
    assert_eq!(normalize_time_of_day("24:00"), "24:00");
    assert_eq!(normalize_time_of_day("12:00:60"), "12:00:60");
    assert_eq!(normalize_time_of_day("99999999999999999999999"), "99999999999999999999999");
    assert_eq!(normalize_time_of_day("09:30é"), "09:30é");
}

#[test]
fn normalizing_twice_is_normalizing_once() {
    for input in ["34200000", "9:30", "09:30:00.5", "16:00:00.000", "24:00", "abc", "", "86400000", "+1:2:3.04"] {
        let once = normalize_time_of_day(input);
        assert_eq!(normalize_time_of_day(&once), once, "{input}");
    }
}

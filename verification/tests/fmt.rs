use miz::common::fmt::{chrono_like, format_date, format_size, i64_to_string, join_string_list};

#[test]
fn chrono_like_rejects_out_of_range() {
    assert_eq!(chrono_like(-5), "-5");
    assert_eq!(chrono_like(i64::MAX), i64::MAX.to_string());
    assert!(chrono_like(0).starts_with("1970-01-01"));
}

#[test]
fn format_date_renders_utc_calendar() {
    assert_eq!(format_date(0), "1970-01-01 00:00:00 UTC");
    assert_eq!(format_date(951782400), "2000-02-29 00:00:00 UTC");
    assert_eq!(format_date(1700000000), "2023-11-14 22:13:20 UTC");
    assert_eq!(format_date(253_402_300_799), "9999-12-31 23:59:59 UTC");
    assert_eq!(format_date(253_402_300_800), "253402300800");
}

#[test]
fn format_size_picks_binary_units() {
    assert_eq!(format_size(0), "0.00 B");
    assert_eq!(format_size(1023), "1023.00 B");
    assert_eq!(format_size(1024), "1.00 KiB");
    assert_eq!(format_size(1536), "1.50 KiB");
    assert_eq!(format_size(1048576), "1.00 MiB");
    assert_eq!(format_size(1099511627776 * 2048), "2048.00 TiB");
    assert_eq!(format_size(-5), "-5.00 B");
}

#[test]
fn format_size_rounds_half_to_even() {
    // 1029 / 1024 = 1.0048828125 -> "1.00"; 1034 / 1024 = 1.009765625 -> "1.01"
    assert_eq!(format_size(1029), "1.00 KiB");
    assert_eq!(format_size(1034), "1.01 KiB");
}

#[test]
fn join_string_list_uses_two_spaces_or_none() {
    assert_eq!(join_string_list(vec![], "None"), "None");
    assert_eq!(
        join_string_list(vec!["a".to_string(), "b".to_string()], "None"),
        "a  b"
    );
}

#[test]
fn i64_to_string_handles_extremes() {
    assert_eq!(i64_to_string(i64::MIN), i64::MIN.to_string());
    assert_eq!(i64_to_string(0), "0");
}

#[test]
fn format_size_rounds_through_the_f64_value() {
    // 1239291447001093243 is not an f64; as one it is 1239291447001093120.
    assert_eq!(format_size(1239291447001093243), "1127129.00 TiB");
    assert_eq!(format_size(i64::MAX), "8388608.00 TiB");
    assert_eq!(format_size(-(1i64 << 62) - 1), "-4611686018427387904.00 B");
    assert_eq!(format_size(9007199254740993), "8192.00 TiB");
}

#[test]
fn chrono_like_follows_the_gregorian_leap_rule() {
    assert_eq!(chrono_like(951868800), "2000-03-01 00:00:00 UTC");
    assert_eq!(chrono_like(4107542400), "2100-03-01 00:00:00 UTC");
    assert_eq!(chrono_like(951782400), "2000-02-29 00:00:00 UTC");
    assert_eq!(chrono_like(i64::MAX), i64::MAX.to_string());
}

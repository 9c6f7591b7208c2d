use sysmon::fmt::{format_bytes, format_duration, u64_to_string};

#[test]
fn decimal_rendering() {
    assert_eq!(u64_to_string(0), "0");
    assert_eq!(u64_to_string(7), "7");
    assert_eq!(u64_to_string(1234567890), "1234567890");
    assert_eq!(u64_to_string(u64::MAX), "18446744073709551615");
}

#[test]
fn duration_formats_by_largest_unit() {
    assert_eq!(format_duration(59), "0m");
    assert_eq!(format_duration(60), "1m");
    assert_eq!(format_duration(3661), "1h 1m");
    assert_eq!(format_duration(90061), "1d 1h 1m");
    assert_eq!(format_duration(86400), "1d 0h 0m");
    assert_eq!(format_duration(0), "0m");
}

#[test]
fn bytes_format_by_largest_unit() {
    assert_eq!(format_bytes(0), "0 B");
    assert_eq!(format_bytes(500), "500 B");
    assert_eq!(format_bytes(1023), "1023 B");
    assert_eq!(format_bytes(1024), "1.0 KB");
    assert_eq!(format_bytes(1536), "1.5 KB");
    assert_eq!(format_bytes(1024 * 1024), "1.0 MB");
    assert_eq!(format_bytes(5 * 1024 * 1024 * 1024), "5.0 GB");
    assert_eq!(format_bytes(1024 * 1024 * 1024 * 1024), "1.0 TB");
}

#[test]
fn bytes_round_to_nearest_tenth_ties_to_even() {
    // 1280 / 1024 is exactly 1.25: the tie rounds to the even tenth
    assert_eq!(format_bytes(1280), "1.2 KB");
    // 1408 / 1024 = 1.375 rounds up to 1.4
    assert_eq!(format_bytes(1408), "1.4 KB");
    // 1792 / 1024 = 1.75: tie rounds to the even tenth 1.8
    assert_eq!(format_bytes(1792), "1.8 KB");
    // just below the next unit the value rounds up past it
    assert_eq!(format_bytes(1024 * 1024 - 1), "1024.0 KB");
}

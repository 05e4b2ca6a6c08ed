use clipimg::civil::days_to_ymd;
use clipimg::logger::{
    format_file_stamp,
    filename_timestamp, format_log_timestamp, format_timestamp_from_secs_millis, local_time_from_unix,
    log_size_limit_bytes, now_timestamp,
};

/// Days since 1970-01-01 to a date, by the era-based civil algorithm.
fn reference_days(y: i64, m: i64, d: i64) -> i64 {
    let y = if m <= 2 { y - 1 } else { y };
    let era = y.div_euclid(400);
    let yoe = y - era * 400;
    let mp = (m + 9) % 12;
    let doy = (153 * mp + 2) / 5 + d - 1;
    let doe = yoe * 365 + yoe / 4 - yoe / 100 + doy;
    era * 146097 + doe - 719468
}

#[test]
fn test_timestamp_naming_format() {
    let timestamp = filename_timestamp();
    let name = format!("clip_{}.png", timestamp);
    assert!(name.starts_with("clip_"));
    assert!(name.ends_with(".png"));
    assert_eq!(name.len(), 27);
}

#[test]
fn days_to_ymd_known_dates() {
    assert_eq!(days_to_ymd(0), (1970, 1, 1));
    assert_eq!(days_to_ymd(31), (1970, 2, 1));
    assert_eq!(days_to_ymd(365), (1971, 1, 1));
    assert_eq!(days_to_ymd(10956), (1999, 12, 31));
    assert_eq!(days_to_ymd(11016), (2000, 2, 29));
    assert_eq!(days_to_ymd(19782), (2024, 2, 29));
    assert_eq!(days_to_ymd(19783), (2024, 3, 1));
    assert_eq!(days_to_ymd(47541), (2100, 3, 1));
}

#[test]
fn days_to_ymd_round_trips_over_centuries() {
    for days in (0..200_000i64).step_by(7) {
        let (y, m, d) = days_to_ymd(days);
        assert_eq!(reference_days(y as i64, m as i64, d as i64), days);
    }
}

#[test]
fn days_to_ymd_negative_counts() {
    assert_eq!(days_to_ymd(-5), (1970, 1, 4294967292));
    assert_eq!(days_to_ymd(-1), (1970, 1, 0));
}

#[test]
fn file_timestamp_of_known_instants() {
    assert_eq!(format_timestamp_from_secs_millis(0, 5), "19700101_080000005");
    // 2026-04-07 04:00:00 UTC is 12:00:00 at UTC+8.
    assert_eq!(format_timestamp_from_secs_millis(1775534400, 123), "20260407_120000123");
    assert_eq!(format_timestamp_from_secs_millis(1775534400, 1234), "20260407_1200001234");
}

#[test]
fn local_time_and_log_timestamp() {
    assert_eq!(local_time_from_unix(1775534400), (2026, 4, 7, 12, 0, 0));
    assert_eq!(local_time_from_unix(57599), (1970, 1, 1, 23, 59, 59));
    assert_eq!(format_log_timestamp((2026, 4, 7, 9, 5, 3)), "2026-04-07 09:05:03");
    assert_eq!(format_log_timestamp((12345, 12, 31, 23, 59, 59)), "12345-12-31 23:59:59");
    assert_eq!(now_timestamp().len(), 19);
}

#[test]
fn log_size_limit_has_a_floor_of_one_megabyte() {
    assert_eq!(log_size_limit_bytes(0), 1048576);
    assert_eq!(log_size_limit_bytes(1), 1048576);
    assert_eq!(log_size_limit_bytes(5), 5 * 1048576);
    assert_eq!(log_size_limit_bytes(u32::MAX), u32::MAX as u64 * 1048576);
}

#[test]
fn file_stamp_of_broken_down_time() {
    assert_eq!(format_file_stamp((2026, 4, 7, 9, 5, 3), 7), "20260407_090503007");
    assert_eq!(format_file_stamp((2026, 12, 31, 23, 59, 59), 999), "20261231_235959999");
}

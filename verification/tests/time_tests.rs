use winbox_stats::parse::parse_ts;
use winbox_stats::timefmt::{collect_message, format_timestamp, month_prefix_yyyymm, scope_filename};

#[test]
fn parses_the_plain_format() {
    assert_eq!(parse_ts("2025-11-03 10:00:00"), Some(1762164000));
}

#[test]
fn parses_the_alternate_formats() {
    assert_eq!(parse_ts("2025/11/03 10:00:00"), Some(1762164000));
    assert_eq!(parse_ts("2025-11-03T10:00:00"), Some(1762164000));
    assert_eq!(parse_ts("2025-11-03 10:00:00.5"), Some(1762164000));
    assert_eq!(parse_ts("2025-11-03T10:00:00.123456789"), Some(1762164000));
}

#[test]
fn rejects_malformed_timestamps() {
    assert_eq!(parse_ts(""), None);
    assert_eq!(parse_ts("garbage"), None);
    assert_eq!(parse_ts("2025-13-01 00:00:00"), None);
    assert_eq!(parse_ts("2025-11-31 00:00:00"), None);
    assert_eq!(parse_ts("2025-02-29 00:00:00"), None);
    assert_eq!(parse_ts("2024-02-29 00:00:00"), Some(1709164800));
    assert_eq!(parse_ts("2025-11-03 24:00:00"), None);
    assert_eq!(parse_ts("2025-11-03 10:60:00"), None);
    assert_eq!(parse_ts("2025/11/03T10:00:00"), None);
    assert_eq!(parse_ts("2025/11/03 10:00:00.5"), None);
    assert_eq!(parse_ts("2025-11-03 10:00:00."), None);
    assert_eq!(parse_ts("2025-11-03 10:00:00.1234567890"), None);
    assert_eq!(parse_ts("2025-11-03 10:00:00 trailing"), None);
}

#[test]
fn formats_timestamps() {
    assert_eq!(format_timestamp(2025, 11, 3, 10, 0, 0), "2025-11-03 10:00:00");
    assert_eq!(format_timestamp(99, 1, 1, 23, 59, 59), "0099-01-01 23:59:59");
}

#[test]
fn format_then_parse_is_identity() {
    let text = format_timestamp(2025, 11, 3, 10, 0, 0);
    assert_eq!(parse_ts(&text), Some(1762164000));
    let text = format_timestamp(2025, 12, 31, 23, 0, 0);
    assert_eq!(parse_ts(&text), Some(1767222000));
}

#[test]
fn scope_names() {
    assert_eq!(month_prefix_yyyymm(2025, 11), "202511");
    assert_eq!(month_prefix_yyyymm(987, 3), "098703");
    assert_eq!(scope_filename("202511", "MYHOST"), "202511@MYHOST.sqlite");
    assert_eq!(
        collect_message("202511@MYHOST.sqlite", "2025-11-03 10:00:00"),
        "Wrote record into 202511@MYHOST.sqlite at 2025-11-03 10:00:00"
    );
}

use imessage_database::dates::{format_duration, get_offset, readable_diff, LocalTimestamp};

fn at(seconds: i64) -> LocalTimestamp {
    LocalTimestamp { seconds }
}

#[test]
fn can_get_offset() {
    assert_eq!(get_offset(), 978307200);
}

#[test]
fn can_format_absent_date_as_empty() {
    assert_eq!(imessage_database::dates::format(&None), String::new());
}

#[test]
fn cant_format_diff_backwards() {
    // 2020-05-20 09:10:30 down to 09:10:11
    let start = at(1589965830);
    let end = at(1589965811);
    assert_eq!(readable_diff(start, end), None)
}

#[test]
fn can_format_diff_all_signular() {
    // 2020-05-20 09:10:11 to 2020-05-21 10:11:12
    let start = at(1589965811);
    let end = at(1590055872);
    assert_eq!(
        readable_diff(start, end),
        Some("1 day, 1 hour, 1 minute, 1 second".to_owned())
    )
}

#[test]
fn can_format_diff_mixed_signular() {
    // 2020-05-20 09:10:11 to 2020-05-22 10:20:12
    let start = at(1589965811);
    let end = at(1590142812);
    assert_eq!(
        readable_diff(start, end),
        Some("2 days, 1 hour, 10 minutes, 1 second".to_owned())
    )
}

#[test]
fn can_format_diff_seconds() {
    // 2020-05-20 09:10:11 to 09:10:30
    let start = at(1589965811);
    let end = at(1589965830);
    assert_eq!(readable_diff(start, end), Some("19 seconds".to_owned()))
}

#[test]
fn can_format_diff_minutes() {
    // 2020-05-20 09:10:11 to 09:15:11
    let start = at(1589965811);
    let end = at(1589966111);
    assert_eq!(readable_diff(start, end), Some("5 minutes".to_owned()))
}

#[test]
fn can_format_diff_hours() {
    // 2020-05-20 09:10:11 to 12:10:11
    let start = at(1589965811);
    let end = at(1589976611);
    assert_eq!(readable_diff(start, end), Some("3 hours".to_owned()))
}

#[test]
fn can_format_diff_days() {
    // 2020-05-20 09:10:11 to 2020-05-30 09:10:11
    let start = at(1589965811);
    let end = at(1590829811);
    assert_eq!(readable_diff(start, end), Some("10 days".to_owned()))
}

#[test]
fn can_format_diff_minutes_seconds() {
    // 2020-05-20 09:10:11 to 09:15:30
    let start = at(1589965811);
    let end = at(1589966130);
    assert_eq!(
        readable_diff(start, end),
        Some("5 minutes, 19 seconds".to_owned())
    )
}

#[test]
fn can_format_diff_days_minutes() {
    // 2020-05-20 09:10:11 to 2020-05-22 09:30:11
    let start = at(1589965811);
    let end = at(1590139811);
    assert_eq!(
        readable_diff(start, end),
        Some("2 days, 20 minutes".to_owned())
    )
}

#[test]
fn can_format_diff_month() {
    // 2020-05-20 09:10:11 to 2020-07-20 09:10:11
    let start = at(1589965811);
    let end = at(1595236211);
    assert_eq!(readable_diff(start, end), Some("61 days".to_owned()))
}

#[test]
fn can_format_diff_year() {
    // 2020-05-20 09:10:11 to 2022-07-20 09:10:11
    let start = at(1589965811);
    let end = at(1658308211);
    assert_eq!(readable_diff(start, end), Some("791 days".to_owned()))
}

#[test]
fn can_format_diff_all() {
    // 2020-05-20 09:10:11 to 2020-05-22 14:32:45
    let start = at(1589965811);
    let end = at(1590157965);
    assert_eq!(
        readable_diff(start, end),
        Some("2 days, 5 hours, 22 minutes, 34 seconds".to_owned())
    )
}

#[test]
fn zero_duration_renders_empty_not_absent() {
    let start = at(1589965811);
    let end = at(1589965811);
    assert_eq!(readable_diff(start, end), Some(String::new()));
}

#[test]
fn duration_decimal_rendering_is_exact() {
    assert_eq!(format_duration(0), "");
    assert_eq!(format_duration(1), "1 second");
    assert_eq!(format_duration(61), "1 minute, 1 second");
    assert_eq!(format_duration(3600 * 24 * 365), "365 days");
    assert_eq!(format_duration(86400 * 1234 + 59), "1234 days, 59 seconds");
}

#[test]
fn can_format_date_single_digit() {
    // 2020-05-20 09:10:11 in the local (UTC) zone
    let date = Some(at(1589965811));
    assert_eq!(
        imessage_database::dates::format(&date),
        "May 20, 2020  9:10:11 AM"
    )
}

#[test]
fn can_format_date_double_digit() {
    // 2020-05-20 10:10:11 in the local (UTC) zone
    let date = Some(at(1589969411));
    assert_eq!(
        imessage_database::dates::format(&date),
        "May 20, 2020 10:10:11 AM"
    )
}

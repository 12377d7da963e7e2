use chrono::{Local, NaiveDate, NaiveDateTime, TimeZone, Timelike, Utc};
use regex::Regex;
use ses_mailer::schedule::{
    convert_scheduled_at, current_utc_text, scheduled_utc_text, single_mapping, DateTimeFields, LocalMapping,
    ScheduleError,
};

fn stored_format() -> Regex {
    Regex::new(r"^\d{4}-\d{2}-\d{2} \d{2}:\d{2}:\d{2}$").unwrap()
}

#[test]
fn test_none_scheduled_at() {
    let result = convert_scheduled_at(None).unwrap();
    assert!(
        stored_format().is_match(&result),
        "result '{}' is not in the expected format",
        result
    );
}

#[test]
fn test_empty_scheduled_at() {
    let result = convert_scheduled_at(Some("")).unwrap();
    assert!(
        stored_format().is_match(&result),
        "result '{}' for empty input is not in the expected format",
        result
    );
}

#[test]
fn invalid_schedule_text_is_rejected() {
    assert_eq!(
        convert_scheduled_at(Some("invalid_date_string")),
        Err(ScheduleError::InvalidFormat)
    );
}

#[test]
fn schedule_text_without_seconds_is_rejected() {
    assert_eq!(
        convert_scheduled_at(Some("2023-10-12 15:30")),
        Err(ScheduleError::InvalidFormat)
    );
}

#[test]
fn schedule_errors_carry_the_server_messages() {
    assert_eq!(ScheduleError::InvalidFormat.message(), "Failed to parse date");
    assert_eq!(
        ScheduleError::UnresolvedLocalTime.message(),
        "Ambiguous time or conversion failure"
    );
}

#[test]
fn test_valid_scheduled_at() {
    let input = "2023-10-12 15:30:45";
    let result = convert_scheduled_at(Some(input)).unwrap();
    let naive = NaiveDateTime::parse_from_str(input, "%Y-%m-%d %H:%M:%S").unwrap();
    let local_dt = Local.from_local_datetime(&naive).single().unwrap();
    let utc_dt = local_dt.with_timezone(&Utc);
    let expected = utc_dt.format("%Y-%m-%d %H:%M:%S").to_string();
    assert_eq!(result, expected, "converted value differs from the expected one");
}

#[test]
fn test_timezone_conversion() {
    let input = "2023-10-12 15:30:45";
    let result = convert_scheduled_at(Some(input)).unwrap();
    let naive = NaiveDateTime::parse_from_str(input, "%Y-%m-%d %H:%M:%S").unwrap();
    let local_dt = Local.from_local_datetime(&naive).single().unwrap();
    let offset_secs = local_dt.offset().local_minus_utc();
    if offset_secs != 0 {
        assert_ne!(result, input, "offset is non-zero but the time did not change");
    } else {
        assert_eq!(result, input, "local zone is UTC but the result differs from the input");
    }
}

#[test]
fn test_future_date_format() {
    let input = "2099-12-31 23:59:59";
    let result = convert_scheduled_at(Some(input)).unwrap();
    assert!(
        stored_format().is_match(&result),
        "result '{}' for a future date is not in the expected format",
        result
    );
}

fn fields(year: i32, month: u32, day: u32, hour: u32, minute: u32, second: u32, nanosecond: u32) -> DateTimeFields {
    DateTimeFields { year, month, day, hour, minute, second, nanosecond }
}

#[test]
fn single_mapping_keeps_only_single_times() {
    let a = fields(2023, 10, 12, 15, 30, 45, 0);
    let b = fields(2023, 10, 12, 16, 30, 45, 0);
    assert_eq!(single_mapping(LocalMapping::Single(a)), Some(a));
    assert_eq!(single_mapping(LocalMapping::Ambiguous(a, b)), None);
    assert_eq!(single_mapping(LocalMapping::Unresolved), None);
}

#[test]
fn scheduled_utc_text_formats_single_time() {
    let a = fields(2023, 10, 12, 6, 30, 45, 0);
    assert_eq!(scheduled_utc_text(LocalMapping::Single(a)), Ok("2023-10-12 06:30:45".to_string()));
    assert_eq!(
        scheduled_utc_text(LocalMapping::Ambiguous(a, a)),
        Err(ScheduleError::UnresolvedLocalTime)
    );
    assert_eq!(
        scheduled_utc_text(LocalMapping::Unresolved),
        Err(ScheduleError::UnresolvedLocalTime)
    );
}

#[test]
fn scheduled_utc_text_writes_every_year_as_chrono_does() {
    let cases = [
        (fields(999, 1, 2, 3, 4, 5, 0), "0999-01-02 03:04:05"),
        (fields(10000, 1, 2, 3, 4, 5, 0), "+10000-01-02 03:04:05"),
        (fields(-5, 1, 2, 3, 4, 5, 0), "-0005-01-02 03:04:05"),
        (fields(2016, 12, 31, 23, 59, 59, 1_500_000_000), "2016-12-31 23:59:60"),
        (fields(2024, 2, 29, 0, 0, 0, 999_999_999), "2024-02-29 00:00:00"),
    ];
    for (f, text) in cases {
        assert_eq!(scheduled_utc_text(LocalMapping::Single(f)), Ok(text.to_string()));
        let naive = NaiveDate::from_ymd_opt(f.year, f.month, f.day)
            .unwrap()
            .and_hms_nano_opt(f.hour, f.minute, f.second, f.nanosecond)
            .unwrap();
        assert_eq!(naive.format("%Y-%m-%d %H:%M:%S").to_string(), text);
    }
}

#[test]
fn leap_second_after_any_second_is_written() {
    let f = fields(2023, 1, 1, 0, 0, 28, 1_000_000_000);
    assert_eq!(scheduled_utc_text(LocalMapping::Single(f)), Ok("2023-01-01 00:00:29".to_string()));
    let naive = NaiveDate::from_ymd_opt(2023, 1, 1)
        .unwrap()
        .and_hms_opt(0, 0, 28)
        .unwrap()
        .with_nanosecond(1_000_000_000)
        .unwrap();
    assert_eq!(naive.format("%Y-%m-%d %H:%M:%S").to_string(), "2023-01-01 00:00:29");
}

#[test]
fn converted_time_is_within_a_day() {
    let result = convert_scheduled_at(Some("2099-12-31 23:59:59")).unwrap();
    assert!(result == "2099-12-31 23:59:59" || result.starts_with("2099-12-3") || result.starts_with("2100-01-01"), "{}", result);
    assert!(stored_format().is_match(&result), "{}", result);
}

#[test]
fn scheduled_utc_text_refuses_dates_chrono_lacks() {
    assert_eq!(
        scheduled_utc_text(LocalMapping::Single(fields(2023, 2, 30, 0, 0, 0, 0))),
        Err(ScheduleError::UnresolvedLocalTime)
    );
}

#[test]
fn current_utc_text_is_stored_form() {
    let now = current_utc_text();
    assert!(stored_format().is_match(&now), "{}", now);
}

use manus_scraper::date::{parse_date, parse_datetime, parse_time, CivilDate, CodecError, TimeOfDay, UtcDateTime};
use manus_scraper::text::{decimal_text, parse_stamp, to_string};

fn utc(year: i32, month: u32, day: u32, hour: u32, minute: u32, second: u32) -> UtcDateTime {
    UtcDateTime { year, month, day, hour, minute, second }
}

#[test]
fn time_zero_is_midnight() {
    assert_eq!(parse_time(0), Ok(TimeOfDay { hour: 0, minute: 0, second: 0 }));
}

#[test]
fn time_last_minute_of_day() {
    assert_eq!(parse_time(1439), Ok(TimeOfDay { hour: 23, minute: 59, second: 0 }));
}

#[test]
fn time_full_day_is_invalid() {
    assert_eq!(parse_time(1440), Err(CodecError::InvalidTime));
    assert_eq!(parse_time(5000), Err(CodecError::InvalidTime));
    assert_eq!(parse_time(u32::MAX), Err(CodecError::InvalidTime));
}

#[test]
fn time_splits_hours_and_minutes() {
    assert_eq!(parse_time(545), Ok(TimeOfDay { hour: 9, minute: 5, second: 0 }));
}

#[test]
fn date_counts_from_1900() {
    assert_eq!(parse_date(0), Some(CivilDate { year: 1900, month: 1, day: 1 }));
    assert_eq!(parse_date(45000), Some(CivilDate { year: 2023, month: 3, day: 17 }));
    assert_eq!(parse_date(45472), Some(CivilDate { year: 2024, month: 7, day: 1 }));
}

#[test]
fn date_past_the_calendar_is_none() {
    assert_eq!(parse_date(u32::MAX), None);
}

#[test]
fn summer_time_is_two_hours_ahead() {
    assert_eq!(parse_datetime(45472, 540), Ok(utc(2024, 7, 1, 7, 0, 0)));
}

#[test]
fn winter_time_is_one_hour_ahead() {
    assert_eq!(parse_datetime(45304, 540), Ok(utc(2024, 1, 15, 8, 0, 0)));
}

#[test]
fn early_morning_moves_to_previous_utc_day() {
    assert_eq!(parse_datetime(45304, 30), Ok(utc(2024, 1, 14, 23, 30, 0)));
}

#[test]
fn spring_gap_has_no_instant() {
    assert_eq!(parse_datetime(45380, 150), Err(CodecError::NoSingleInstant));
}

#[test]
fn autumn_overlap_has_no_single_instant() {
    assert_eq!(parse_datetime(45590, 150), Err(CodecError::NoSingleInstant));
}

#[test]
fn invalid_minutes_fail_before_the_date() {
    assert_eq!(parse_datetime(u32::MAX, 1440), Err(CodecError::InvalidTime));
}

#[test]
fn date_out_of_range_is_reported() {
    assert_eq!(parse_datetime(u32::MAX, 0), Err(CodecError::DateOutOfRange));
}

#[test]
fn stamp_is_compact_utc() {
    assert_eq!(to_string(&utc(2024, 7, 1, 7, 5, 9)), "20240701T070509Z");
    assert_eq!(to_string(&utc(987, 12, 31, 23, 59, 59)), "09871231T235959Z");
}

#[test]
fn stamp_of_years_beyond_four_digits_carries_a_sign() {
    assert_eq!(to_string(&utc(12345, 1, 2, 3, 4, 5)), "+123450102T030405Z");
    assert_eq!(to_string(&utc(-44, 3, 15, 12, 0, 0)), "-00440315T120000Z");
}

#[test]
fn decoded_stamp_is_stable() {
    for (days, minutes) in [(45472u32, 540u32), (45304, 0), (45304, 1439), (0, 0), (45380, 60)] {
        let u = parse_datetime(days, minutes).unwrap();
        let s = to_string(&u);
        let back = parse_stamp(&s).unwrap();
        assert_eq!(back, u);
        assert_eq!(to_string(&back), s);
    }
}

#[test]
fn malformed_stamps_are_rejected() {
    assert_eq!(parse_stamp("20240701T070509"), None);
    assert_eq!(parse_stamp("20241301T070509Z"), None);
    assert_eq!(parse_stamp("2024070lT070509Z"), None);
    assert_eq!(parse_stamp("20240701X070509Z"), None);
}

#[test]
fn decimal_text_has_no_leading_zeros() {
    assert_eq!(decimal_text(0), "0");
    assert_eq!(decimal_text(1234), "1234");
    assert_eq!(decimal_text(u32::MAX), "4294967295");
}

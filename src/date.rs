//! Time codec: the upstream service encodes a moment as a day offset from
//! 1900-01-01 and a minute offset within that day, on the wall clock of
//! Amsterdam. Calendar output wants UTC in the compact `YYYYMMDDThhmmssZ` form.
use chrono::{Datelike, TimeZone, Timelike};
use vstd::prelude::*;

verus! {

/// Minutes in one day: a minute offset must stay below this.
pub const MINUTES_PER_DAY: u32 = 1440;

/// A day of the proleptic Gregorian calendar.
#[derive(Clone, Copy, Debug, PartialEq, Eq, Structural)]
pub struct CivilDate {
    pub year: i32,
    pub month: u32,
    pub day: u32,
}

/// A reading of a clock, to the second.
#[derive(Clone, Copy, Debug, PartialEq, Eq, Structural)]
pub struct TimeOfDay {
    pub hour: u32,
    pub minute: u32,
    pub second: u32,
}

/// An instant, read on the UTC clock.
#[derive(Clone, Copy, Debug, PartialEq, Eq, Structural)]
pub struct UtcDateTime {
    pub year: i32,
    pub month: u32,
    pub day: u32,
    pub hour: u32,
    pub minute: u32,
    pub second: u32,
}

/// Why an encoded moment could not be turned into an instant.
#[derive(Clone, Copy, Debug, PartialEq, Eq, Structural)]
pub enum CodecError {
    /// The minute offset is a full day or more.
    InvalidTime,
    /// The day offset leads past the last representable date.
    DateOutOfRange,
    /// The wall-clock reading falls in a daylight-saving gap or overlap, so it
    /// names no single instant.
    NoSingleInstant,
}

impl CivilDate {
    pub open spec fn wf(self) -> bool {
        1 <= self.month <= 12 && 1 <= self.day <= 31
    }
}

impl TimeOfDay {
    pub open spec fn wf(self) -> bool {
        self.hour < 24 && self.minute < 60 && self.second < 60
    }
}

impl UtcDateTime {
    pub open spec fn wf(self) -> bool {
        1 <= self.month <= 12 && 1 <= self.day <= 31 && self.hour < 24 && self.minute < 60
            && self.second < 60
    }
}

/// The day that the upstream encoding counts from.
pub open spec fn epoch() -> CivilDate {
    CivilDate { year: 1900, month: 1, day: 1 }
}

/// The date `days` days after `start`, if the calendar reaches it.
pub uninterp spec fn date_after(start: CivilDate, days: u32) -> Option<CivilDate>;

/// The UTC reading of an Amsterdam wall-clock reading, where it names exactly one instant.
pub uninterp spec fn amsterdam_to_utc(date: CivilDate, time: TimeOfDay) -> Option<UtcDateTime>;

/// Relies on chrono's `NaiveDate::checked_add_days`: the date that many days
/// after `start`, or `None` past chrono's last date; `Datelike::month` and
/// `Datelike::day` stay within 1..=12 and 1..=31.
#[verifier::external_body]
fn add_days(start: &CivilDate, days: u32) -> (r: Option<CivilDate>)
    ensures
        r == date_after(*start, days),
        r matches Some(d) ==> d.wf(),
{
    let d = chrono::NaiveDate::from_ymd_opt(start.year, start.month, start.day)?;
    let d = d.checked_add_days(chrono::Days::new(days as u64))?;
    Some(CivilDate { year: d.year(), month: d.month(), day: d.day() })
}

/// Relies on chrono_tz's `Europe::Amsterdam` through chrono's
/// `TimeZone::from_local_datetime(..).single()` and `with_timezone(&Utc)`: the
/// instant that the wall-clock reading names, if exactly one; chrono's field
/// getters keep month, day, hour, minute and second within their ranges.
#[verifier::external_body]
fn localize_amsterdam(date: &CivilDate, time: &TimeOfDay) -> (r: Option<UtcDateTime>)
    ensures
        r == amsterdam_to_utc(*date, *time),
        r matches Some(u) ==> u.wf(),
{
    let d = chrono::NaiveDate::from_ymd_opt(date.year, date.month, date.day)?;
    let local = d.and_hms_opt(time.hour, time.minute, time.second)?;
    let zoned = chrono_tz::Europe::Amsterdam.from_local_datetime(&local).single()?;
    let u = zoned.with_timezone(&chrono::Utc);
    Some(UtcDateTime {
        year: u.year(),
        month: u.month(),
        day: u.day(),
        hour: u.hour(),
        minute: u.minute(),
        second: u.second(),
    })
}

/// The time of day that a minute offset encodes.
pub open spec fn time_of(minutes: u32) -> Result<TimeOfDay, CodecError> {
    if minutes >= MINUTES_PER_DAY {
        Err(CodecError::InvalidTime)
    } else {
        Ok(TimeOfDay { hour: minutes / 60, minute: minutes % 60, second: 0 })
    }
}

/// The instant that a day offset and a minute offset encode.
pub open spec fn instant_of(days: u32, minutes: u32) -> Result<UtcDateTime, CodecError> {
    match time_of(minutes) {
        Err(e) => Err(e),
        Ok(t) => match date_after(epoch(), days) {
            None => Err(CodecError::DateOutOfRange),
            Some(d) => match amsterdam_to_utc(d, t) {
                None => Err(CodecError::NoSingleInstant),
                Some(u) => Ok(u),
            },
        },
    }
}

/// The calendar date `days` days after 1900-01-01.
pub fn parse_date(days: u32) -> (r: Option<CivilDate>)
    ensures
        r == date_after(epoch(), days),
        r matches Some(d) ==> d.wf(),
{
    let start = CivilDate { year: 1900, month: 1, day: 1 };
    add_days(&start, days)
}

/// The time of day `minutes` minutes after midnight.
pub fn parse_time(minutes: u32) -> (r: Result<TimeOfDay, CodecError>)
    ensures
        r == time_of(minutes),
        r matches Ok(t) ==> t.wf(),
{
    if minutes >= MINUTES_PER_DAY {
        Err(CodecError::InvalidTime)
    } else {
        Ok(TimeOfDay { hour: minutes / 60, minute: minutes % 60, second: 0 })
    }
}

/// The instant at which the Amsterdam wall clock shows the encoded moment.
pub fn parse_datetime(days: u32, minutes: u32) -> (r: Result<UtcDateTime, CodecError>)
    ensures
        r == instant_of(days, minutes),
        r matches Ok(u) ==> u.wf(),
{
    let time = match parse_time(minutes) {
        Ok(t) => t,
        Err(e) => return Err(e),
    };
    let date = match parse_date(days) {
        Some(d) => d,
        None => return Err(CodecError::DateOutOfRange),
    };
    match localize_amsterdam(&date, &time) {
        Some(u) => Ok(u),
        None => Err(CodecError::NoSingleInstant),
    }
}

} // verus!

//! The window of ISO weeks that a calendar covers, around the current week.
use vstd::prelude::*;

verus! {

/// Weeks before the current one that a calendar covers.
pub const WEEKS_BACK: i64 = 12;

/// Weeks after the current one that a calendar covers.
pub const WEEKS_AHEAD: i64 = 4;

/// The first year all of whose ISO weeks the calendar can represent.
pub const MIN_WEEK_YEAR: i32 = -262142;

/// The last year all of whose ISO weeks the calendar can represent.
pub const MAX_WEEK_YEAR: i32 = 262141;

/// A week of the ISO 8601 week-numbering year.
#[derive(Clone, Copy, Debug, PartialEq, Eq, Structural)]
pub struct IsoWeek {
    pub year: i32,
    pub week: u32,
}

/// The ISO week `offset` whole weeks after `week`, counted from its Monday,
/// if `week` exists and the calendar reaches the result.
pub uninterp spec fn iso_week_shifted(week: IsoWeek, offset: i64) -> Option<IsoWeek>;

/// Relies on chrono: `NaiveDate::from_isoywd_opt(year, week, Mon)`, then
/// `checked_add_signed(TimeDelta::try_weeks(offset))`, then `iso_week()`. Its
/// week numbers run from 1 to 53, and a week read back from its own Monday is
/// that week. Every year has at least 52 ISO weeks, and within chrono's year
/// range their Mondays exist. `from_isoywd_opt` steps a year back or ahead
/// without a check, so the year stays inside that range.
#[verifier::external_body]
fn shift_iso_week(week: &IsoWeek, offset: i64) -> (r: Option<IsoWeek>)
    requires
        MIN_WEEK_YEAR <= week.year <= MAX_WEEK_YEAR,
    ensures
        r == iso_week_shifted(*week, offset),
        r matches Some(w) ==> 1 <= w.week <= 53,
        r matches Some(w) ==> (offset == 0 ==> w == *week),
        offset == 0 && 1 <= week.week <= 52 ==> r == Some(*week),
{
    let monday = chrono::NaiveDate::from_isoywd_opt(week.year, week.week, chrono::Weekday::Mon)?;
    let shifted = monday.checked_add_signed(chrono::TimeDelta::try_weeks(offset)?)?;
    let iso = chrono::Datelike::iso_week(&shifted);
    Some(IsoWeek { year: iso.year(), week: iso.week() })
}

/// The target of the `k`-th slot of the window around `current`.
pub open spec fn window_slot(current: IsoWeek, k: int) -> Option<IsoWeek> {
    iso_week_shifted(current, (k - WEEKS_BACK) as i64)
}

/// The weeks from `WEEKS_BACK` weeks before `current` to `WEEKS_AHEAD` weeks
/// after it, in order; a slot is `None` where the calendar does not reach.
/// The middle slot is the current week itself.
pub fn week_window(current: &IsoWeek) -> (r: Vec<Option<IsoWeek>>)
    requires
        MIN_WEEK_YEAR <= current.year <= MAX_WEEK_YEAR,
    ensures
        r@.len() == WEEKS_BACK + WEEKS_AHEAD + 1,
        forall|k: int| 0 <= k < r@.len() ==> #[trigger] r@[k] == window_slot(*current, k),
        r@[WEEKS_BACK as int] is None || r@[WEEKS_BACK as int] == Some(*current),
        1 <= current.week <= 52 ==> r@[WEEKS_BACK as int] == Some(*current),
{
    let mut r: Vec<Option<IsoWeek>> = Vec::new();
    let mut offset: i64 = -WEEKS_BACK;
    while offset <= WEEKS_AHEAD
        invariant
            -WEEKS_BACK <= offset <= WEEKS_AHEAD + 1,
            MIN_WEEK_YEAR <= current.year <= MAX_WEEK_YEAR,
            r@.len() == offset + WEEKS_BACK,
            forall|k: int| 0 <= k < r@.len() ==> #[trigger] r@[k] == window_slot(*current, k),
            offset > 0 ==> (r@[WEEKS_BACK as int] is None || r@[WEEKS_BACK as int] == Some(
                *current,
            )),
            offset > 0 && 1 <= current.week <= 52 ==> r@[WEEKS_BACK as int] == Some(*current),
        decreases WEEKS_AHEAD + 1 - offset,
    {
        let w = shift_iso_week(current, offset);
        r.push(w);
        offset = offset + 1;
    }
    r
}

} // verus!

//! Pacific wall-clock readings through the chrono crates, and the season
//! and weekend classifications derived from them.

use vstd::prelude::*;
use crate::mood::SCALE;

verus! {

// chrono's `DateTime<Tz>` cannot be declared to Verus (its `TimeZone`
// bound would have to be declared too), so the reading is held opaquely
// in a field Verus never looks into.
/// An opaque Pacific-time clock reading, as chrono represents it.
#[verifier::external_body]
pub struct PacificStamp {
    inner: chrono::DateTime<chrono_tz::Tz>,
}

#[verifier::external_type_specification]
#[verifier::external_body]
pub struct ExWeekday(chrono::Weekday);

/// A clock reading: wall-clock fields plus the season label derived from
/// the month.
pub struct Time {
    pub min: u8,
    pub hour: u8,
    pub day: u8,
    pub month: u8,
    pub year: u16,
    pub season: String,
}

impl Time {
    /// Field ranges as the calendar guarantees them.
    pub open spec fn wf(self) -> bool {
        &&& self.min <= 59
        &&& self.hour <= 23
        &&& 1 <= self.day <= 31
        &&& 1 <= self.month <= 12
    }
}

/// Relies on chrono's Utc::now and chrono-tz's America::Los_Angeles:
/// reads the wall clock and expresses it in Pacific time. Nothing can be
/// promised of a clock reading.
#[verifier::external_body]
pub fn get_pacific_dt() -> PacificStamp {
    let utc: chrono::DateTime<chrono::Utc> = chrono::Utc::now();
    let dt = chrono::TimeZone::from_utc_datetime(&chrono_tz::America::Los_Angeles, &utc.naive_utc());
    PacificStamp { inner: dt }
}

/// Relies on chrono's Datelike::year; the calendar year, truncated to u16.
#[verifier::external_body]
pub fn get_pacific_year(cur_dt: &PacificStamp) -> u16 {
    chrono::Datelike::year(&cur_dt.inner) as u16
}

/// Relies on chrono's Datelike::month: the month number, 1 through 12.
#[verifier::external_body]
pub fn get_pacific_month(cur_dt: &PacificStamp) -> (r: u8)
    ensures
        1 <= r <= 12,
{
    chrono::Datelike::month(&cur_dt.inner) as u8
}

/// Relies on chrono's Datelike::day: the day of the month, 1 through 31.
#[verifier::external_body]
pub fn get_pacific_day(cur_dt: &PacificStamp) -> (r: u8)
    ensures
        1 <= r <= 31,
{
    chrono::Datelike::day(&cur_dt.inner) as u8
}

/// Relies on chrono's Timelike::hour: the hour of the day, 0 through 23.
#[verifier::external_body]
pub fn get_pacific_hour(cur_dt: &PacificStamp) -> (r: u8)
    ensures
        r <= 23,
{
    chrono::Timelike::hour(&cur_dt.inner) as u8
}

/// Relies on chrono's Timelike::minute: the minute, 0 through 59.
#[verifier::external_body]
pub fn get_pacific_minute(cur_dt: &PacificStamp) -> (r: u8)
    ensures
        r <= 59,
{
    chrono::Timelike::minute(&cur_dt.inner) as u8
}

/// Relies on chrono's Datelike::weekday: the reading's day of the week.
#[verifier::external_body]
pub fn get_pacific_weekday(cur_dt: &PacificStamp) -> chrono::Weekday {
    chrono::Datelike::weekday(&cur_dt.inner)
}

/// Relies on chrono's Weekday::num_days_from_monday: 0 is Monday, 6 Sunday.
#[verifier::external_body]
pub fn days_from_monday(day: chrono::Weekday) -> (r: u32)
    ensures
        r <= 6,
{
    day.num_days_from_monday()
}

/// The season label for a month number (1 through 12).
pub open spec fn spec_season_of_month(m: int) -> Seq<char> {
    if m == 11 || m <= 2 {
        "winter"@
    } else if 3 <= m <= 5 {
        "spring"@
    } else if 6 <= m <= 8 {
        "summer"@
    } else if m == 9 || m == 10 {
        "fall"@
    } else {
        "summer"@
    }
}

/// Maps a month number to its season label.
pub fn season_of_month(month: u8) -> (r: String)
    ensures
        r@ == spec_season_of_month(month as int),
{
    if month == 11 || month <= 2 {
        String::from_str("winter")
    } else if 3 <= month && month <= 5 {
        String::from_str("spring")
    } else if 6 <= month && month <= 8 {
        String::from_str("summer")
    } else if month == 9 || month == 10 {
        String::from_str("fall")
    } else {
        String::from_str("summer")
    }
}

/// Reads the Pacific clock into a `Time`, deriving the season from the
/// month. Field ranges hold whatever the clock returns.
pub fn get_pacific_time() -> (t: Time)
    ensures
        t.wf(),
        t.season@ == spec_season_of_month(t.month as int),
{
    let dt = get_pacific_dt();
    let month: u8 = get_pacific_month(&dt);
    let season: String = season_of_month(month);
    Time {
        min: get_pacific_minute(&dt),
        hour: get_pacific_hour(&dt),
        day: get_pacific_day(&dt),
        month,
        year: get_pacific_year(&dt),
        season,
    }
}

/// Hour of the day with the minutes as a fraction, in micros of an hour.
pub fn get_time_of_day(cur_hour: u8, cur_min: u8) -> (r: i64)
    ensures
        r == cur_hour * SCALE + (cur_min * SCALE) / 60,
{
    let frac: u64 = (cur_min as u64) * (SCALE as u64) / 60;
    (cur_hour as i64) * SCALE + (frac as i64)
}

/// Friday, Saturday and Sunday count as the weekend; this is the domain's
/// deliberate three-day weekend, not the conventional two-day one.
pub fn is_weekend_day(days_from_monday: u32) -> (r: bool)
    ensures
        r == (days_from_monday == 4 || days_from_monday == 5 || days_from_monday == 6),
{
    days_from_monday == 4 || days_from_monday == 5 || days_from_monday == 6
}

/// Whether the Pacific clock reading falls on the three-day weekend.
pub fn is_weekend(cur_dt: &PacificStamp) -> bool {
    let wd = get_pacific_weekday(cur_dt);
    let d: u32 = days_from_monday(wd);
    is_weekend_day(d)
}

} // verus!

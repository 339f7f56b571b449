use chrono::{Datelike, NaiveDate, NaiveDateTime};
use vstd::prelude::*;

verus! {

/// Day 1970-01-01 in chrono's count of days from the common era.
pub const UNIX_EPOCH_DAYS_FROM_CE: i64 = 719163;

/// Seconds in one day.
pub const SECONDS_PER_DAY: i64 = 86400;

/// The day, counted from the common era, that chrono reads from a
/// `%Y-%m-%d` text, if it reads one.
pub uninterp spec fn ymd_day(s: Seq<char>) -> Option<i32>;

/// The `%Y-%m-%d` text that chrono writes for a day counted from the common
/// era, if chrono can represent that day.
pub uninterp spec fn ymd_text(days_from_ce: i32) -> Option<Seq<char>>;

/// The Unix time, in seconds, that chrono reads from a
/// `%Y-%m-%dT%H:%M:%S%.f` text taken as UTC, if it reads one.
pub uninterp spec fn datetime_seconds(s: Seq<char>) -> Option<i64>;

/// Relies on `chrono::NaiveDate::parse_from_str` with the format `%Y-%m-%d`,
/// and on `Datelike::num_days_from_ce` for the day it reads.
#[verifier::external_body]
fn chrono_parse_ymd(s: &str) -> (r: Option<i32>)
    ensures
        r == ymd_day(s@),
{
    match NaiveDate::parse_from_str(s, "%Y-%m-%d") {
        Ok(d) => Some(d.num_days_from_ce()),
        Err(_) => None,
    }
}

/// Relies on `chrono::NaiveDate::from_num_days_from_ce_opt`, then on
/// formatting the day with `%Y-%m-%d`.
#[verifier::external_body]
fn chrono_ymd_text(days_from_ce: i32) -> (r: Option<String>)
    ensures
        match r {
            Some(t) => ymd_text(days_from_ce) == Some(t@),
            None => ymd_text(days_from_ce) is None,
        },
{
    match NaiveDate::from_num_days_from_ce_opt(days_from_ce) {
        Some(d) => Some(d.format("%Y-%m-%d").to_string()),
        None => None,
    }
}

/// Relies on `chrono::NaiveDateTime::parse_from_str` with the format
/// `%Y-%m-%dT%H:%M:%S%.f`, and on the Unix timestamp of that time in UTC.
#[verifier::external_body]
fn chrono_parse_datetime(s: &str) -> (r: Option<i64>)
    ensures
        r == datetime_seconds(s@),
{
    match NaiveDateTime::parse_from_str(s, "%Y-%m-%dT%H:%M:%S%.f") {
        Ok(t) => Some(t.and_utc().timestamp()),
        Err(_) => None,
    }
}

/// A calendar day of the proleptic Gregorian calendar, counted as chrono
/// counts it: 0001-01-01 is day 1.
#[derive(Clone, Copy, Debug, PartialEq, Eq, Structural)]
pub struct Day {
    pub days_from_ce: i32,
}

/// The Unix time, in seconds, of the midnight UTC that starts `d`.
pub open spec fn midnight_seconds(d: Day) -> int {
    (d.days_from_ce - UNIX_EPOCH_DAYS_FROM_CE) * SECONDS_PER_DAY
}

impl Day {
    pub fn from_days_from_ce(days_from_ce: i32) -> (r: Day)
        ensures
            r.days_from_ce == days_from_ce,
    {
        Day { days_from_ce }
    }

    /// Reads a day written as `YYYY-MM-DD`.
    pub fn parse(s: &str) -> (r: Option<Day>)
        ensures
            match r {
                Some(d) => ymd_day(s@) == Some(d.days_from_ce),
                None => ymd_day(s@) is None,
            },
    {
        match chrono_parse_ymd(s) {
            Some(n) => Some(Day { days_from_ce: n }),
            None => None,
        }
    }

    /// The day written as `YYYY-MM-DD`, where the calendar can represent it.
    pub fn text(self) -> (r: Option<String>)
        ensures
            match r {
                Some(t) => ymd_text(self.days_from_ce) == Some(t@),
                None => ymd_text(self.days_from_ce) is None,
            },
    {
        chrono_ymd_text(self.days_from_ce)
    }

    /// The Unix time, in seconds, of the midnight UTC that starts this day.
    pub fn midnight_utc_timestamp(self) -> (r: i64)
        ensures
            r == midnight_seconds(self),
    {
        let n = self.days_from_ce as i64 - UNIX_EPOCH_DAYS_FROM_CE;
        assert(-3000000000 < n < 3000000000);
        assert(-3000000000 * 86400 < n * 86400 < 3000000000 * 86400) by (nonlinear_arith)
            requires
                -3000000000 < n < 3000000000,
        ;
        n * SECONDS_PER_DAY
    }

    /// The day `n` days before this one.
    pub fn days_before(self, n: u16) -> (r: Option<Day>)
        ensures
            self.days_from_ce - n >= i32::MIN ==> r == Some(Day { days_from_ce: (self.days_from_ce - n) as i32 }),
            self.days_from_ce - n < i32::MIN ==> r is None,
    {
        let m = self.days_from_ce as i64 - n as i64;
        if m < i32::MIN as i64 {
            None
        } else {
            Some(Day { days_from_ce: m as i32 })
        }
    }
}

/// The Unix time, in seconds, that a `%Y-%m-%dT%H:%M:%S%.f` text names when
/// taken as UTC, or 0 where the text is not such a time.
pub fn parse_datetime_to_unix_timestamp(datetime: &str) -> (r: i64)
    ensures
        match datetime_seconds(datetime@) {
            Some(t) => r == t,
            None => r == 0,
        },
{
    match chrono_parse_datetime(datetime) {
        Some(t) => t,
        None => 0,
    }
}

} // verus!

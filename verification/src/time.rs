//! Points in time as text.

use crate::text::opt_text;
use chrono::{Datelike, NaiveDate};
use vstd::prelude::*;

verus! {

/// The RFC 3339 form of a point in time given in seconds since the epoch, where there is one.
pub uninterp spec fn rfc3339(secs: i64) -> Option<Seq<char>>;

/// Calls `chrono::DateTime::from_timestamp` and `to_rfc3339`. The text is named. `None` where the
/// seconds lie outside the range of dates.
#[verifier::external_body]
pub(crate) fn rfc3339_text(secs: i64) -> (r: Option<String>)
    ensures
        opt_text(r) == rfc3339(secs),
{
    chrono::DateTime::from_timestamp(secs, 0).map(|t| t.to_rfc3339())
}

/// The RFC 3339 form of a point in time, empty where there is none.
pub open spec fn time_text(secs: i64) -> Seq<char> {
    match rfc3339(secs) {
        Some(t) => t,
        None => Seq::empty(),
    }
}

/// The RFC 3339 form of a point in time, empty where there is none.
pub fn format_time(secs: i64) -> (r: String)
    ensures
        r@ == time_text(secs),
{
    match rfc3339_text(secs) {
        Some(t) => t,
        None => String::new(),
    }
}

/// The date, in the form `YYYY-MM-DD`, of a point in time given in seconds since the epoch.
pub uninterp spec fn date_of_seconds(secs: i64) -> Option<Seq<char>>;

/// Calls `chrono::DateTime::from_timestamp` and `format` with `%Y-%m-%d`. The text is named. `None`
/// where the seconds lie outside the range of dates.
#[verifier::external_body]
pub(crate) fn seconds_date(secs: i64) -> (r: Option<String>)
    ensures
        opt_text(r) == date_of_seconds(secs),
{
    chrono::DateTime::from_timestamp(secs, 0).map(|t| t.format("%Y-%m-%d").to_string())
}

/// The date of a point in time, empty where there is none.
pub open spec fn date_of_time(secs: i64) -> Seq<char> {
    match date_of_seconds(secs) {
        Some(t) => t,
        None => Seq::empty(),
    }
}

/// The date of a point in time, empty where there is none.
pub fn time_date(secs: i64) -> (r: String)
    ensures
        r@ == date_of_time(secs),
{
    match seconds_date(secs) {
        Some(t) => t,
        None => String::new(),
    }
}

/// The number of the day that a date in the form `YYYY-MM-DD` stands for, counted from the first day
/// of the common era.
pub uninterp spec fn day_of_date(text: Seq<char>) -> Option<i32>;

/// The year and the month of a day, where it lies in the range of dates.
pub uninterp spec fn month_of_day(day: i32) -> Option<(i32, u32)>;

/// The number of the day that a year, a month and a day of the month stand for.
pub uninterp spec fn day_of_ymd(year: i32, month: u32, day: u32) -> Option<i32>;

/// The date of a day in the form `YYYY-MM-DD`.
pub uninterp spec fn date_of_day(day: i32) -> Option<Seq<char>>;

/// Calls `NaiveDate::parse_from_str` with `%Y-%m-%d` and takes the number of the day. The result is
/// named.
#[verifier::external_body]
pub(crate) fn parse_date(text: &str) -> (r: Option<i32>)
    ensures
        r == day_of_date(text@),
{
    NaiveDate::parse_from_str(text, "%Y-%m-%d").ok().map(|d| d.num_days_from_ce())
}

/// Calls `NaiveDate::from_num_days_from_ce_opt` and takes the year and the month. The result is
/// named; the month is one of twelve.
#[verifier::external_body]
pub(crate) fn split_day(day: i32) -> (r: Option<(i32, u32)>)
    ensures
        r == month_of_day(day),
        r matches Some(p) ==> 1 <= p.1 <= 12,
{
    NaiveDate::from_num_days_from_ce_opt(day).map(|d| (d.year(), d.month()))
}

/// Calls `NaiveDate::from_ymd_opt` and takes the number of the day. The result is named.
#[verifier::external_body]
pub(crate) fn join_day(year: i32, month: u32, day: u32) -> (r: Option<i32>)
    ensures
        r == day_of_ymd(year, month, day),
{
    NaiveDate::from_ymd_opt(year, month, day).map(|d| d.num_days_from_ce())
}

/// Calls `NaiveDate::format` with `%Y-%m-%d` on the day with the number. The result is named.
#[verifier::external_body]
pub(crate) fn date_text(day: i32) -> (r: Option<String>)
    ensures
        opt_text(r) == date_of_day(day),
{
    NaiveDate::from_num_days_from_ce_opt(day).map(|d| d.format("%Y-%m-%d").to_string())
}

/// The number of the first day of 1970, counted from the first day of the common era.
pub const EPOCH_DAY: i128 = 719_163;

/// Nanoseconds in a day.
pub const DAY_NANOS: i128 = 86_400_000_000_000;

/// The number of the day of a point in time given in nanoseconds since the epoch.
pub open spec fn day_of_time(nanos: i128) -> int {
    nanos as int / DAY_NANOS as int + EPOCH_DAY
}

/// The number of the day of a point in time given in nanoseconds since the epoch.
pub fn time_day(nanos: i128) -> (r: i128)
    ensures
        r == day_of_time(nanos),
{
    let floor: i128 = if nanos >= 0 {
        nanos / DAY_NANOS
    } else {
        -((-(nanos + 1)) / DAY_NANOS) - 1
    };
    proof {
        if nanos < 0 {
            let m = -(nanos + 1) as int;
            let d = DAY_NANOS as int;
            let q = m / d;
            assert(m == d * q + m % d) by (nonlinear_arith)
                requires
                    q == m / d,
                    d > 0,
                    m >= 0,
            ;
            assert(nanos as int == d * (-q - 1) + (d - 1 - m % d)) by (nonlinear_arith)
                requires
                    nanos as int == -m - 1,
                    m == d * q + m % d,
            ;
            assert(nanos as int / d == -q - 1) by (nonlinear_arith)
                requires
                    nanos as int == d * (-q - 1) + (d - 1 - m % d),
                    0 <= m % d < d,
                    d > 0,
            ;
        }
    }
    floor + EPOCH_DAY
}

/// A day holds the times from its beginning up to the beginning of the next.
pub proof fn days_hold_their_times(nanos: i128, day: int)
    ensures
        day_of_time(nanos) == day <==> (day - 719_163) * 86_400_000_000_000 <= nanos < (day - 719_163
            + 1) * 86_400_000_000_000,
{
    let d = DAY_NANOS as int;
    let q = nanos as int / d;
    let k = day - 719_163;
    assert(d * q <= nanos < d * (q + 1)) by (nonlinear_arith)
        requires
            d == 86_400_000_000_000,
            q == nanos as int / d,
    ;
    if k < q {
        assert(d * (k + 1) <= d * q) by (nonlinear_arith)
            requires
                k + 1 <= q,
                d > 0,
        ;
    }
    if k > q {
        assert(d * (q + 1) <= d * k) by (nonlinear_arith)
            requires
                q + 1 <= k,
                d > 0,
        ;
    }
}

} // verus!

//! The clock, and how times and ages are written.

use crate::text::{decimal, digit, number, Text};
use vstd::prelude::*;

verus! {

/// A day of the calendar.
#[verifier::ext_equal]
pub struct DateView {
    pub year: int,
    pub month: int,
    pub day: int,
}

/// Whether a year has a 29th of February.
pub open spec fn is_leap(year: int) -> bool {
    year % 4 == 0 && (year % 100 != 0 || year % 400 == 0)
}

/// How many days a month has.
pub open spec fn month_len(year: int, month: int) -> int {
    if month == 2 {
        if is_leap(year) {
            29
        } else {
            28
        }
    } else if month == 4 || month == 6 || month == 9 || month == 11 {
        30
    } else {
        31
    }
}

/// How many days of a year lie before a month.
pub open spec fn days_before_month(year: int, month: int) -> int
    decreases month,
{
    if month <= 1 {
        0
    } else {
        days_before_month(year, month - 1) + month_len(year, month - 1)
    }
}

/// How many leap years lie before a year, counted from the year 1.
pub open spec fn leaps_before(year: int) -> int {
    (year - 1) / 4 - (year - 1) / 100 + (year - 1) / 400
}

/// The first day of a year, counted from the first day of 1970.
pub open spec fn year_start(year: int) -> int {
    365 * (year - 1970) + leaps_before(year) - leaps_before(1970)
}

/// Whether the calendar has this day.
pub open spec fn valid_date(d: DateView) -> bool {
    1 <= d.month <= 12 && 1 <= d.day <= month_len(d.year, d.month)
}

/// A day, counted from the first day of 1970.
pub open spec fn day_number(d: DateView) -> int {
    year_start(d.year) + days_before_month(d.year, d.month) + d.day - 1
}

/// The date of a day that is counted from the first day of 1970.
pub open spec fn date_of(day: int) -> DateView {
    choose|d: DateView| valid_date(d) && #[trigger] day_number(d) == day
}

/// A number below 100, in two digits.
pub open spec fn two_digits(n: int) -> Text {
    seq![digit(n / 10), digit(n % 10)]
}

/// A year: in four digits, and with a sign where it has no four.
pub open spec fn year_text(year: int) -> Text {
    if 0 <= year <= 9999 {
        two_digits(year / 100) + two_digits(year % 100)
    } else if year > 9999 {
        "+"@ + decimal(year as nat)
    } else if year >= -9999 {
        "-"@ + two_digits(-year / 100) + two_digits(-year % 100)
    } else {
        "-"@ + decimal(-year as nat)
    }
}

/// A time zone by its distance from UTC in seconds: its sign, hours and minutes, as
/// far as the nearest minute says it.
pub open spec fn zone_text(off: int) -> Text {
    let minutes = ((if off < 0 {
        -off
    } else {
        off
    }) + 30) / 60;
    (if off < 0 {
        "-"@
    } else {
        "+"@
    }) + two_digits(minutes / 60) + two_digits(minutes % 60)
}

/// The time `secs` seconds after 1970 began, in a time zone `off` seconds ahead of
/// UTC: `YYYY-mm-dd HH:MM:SS +hhmm`.
pub open spec fn written_time(secs: int, off: int) -> Text {
    let date = date_of((secs + off) / 86_400);
    let time = (secs + off) % 86_400;
    year_text(date.year) + "-"@ + two_digits(date.month) + "-"@ + two_digits(date.day) + " "@
        + two_digits(time / 3600) + ":"@ + two_digits(time / 60 % 60) + ":"@ + two_digits(time % 60)
        + " "@ + zone_text(off)
}

/// Whether `t` is the time `ms` as it is written in some time zone.
pub open spec fn is_local_time(ms: i64, t: Text) -> bool {
    exists|off: int|
        -86_400 < off < 86_400 && t == #[trigger] written_time(ms as int / 1000, off)
}

/// The last ms that a clock can show: the end of the year 262142.
pub const LAST_CLOCK_MS: i64 = 8_210_266_876_799_999;

/// A time that a clock can show, in ms since the epoch.
pub open spec fn is_clock_time(ms: i64) -> bool {
    0 <= ms <= LAST_CLOCK_MS
}

/// A written time: some time that a clock can show, in some time zone.
pub open spec fn is_clock_text(t: Text) -> bool {
    exists|ms: i64| is_clock_time(ms) && #[trigger] is_local_time(ms, t)
}

/// `chrono::Local::now`, as ms since the epoch (`timestamp_millis`). It is the time
/// since 1970 on the machine's clock, held by a date of which 262142 is the last
/// year; which time it is is left unsaid. A clock set outside these years panics.
#[verifier::external_body]
fn clock_millis() -> (r: i64)
    ensures
        is_clock_time(r),
{
    chrono::Local::now().timestamp_millis()
}

/// `chrono::Local::now`, written as `%Y-%m-%d %H:%M:%S %z`: date, time of day and
/// offset of the machine's clock. Which time and which time zone is left unsaid.
#[verifier::external_body]
fn clock_text() -> (r: String)
    ensures
        is_clock_text(r@),
{
    chrono::Local::now().format("%Y-%m-%d %H:%M:%S %z").to_string()
}

/// `chrono::DateTime::from_timestamp_millis`, in the local time zone, written as
/// `%Y-%m-%d %H:%M:%S %z`: date, time of day and offset of the time `ms`. From 1970
/// on there is such a time up to the last that a clock can show. Which time zone it
/// is written in is left unsaid.
#[verifier::external_body]
fn local_text(ms: i64) -> (r: Option<String>)
    ensures
        r matches Some(t) ==> is_local_time(ms, t@),
        0 <= ms ==> (r is Some <==> ms <= LAST_CLOCK_MS),
{
    chrono::DateTime::from_timestamp_millis(ms).map(
        |dt| dt.with_timezone(&chrono::Local).format("%Y-%m-%d %H:%M:%S %z").to_string())
}

/// The time now, in ms since the epoch. The ms from any time that a clock can show
/// to this one, or back, fit in 64 bits.
pub fn now_millis() -> (r: i64)
    ensures
        is_clock_time(r),
        forall|t: i64| is_clock_time(t) ==> #[trigger] fits(r, t) && fits(t, r),
{
    clock_millis()
}

/// The time now, as it is written for the model.
pub fn now_str() -> (r: String)
    ensures
        is_clock_text(r@),
{
    clock_text()
}

/// What may be shown for the time `ms` of a message: nothing where it is unknown or
/// no clock can show it, else that time in some time zone.
pub open spec fn shows_time(ms: i64, t: Text) -> bool {
    if 0 < ms <= LAST_CLOCK_MS {
        is_local_time(ms, t)
    } else {
        t.len() == 0
    }
}

/// The local time of a message; empty where its time is unknown.
pub fn msg_time_str(ms: i64) -> (r: String)
    ensures
        shows_time(ms, r@),
{
    if ms <= 0 {
        return String::new();
    }
    match local_text(ms) {
        Some(t) => t,
        None => String::new(),
    }
}

/// A compact age: minutes up to an hour, hours up to two days, else days; empty
/// for a time that is unknown or not past.
pub open spec fn age_text(ms: int) -> Text {
    let mins = ms / 60_000;
    let hours = mins / 60;
    if ms <= 0 {
        Seq::empty()
    } else if mins < 1 {
        "0min"@
    } else if mins < 60 {
        decimal(mins as nat) + "min"@
    } else if hours < 48 {
        decimal(hours as nat) + "h"@
    } else {
        decimal((hours / 24) as nat) + "d"@
    }
}

/// A compact age.
pub fn human_age_ms(ms: i64) -> (r: String)
    ensures
        r@ == age_text(ms as int),
{
    if ms <= 0 {
        return String::new();
    }
    let mins: u64 = ms as u64 / 60_000;
    if mins < 1 {
        return "0min".to_string();
    }
    if mins < 60 {
        let mut s = number(mins);
        s.push_str("min");
        return s;
    }
    let hours: u64 = mins / 60;
    if hours < 48 {
        let mut s = number(hours);
        s.push_str("h");
        return s;
    }
    let mut s = number(hours / 24);
    s.push_str("d");
    s
}

/// Whether the time from `t` to `now` fits in 64 bits.
pub open spec fn fits(now: i64, t: i64) -> bool {
    i64::MIN <= now - t <= i64::MAX
}

proof fn lemma_year_len(year: int)
    ensures
        year_start(year + 1) == year_start(year) + (if is_leap(year) {
            366int
        } else {
            365
        }),
{
}

proof fn lemma_year_days(year: int)
    ensures
        year_start(year) + days_before_month(year, 13) == year_start(year + 1),
{
    lemma_year_len(year);
    reveal_with_fuel(days_before_month, 13);
}

proof fn lemma_years_grow(a: int, b: int)
    requires
        a <= b,
    ensures
        year_start(a) <= year_start(b),
    decreases b - a,
{
    if a < b {
        lemma_years_grow(a, b - 1);
        lemma_year_len(b - 1);
    }
}

proof fn lemma_months_grow(year: int, a: int, b: int)
    requires
        1 <= a <= b,
    ensures
        days_before_month(year, a) <= days_before_month(year, b),
    decreases b - a,
{
    if a < b {
        lemma_months_grow(year, a, b - 1);
    }
}

/// A day lies in its year.
proof fn lemma_in_year(d: DateView)
    requires
        valid_date(d),
    ensures
        year_start(d.year) <= day_number(d) < year_start(d.year + 1),
{
    lemma_months_grow(d.year, 1, d.month);
    lemma_months_grow(d.year, d.month + 1, 13);
    lemma_year_days(d.year);
}

proof fn lemma_not_later(a: DateView, b: DateView)
    requires
        valid_date(a),
        valid_date(b),
        day_number(a) == day_number(b),
    ensures
        a.year <= b.year,
        a.year == b.year ==> a.month <= b.month,
{
    lemma_in_year(a);
    lemma_in_year(b);
    if b.year < a.year {
        lemma_years_grow(b.year + 1, a.year);
    }
    if a.year == b.year && b.month < a.month {
        lemma_months_grow(a.year, b.month + 1, a.month);
    }
}

/// A date is the only one of its day.
pub proof fn dates_are_unique(d: DateView)
    requires
        valid_date(d),
    ensures
        date_of(day_number(d)) == d,
{
    let e = date_of(day_number(d));
    assert(valid_date(e) && day_number(e) == day_number(d));
    lemma_not_later(d, e);
    lemma_not_later(e, d);
}

/// Every day has a date.
pub proof fn days_have_dates(day: int)
    ensures
        valid_date(date_of(day)),
        day_number(date_of(day)) == day,
    decreases (if day < 0 {
        -day
    } else {
        day
    }),
{
    if day == 0 {
        let d = DateView { year: 1970, month: 1, day: 1 };
        assert(valid_date(d) && day_number(d) == 0);
    } else if day > 0 {
        days_have_dates(day - 1);
        let p = date_of(day - 1);
        let d = if p.day < month_len(p.year, p.month) {
            DateView { day: p.day + 1, ..p }
        } else if p.month < 12 {
            DateView { month: p.month + 1, day: 1, ..p }
        } else {
            DateView { year: p.year + 1, month: 1, day: 1 }
        };
        lemma_year_days(p.year);
        assert(days_before_month(p.year, p.month + 1) == days_before_month(p.year, p.month)
            + month_len(p.year, p.month));
        assert(valid_date(d) && day_number(d) == day);
    } else {
        days_have_dates(day + 1);
        let n = date_of(day + 1);
        let d = if n.day > 1 {
            DateView { day: n.day - 1, ..n }
        } else if n.month > 1 {
            DateView { month: n.month - 1, day: month_len(n.year, n.month - 1), ..n }
        } else {
            DateView { year: n.year - 1, month: 12, day: 31 }
        };
        lemma_year_days(n.year - 1);
        assert(days_before_month(d.year, 13) == days_before_month(d.year, 12) + 31);
        assert(valid_date(d) && day_number(d) == day);
    }
}

} // verus!

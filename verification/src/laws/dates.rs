//! The calendar, and numbers that are rounded.

use crate::clock::{day_number, month_len, valid_date, year_start, DateView};
use crate::json::{rounded_double, whole_of, JsonView};
use vstd::arithmetic::power2::pow2;
use vstd::prelude::*;

verus! {

/// Days are counted from the first day of 1970. A year has 365 days, and one more where
/// it can be divided by four, but not where it can by a hundred unless it can by four
/// hundred.
pub proof fn years_follow(year: int)
    ensures
        year_start(1970) == 0,
        year_start(year + 1) - year_start(year) == (if year % 4 == 0 && (year % 100 != 0 || year % 400
            == 0) {
            366int
        } else {
            365
        }),
{
    let a = year - 1;
    lemma_steps(a, 4);
    lemma_steps(a, 100);
    lemma_steps(a, 400);
    assert(year % 400 == 0 ==> year % 100 == 0 && year % 4 == 0);
    assert(year % 100 == 0 ==> year % 4 == 0);
}

proof fn lemma_steps(a: int, n: int)
    requires
        n == 4 || n == 100 || n == 400,
    ensures
        (a + 1) / n - a / n == (if (a + 1) % n == 0 {
            1int
        } else {
            0
        }),
{
}

/// A month has thirty or thirty-one days, and February twenty-eight or, in a leap year,
/// twenty-nine.
pub proof fn months_have_days(year: int, month: int)
    requires
        1 <= month <= 12,
    ensures
        month_len(year, month) == (if month == 4 || month == 6 || month == 9 || month == 11 {
            30int
        } else if month != 2 {
            31
        } else if year_start(year + 1) - year_start(year) == 366 {
            29
        } else {
            28
        }),
{
    years_follow(year);
}

/// Days follow each other: the next day of a month, the first of the next month behind
/// the last, and the first of January behind the last of December.
pub proof fn days_follow(d: DateView)
    requires
        valid_date(d),
    ensures
        d.day < month_len(d.year, d.month) ==> valid_date(DateView { day: d.day + 1, ..d })
            && day_number(DateView { day: d.day + 1, ..d }) == day_number(d) + 1,
        d.day == month_len(d.year, d.month) && d.month < 12 ==> valid_date(
            DateView { year: d.year, month: d.month + 1, day: 1 },
        ) && day_number(DateView { year: d.year, month: d.month + 1, day: 1 }) == day_number(d) + 1,
        d.day == month_len(d.year, d.month) && d.month == 12 ==> valid_date(
            DateView { year: d.year + 1, month: 1, day: 1 },
        ) && day_number(DateView { year: d.year + 1, month: 1, day: 1 }) == day_number(d) + 1,
        day_number(DateView { year: 1970, month: 1, day: 1 }) == 0,
{
    years_follow(d.year);
    if d.month == 12 {
        reveal_with_fuel(crate::clock::days_before_month, 13);
    }
}

/// A fraction is rounded to the nearest whole number; a whole number stays what it is.
/// `e` and `m` are the exponent and the fraction of the double.
pub proof fn doubles_are_rounded(e: int, m: int)
    requires
        1 <= e < 2047,
        0 <= m < 0x10_0000_0000_0000,
    ensures
        ({
            let bits = (e * 0x10_0000_0000_0000 + m) as u64;
            let sig = 0x10_0000_0000_0000 + m;
            let r = rounded_double(bits) as int;
            &&& e < 1075 ==> ({
                let unit = pow2((1075 - e) as nat) as int;
                2 * (r * unit - sig) <= unit && 2 * (sig - r * unit) <= unit
            })
            &&& e >= 1075 && sig * pow2((e - 1075) as nat) <= u64::MAX ==> r == sig * pow2(
                (e - 1075) as nat,
            )
            &&& e >= 1075 && sig * pow2((e - 1075) as nat) > u64::MAX ==> r == u64::MAX
        }),
{
    let bits = (e * 0x10_0000_0000_0000 + m) as u64;
    let sig = 0x10_0000_0000_0000 + m;
    assert(bits as int == e * 0x10_0000_0000_0000 + m);
    assert(bits / 0x10_0000_0000_0000 == e);
    assert(bits % 0x10_0000_0000_0000 == m);
    assert(crate::json::exponent_field(bits) == e);
    assert(crate::json::significand(bits) == sig);
    assert(crate::json::scale(bits) == e - 1075);
    if e < 1075 {
        let unit = pow2((1075 - e) as nat) as int;
        vstd::arithmetic::power2::lemma_pow2_pos((1075 - e) as nat);
        let q = (2 * sig + unit) / (2 * unit);
        lemma_nearest(sig, unit);
        assert(rounded_double(bits) as int == q);
    }
}

/// A whole number stays what it is, as far as it is one of 64 bits without a sign.
pub proof fn whole_numbers_stay(n: int, v: JsonView)
    ensures
        0 <= n <= u64::MAX ==> whole_of(JsonView::Int(n)) == Some(n as u64),
        n < 0 ==> whole_of(JsonView::Int(n)) == Some(0u64),
        n > u64::MAX ==> whole_of(JsonView::Int(n)) == Some(u64::MAX),
        !(v is Int) && !(v is Float) ==> whole_of(v) is None,
{
}

proof fn lemma_nearest(sig: int, unit: int)
    requires
        unit >= 1,
        0 <= sig < 0x20_0000_0000_0000,
    ensures
        ({
            let q = (2 * sig + unit) / (2 * unit);
            &&& 2 * (q * unit - sig) <= unit
            &&& 2 * (sig - q * unit) <= unit
            &&& 0 <= q <= 0x20_0000_0000_0000
        }),
{
    let n = 2 * sig + unit;
    let d = 2 * unit;
    let q = n / d;
    vstd::arithmetic::div_mod::lemma_fundamental_div_mod(n, d);
    assert(0 <= n % d < d);
    assert(d * q == 2 * (q * unit)) by (nonlinear_arith)
        requires
            d == 2 * unit,
    ;
    assert(q >= 0) by (nonlinear_arith)
        requires
            d >= 1,
            d * q + (n % d) == n,
            n >= 0,
            n % d < d,
    ;
    assert(q <= 0x20_0000_0000_0000) by (nonlinear_arith)
        requires
            unit >= 1,
            2 * (q * unit) <= 2 * sig + unit,
            sig < 0x20_0000_0000_0000,
            q >= 0,
    ;
}

} // verus!

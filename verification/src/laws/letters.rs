//! Numbers, lines, words and times as they are written and read.

use crate::clock::{
    age_text, dates_are_unique, day_number, two_digits, valid_date, written_time, year_text,
    zone_text, DateView,
};
use crate::order::{in_order, ordered, slot, Ranked};
use crate::text::{
    begins, decimal, digit, head, is_blank, is_white, joined, lemma_next_char, lines_from,
    lines_of, next_char, occurs_at, replaced, replaced_from, small_text, strip_cr, trim_end,
    trim_start, trimmed, Text,
};
use vstd::prelude::*;

verus! {

/// A number is written digit by digit, the highest first, without zeros before it.
pub proof fn numbers_are_written(n: nat, d: nat)
    requires
        d < 10,
    ensures
        decimal(d) == seq![(48 + d) as char],
        n > 0 ==> decimal(10 * n + d) == decimal(n).push((48 + d) as char),
        decimal(n).len() > 0,
{
    if n > 0 {
        assert((10 * n + d) / 10 == n && (10 * n + d) % 10 == d);
    }
}

proof fn lemma_digits(n: nat)
    ensures
        decimal(n).len() > 0,
        forall|i: int|
            0 <= i < decimal(n).len() ==> 48 <= (#[trigger] decimal(n)[i]) as u32 && decimal(
                n,
            )[i] as u32 <= 57,
        n >= 10 ==> decimal(n).len() >= 2,
        n > 0 ==> decimal(n)[0] != '0',
    decreases n,
{
    if n >= 10 {
        lemma_digits(n / 10);
    }
}

/// Numbers that are written alike are the same.
pub proof fn numbers_are_told_apart(n: nat, m: nat)
    requires
        decimal(n) == decimal(m),
    ensures
        n == m,
    decreases n,
{
    lemma_digits(n);
    lemma_digits(m);
    if n < 10 {
        if m >= 10 {
            lemma_digits(m / 10);
        } else {
            assert(decimal(n)[0] == decimal(m)[0]);
        }
    } else if m < 10 {
        lemma_digits(n / 10);
    } else {
        let a = decimal(n / 10);
        let b = decimal(m / 10);
        assert(a.push(digit((n % 10) as int)).drop_last() =~= a);
        assert(b.push(digit((m % 10) as int)).drop_last() =~= b);
        numbers_are_told_apart(n / 10, m / 10);
        assert(a.push(digit((n % 10) as int)).last() == b.push(digit((m % 10) as int)).last());
    }
}

/// Parts are joined in order, with the separator between each two and nowhere else.
pub proof fn parts_are_joined(parts: Seq<Text>, x: Text, sep: Text)
    ensures
        joined(Seq::empty(), sep).len() == 0,
        joined(seq![x], sep) == x,
        parts.len() > 0 ==> joined(parts.push(x), sep) == joined(parts, sep) + sep + x,
{
    if parts.len() > 0 {
        assert(parts.push(x).drop_last() =~= parts);
    }
}

proof fn lemma_next_end(s: Text, a: int, n: int)
    requires
        0 <= a <= n < s.len(),
        s[n] == '\n',
        forall|i: int| a <= i < n ==> #[trigger] s[i] != '\n',
    ensures
        next_char(s, '\n', a) == n,
    decreases n - a,
{
    if a < n {
        lemma_next_end(s, a + 1, n);
    }
}

proof fn lemma_no_end(s: Text, a: int)
    requires
        0 <= a <= s.len(),
        forall|i: int| a <= i < s.len() ==> #[trigger] s[i] != '\n',
    ensures
        next_char(s, '\n', a) == s.len(),
    decreases s.len() - a,
{
    if a < s.len() {
        lemma_no_end(s, a + 1);
    }
}

proof fn lemma_next_shift(s: Text, t: Text, from: int, k: int)
    requires
        0 <= from <= t.len(),
        0 <= k,
        s.len() == t.len() + k,
        forall|i: int| 0 <= i < t.len() ==> #[trigger] t[i] == s[i + k],
    ensures
        next_char(s, '\n', from + k) == next_char(t, '\n', from) + k,
    decreases t.len() - from,
{
    if from < t.len() {
        assert(t[from] == s[from + k]);
        lemma_next_shift(s, t, from + 1, k);
    }
}

proof fn lemma_lines_shift(s: Text, t: Text, from: int, k: int)
    requires
        0 <= from <= t.len(),
        0 <= k,
        s.len() == t.len() + k,
        forall|i: int| 0 <= i < t.len() ==> #[trigger] t[i] == s[i + k],
    ensures
        lines_from(s, from + k) == lines_from(t, from),
    decreases t.len() - from,
{
    if from < t.len() {
        lemma_next_shift(s, t, from, k);
        lemma_next_char(t, '\n', from);
        let n = next_char(t, '\n', from);
        if n < t.len() {
            lemma_lines_shift(s, t, n + 1, k);
            assert(s.subrange(from + k, n + k) =~= t.subrange(from, n));
        } else {
            assert(s.skip(from + k) =~= t.skip(from));
        }
    }
}

/// A text is cut into its lines at each line feed: a line and what follows it are that
/// line, without a carriage return at its end, and the lines of what follows.
pub proof fn lines_are_cut(a: Text, b: Text)
    requires
        forall|i: int| 0 <= i < a.len() ==> #[trigger] a[i] != '\n',
    ensures
        lines_of(a.push('\n') + b) == seq![strip_cr(a)] + lines_of(b),
        a.len() > 0 ==> lines_of(a) == seq![a],
        lines_of(Seq::empty()).len() == 0,
        a.len() == 0 || a.last() != '\r' ==> strip_cr(a) == a,
        a.len() > 0 && a.last() == '\r' ==> strip_cr(a) == a.drop_last(),
{
    let s = a.push('\n') + b;
    let n = a.len() as int;
    assert(s[n] == '\n');
    assert forall|i: int| 0 <= i < n implies #[trigger] s[i] != '\n' by {
        assert(s[i] == a[i]);
    }
    lemma_next_end(s, 0, n);
    assert(s.subrange(0, n) =~= a);
    lemma_lines_shift(s, b, 0, n + 1);
    if a.len() > 0 {
        lemma_no_end(a, 0);
        assert(a.skip(0) =~= a);
    }
}

proof fn lemma_trim_start(s: Text)
    ensures
        ({
            let t = trim_start(s);
            &&& t.len() <= s.len()
            &&& s.skip(s.len() - t.len()) == t
            &&& is_blank(s.take(s.len() - t.len()))
            &&& t.len() > 0 ==> !is_white(t[0])
        }),
    decreases s.len(),
{
    if s.len() > 0 && is_white(s[0]) {
        let r = s.skip(1);
        lemma_trim_start(r);
        let t = trim_start(s);
        assert(s.skip(s.len() - t.len()) =~= r.skip(r.len() - t.len()));
        assert forall|i: int| 0 <= i < s.len() - t.len() implies is_white(
            #[trigger] s.take(s.len() - t.len())[i],
        ) by {
            if i > 0 {
                assert(s[i] == r.take(r.len() - t.len())[i - 1]);
            }
        }
    } else {
        assert(s.skip(0) =~= s);
    }
}

pub proof fn lemma_trim_end(s: Text)
    ensures
        ({
            let t = trim_end(s);
            &&& t.len() <= s.len()
            &&& s.take(t.len() as int) == t
            &&& is_blank(s.skip(t.len() as int))
            &&& t.len() > 0 ==> !is_white(t.last())
        }),
    decreases s.len(),
{
    if s.len() > 0 && is_white(s.last()) {
        let r = s.drop_last();
        lemma_trim_end(r);
        let t = trim_end(s);
        assert(s.take(t.len() as int) =~= r.take(t.len() as int));
        assert forall|i: int| 0 <= i < s.len() - t.len() implies is_white(
            #[trigger] s.skip(t.len() as int)[i],
        ) by {
            if i < r.len() - t.len() {
                assert(s.skip(t.len() as int)[i] == r.skip(t.len() as int)[i]);
            }
        }
    } else {
        assert(s.take(s.len() as int) =~= s);
    }
}

/// Blanks, tabs and line ends are white; of the other characters of ASCII none is.
pub proof fn white_characters(c: char)
    ensures
        c == ' ' || c == '\t' || c == '\n' || c == '\r' ==> is_white(c),
        (c as u32) < 128 && c != ' ' && !(9 <= c as u32 <= 13) ==> !is_white(c),
        0x4E00 <= c as u32 <= 0x9FFF ==> !is_white(c),
        c as u32 == 0x3000 ==> is_white(c),
{
}

/// Trimming takes the white off both ends and nothing else: what is left neither begins
/// nor ends with white, and what was taken off is blank.
pub proof fn white_is_taken_off(s: Text) -> (r: (Text, Text))
    ensures
        s == r.0 + trimmed(s) + r.1,
        is_blank(r.0),
        is_blank(r.1),
        trimmed(s).len() > 0 ==> !is_white(trimmed(s)[0]) && !is_white(trimmed(s).last()),
{
    let a = trim_start(s);
    let b = trim_end(a);
    lemma_trim_start(s);
    lemma_trim_end(a);
    let pre = s.take(s.len() - a.len());
    let post = a.skip(b.len() as int);
    assert(a =~= b + post);
    assert(s =~= pre + a);
    assert(s =~= pre + b + post);
    if b.len() > 0 {
        assert(b[0] == a[0]);
    }
    (pre, post)
}

proof fn lemma_replaced_prefix(s: Text, pat: Text, with: Text, from: int, i: int)
    requires
        0 <= from <= i <= s.len(),
        pat.len() > 0,
        forall|j: int| from <= j < i ==> !occurs_at(s, pat, j),
    ensures
        replaced_from(s, pat, with, from) == s.subrange(from, i) + replaced_from(s, pat, with, i),
    decreases i - from,
{
    if from < i {
        lemma_replaced_prefix(s, pat, with, from + 1, i);
        assert(!occurs_at(s, pat, from));
        assert(seq![s[from]] + (s.subrange(from + 1, i) + replaced_from(s, pat, with, i))
            =~= s.subrange(from, i) + replaced_from(s, pat, with, i));
    } else {
        assert(s.subrange(from, i) + replaced_from(s, pat, with, i) =~= replaced_from(
            s,
            pat,
            with,
            i,
        ));
    }
}

proof fn lemma_replaced_shift(s: Text, t: Text, pat: Text, with: Text, from: int, k: int)
    requires
        0 <= from,
        0 <= k,
        s.len() == t.len() + k,
        forall|i: int| 0 <= i < t.len() ==> #[trigger] t[i] == s[i + k],
    ensures
        replaced_from(s, pat, with, from + k) == replaced_from(t, pat, with, from),
    decreases t.len() - from,
{
    if from < t.len() {
        assert(t[from] == s[from + k]);
        if from + pat.len() <= t.len() {
            assert(s.subrange(from + k, from + k + pat.len()) =~= t.subrange(
                from,
                from + pat.len(),
            ));
        }
        lemma_replaced_shift(s, t, pat, with, from + 1, k);
        if pat.len() > 0 && from + pat.len() <= t.len() {
            lemma_replaced_shift(s, t, pat, with, from + pat.len(), k);
        }
    }
}

/// Replacing puts the new text in the first place of the old one and goes on behind it;
/// a text without the old one stays.
pub proof fn texts_are_replaced(s: Text, pat: Text, with: Text, i: int)
    requires
        pat.len() > 0,
    ensures
        (forall|j: int| 0 <= j ==> !occurs_at(s, pat, j)) ==> replaced(s, pat, with) == s,
        occurs_at(s, pat, i) && (forall|j: int| 0 <= j < i ==> !occurs_at(s, pat, j)) ==> replaced(
            s,
            pat,
            with,
        ) == s.take(i) + with + replaced(s.skip(i + pat.len()), pat, with),
{
    if forall|j: int| 0 <= j ==> !occurs_at(s, pat, j) {
        lemma_replaced_prefix(s, pat, with, 0, s.len() as int);
        assert(s.subrange(0, s.len() as int) + Seq::<char>::empty() =~= s);
    }
    if occurs_at(s, pat, i) && (forall|j: int| 0 <= j < i ==> !occurs_at(s, pat, j)) {
        lemma_replaced_prefix(s, pat, with, 0, i);
        let t = s.skip(i + pat.len());
        lemma_replaced_shift(s, t, pat, with, 0, i + pat.len());
        assert(s.subrange(0, i) + (with + replaced(t, pat, with)) =~= s.take(i) + with + replaced(
            t,
            pat,
            with,
        ));
    }
}

/// The head of a text is its beginning, and all of it where it is short.
pub proof fn heads_are_beginnings(s: Text, n: int)
    requires
        n >= 0,
    ensures
        begins(s, head(s, n)),
        s.len() <= n ==> head(s, n) == s,
        s.len() > n ==> head(s, n).len() == n,
{
    let h = head(s, n);
    assert(s.subrange(0, h.len() as int) =~= h);
}

/// Capital letters of ASCII are made small, one by one; every other character stays.
pub proof fn letters_are_made_small(s: Text, i: int)
    requires
        0 <= i < s.len(),
    ensures
        small_text(s).len() == s.len(),
        65 <= s[i] as u32 <= 90 ==> small_text(s)[i] as u32 == s[i] as u32 + 32,
        !(65 <= s[i] as u32 <= 90) ==> small_text(s)[i] == s[i],
{
}

/// An age is told in minutes up to an hour, in hours up to two days, else in days, each
/// as far as it is full; for what is not past there is nothing to tell.
pub proof fn ages_are_told(n: int, rest: int)
    requires
        n >= 0,
    ensures
        n == 0 && 0 < rest < 60_000 ==> age_text(rest) == "0min"@,
        1 <= n < 60 && 0 <= rest < 60_000 ==> age_text(n * 60_000 + rest) == decimal(n as nat)
            + "min"@,
        1 <= n < 48 && 0 <= rest < 3_600_000 ==> age_text(n * 3_600_000 + rest) == decimal(n as nat)
            + "h"@,
        2 <= n && 0 <= rest < 86_400_000 ==> age_text(n * 86_400_000 + rest) == decimal(n as nat)
            + "d"@,
        rest <= 0 ==> age_text(rest).len() == 0,
{
    if 1 <= n && 0 <= rest < 60_000 {
        assert((n * 60_000 + rest) / 60_000 == n);
    }
    if 1 <= n && 0 <= rest < 3_600_000 {
        let ms = n * 3_600_000 + rest;
        assert(ms / 60_000 == n * 60 + rest / 60_000);
        assert((n * 60 + rest / 60_000) / 60 == n);
    }
    if 2 <= n && 0 <= rest < 86_400_000 {
        let ms = n * 86_400_000 + rest;
        assert(ms / 60_000 == n * 1440 + rest / 60_000);
        assert((n * 1440 + rest / 60_000) / 60 == n * 24 + rest / 60_000 / 60);
        assert((n * 24 + rest / 60_000 / 60) / 24 == n);
    }
}

/// A time is written as the date and the time of day that the clocks of its zone show,
/// and the zone.
pub proof fn times_are_written(d: DateView, hour: int, minute: int, second: int, off: int)
    requires
        valid_date(d),
        0 <= hour < 24,
        0 <= minute < 60,
        0 <= second < 60,
    ensures
        written_time(
            day_number(d) * 86_400 + hour * 3600 + minute * 60 + second - off,
            off,
        ) == year_text(d.year) + "-"@ + two_digits(d.month) + "-"@ + two_digits(d.day) + " "@
            + two_digits(hour) + ":"@ + two_digits(minute) + ":"@ + two_digits(second) + " "@
            + zone_text(off),
{
    dates_are_unique(d);
    let day = day_number(d);
    let secs = day * 86_400 + hour * 3600 + minute * 60 + second - off;
    lemma_time_of_day(day, hour, minute, second);
    assert(secs + off == day * 86_400 + hour * 3600 + minute * 60 + second);
}

proof fn lemma_time_of_day(day: int, hour: int, minute: int, second: int)
    requires
        0 <= hour < 24,
        0 <= minute < 60,
        0 <= second < 60,
    ensures
        ({
            let t = hour * 3600 + minute * 60 + second;
            let all = day * 86_400 + hour * 3600 + minute * 60 + second;
            &&& all / 86_400 == day
            &&& all % 86_400 == t
            &&& t / 3600 == hour
            &&& t / 60 % 60 == minute
            &&& t % 60 == second
        }),
{
    let t = hour * 3600 + minute * 60 + second;
    assert(t / 60 == hour * 60 + minute);
}

/// Two digits are those of the number, and a year of four digits those of the year.
pub proof fn digits_of_dates(a: int, b: int, c: int, d: int)
    requires
        0 <= a < 10,
        0 <= b < 10,
        0 <= c < 10,
        0 <= d < 10,
    ensures
        two_digits(10 * a + b) == seq![(48 + a) as char, (48 + b) as char],
        year_text(1000 * a + 100 * b + 10 * c + d) == seq![
            (48 + a) as char,
            (48 + b) as char,
            (48 + c) as char,
            (48 + d) as char,
        ],
{
    let y = 1000 * a + 100 * b + 10 * c + d;
    assert(y / 100 == 10 * a + b && y % 100 == 10 * c + d);
    assert((10 * a + b) / 10 == a && (10 * a + b) % 10 == b);
    assert((10 * c + d) / 10 == c && (10 * c + d) % 10 == d);
    assert(two_digits(10 * a + b) + two_digits(10 * c + d) =~= seq![
        (48 + a) as char,
        (48 + b) as char,
        (48 + c) as char,
        (48 + d) as char,
    ]);
}

/// A zone is written by its sign, its hours and its minutes; a year beyond four digits
/// with its sign.
pub proof fn zones_and_years_are_written(hours: int, minutes: int, year: int)
    requires
        0 <= hours < 24,
        0 <= minutes < 60,
        year > 9999,
    ensures
        zone_text(hours * 3600 + minutes * 60) == "+"@ + two_digits(hours) + two_digits(minutes),
        hours + minutes > 0 ==> zone_text(-(hours * 3600 + minutes * 60)) == "-"@ + two_digits(hours)
            + two_digits(minutes),
        year_text(year) == "+"@ + decimal(year as nat),
        year_text(-year) == "-"@ + decimal(year as nat),
        forall|y: int| 0 < y <= 9999 ==> #[trigger] year_text(-y) == "-"@ + year_text(y),
{
    let off = hours * 3600 + minutes * 60;
    assert((off + 30) / 60 == hours * 60 + minutes);
    assert((hours * 60 + minutes) / 60 == hours && (hours * 60 + minutes) % 60 == minutes);
    assert forall|y: int| 0 < y <= 9999 implies #[trigger] year_text(-y) == "-"@ + year_text(y) by {
        assert("-"@ + (two_digits(y / 100) + two_digits(y % 100)) =~= "-"@ + two_digits(y / 100)
            + two_digits(y % 100));
    }
}

/// What is in order stays as it is when it is sorted.
pub proof fn order_is_kept<T: Ranked>(s: Seq<T::V>)
    requires
        in_order::<T>(s),
    ensures
        ordered::<T>(s) == s,
    decreases s.len(),
{
    if s.len() > 0 {
        let r = s.skip(1);
        assert forall|i: int, j: int| 0 <= i < j < r.len() implies !T::precedes(
            #[trigger] r[j],
            #[trigger] r[i],
        ) by {
            assert(!T::precedes(s[j + 1], s[i + 1]));
        }
        order_is_kept::<T>(r);
        if r.len() > 0 {
            assert(!T::precedes(s[1], s[0]));
            assert(r[0] == s[1]);
        }
        assert(slot::<T>(r, s[0], 0) == 0);
        assert(r.insert(0, s[0]) =~= s);
    } else {
        assert(ordered::<T>(s) =~= s);
    }
}

} // verus!

//! What a page says of its letters and of its age.

use crate::stream::lossy_text;
use crate::text::{
    decimal, first_at, is_white, next_char, occurs, occurs_at, small_text, trimmed, Text,
};
use crate::tools::{
    ago_at, charset_in, chinese_hint, content_hint, decoded_as, digits_start, digits_value,
    english_hint, epoch_at, epoch_hint, first_ago, first_hint, header_charset, is_digit,
    is_label_char, label_from, next_epoch, page_age, page_charset, page_source, spaces_start,
};
use vstd::prelude::*;

verus! {

/// The charset that a header names is taken, and else the one that the page names
/// itself; without either, or with one that nobody knows, the page is read as UTF-8.
pub proof fn pages_are_decoded(content_type: Option<Text>, bytes: Seq<u8>)
    ensures
        content_type matches Some(c) ==> (header_charset(c) matches Some(x) ==> page_charset(
            content_type,
            bytes,
        ) == Some(x)),
        (content_type is None || header_charset(content_type->Some_0) is None) && bytes.len()
            <= 4096 ==> page_charset(content_type, bytes) == charset_in(lossy_text(bytes)),
        page_charset(content_type, bytes) matches Some(x) ==> (decoded_as(x, bytes) matches Some(t)
            ==> page_source(content_type, bytes) == t),
        page_charset(content_type, bytes) matches Some(x) ==> (decoded_as(x, bytes) is None
            ==> page_source(content_type, bytes) == lossy_text(bytes)),
        page_charset(content_type, bytes) is None ==> page_source(content_type, bytes)
            == lossy_text(bytes),
{
}

proof fn lemma_next(s: Text, c: char, a: int, n: int)
    requires
        0 <= a <= n <= s.len(),
        n < s.len() ==> s[n] == c,
        forall|i: int| a <= i < n ==> #[trigger] s[i] != c,
    ensures
        next_char(s, c, a) == n,
    decreases n - a,
{
    if a < n {
        lemma_next(s, c, a + 1, n);
    }
}

/// A header names its charset behind its type.
pub proof fn headers_name_charsets(kind: Text, name: Text)
    requires
        !kind.contains(';'),
        !name.contains(';'),
        name.len() > 0,
        !is_white(name.last()),
    ensures
        header_charset(kind + "; charset="@ + name) == Some(name),
        header_charset(kind) is None,
{
    reveal_strlit("; charset=");
    reveal_strlit("charset=");
    let s = kind + "; charset="@ + name;
    let n = kind.len() as int;
    assert forall|i: int| 0 <= i < n implies #[trigger] s[i] != ';' by {
        assert(s[i] == kind[i]);
        assert(kind.contains(kind[i]));
    }
    lemma_next(s, ';', 0, n);
    assert("; charset="@[0] == ';');
    assert forall|i: int| n + 1 <= i < s.len() implies #[trigger] s[i] != ';' by {
        if i < n + 10 {
            assert(s[i] == "; charset="@[i - n]);
        } else {
            assert(s[i] == name[i - n - 10]);
            assert(name.contains(name[i - n - 10]));
        }
    }
    lemma_next(s, ';', n + 1, s.len() as int);
    let p = s.subrange(n + 1, s.len() as int);
    let t = "charset="@ + name;
    assert(p =~= seq![' '] + t);
    lemma_trim(t);
    assert(t.subrange(0, 8) =~= "charset="@);
    assert(t.skip(8) =~= name);
    assert forall|i: int| 0 <= i < n implies #[trigger] kind[i] != ';' by {
        assert(kind.contains(kind[i]));
    }
    lemma_next(kind, ';', 0, n);
}

proof fn lemma_trim(t: Text)
    requires
        t.len() > 0,
        !is_white(t[0]),
        !is_white(t.last()),
    ensures
        trimmed(seq![' '] + t) == t,
{
    let s = seq![' '] + t;
    assert(s.skip(1) =~= t);
    reveal_with_fuel(crate::text::trim_start, 2);
}

proof fn lemma_label(s: Text, a: int, n: int)
    requires
        0 <= a <= n <= s.len(),
        forall|k: int| a <= k < n ==> is_label_char(#[trigger] s[k]),
        n < s.len() ==> !is_label_char(s[n]),
    ensures
        label_from(s, a) == s.subrange(a, n),
    decreases n - a,
{
    if a < n {
        lemma_label(s, a + 1, n);
        assert(seq![s[a]] + s.subrange(a + 1, n) =~= s.subrange(a, n));
    } else {
        assert(s.subrange(a, n) =~= Seq::<char>::empty());
    }
}

proof fn lemma_same_first(s: Text, w: Text, i: int, j: int)
    requires
        first_at(s, w, i),
        first_at(s, w, j),
    ensures
        i == j,
{
    if i < j {
        assert(!occurs_at(s, w, i));
    }
    if j < i {
        assert(!occurs_at(s, w, j));
    }
}

/// Of the characters of ASCII a charset's name is made of letters, digits, hyphens and
/// underscores.
pub proof fn names_of_charsets(c: char)
    requires
        (c as u32) < 128,
    ensures
        is_label_char(c) <==> ('0' <= c && c <= '9') || ('a' <= c && c <= 'z') || ('A' <= c && c
            <= 'Z') || c == '-' || c == '_',
{
}

/// A page names its charset behind the first `charset=` in it, with a quote before it or
/// without; in small letters. A page that says nothing of it has none.
pub proof fn pages_name_charsets(page: Text, i: int, n: int)
    ensures
        ({
            let low = small_text(page);
            let quoted = i + 8 < low.len() && (low[i + 8] == '"' || low[i + 8] == '\'');
            let a = if quoted {
                i + 9
            } else {
                i + 8
            };
            first_at(low, "charset="@, i) && a < n <= low.len() && (forall|k: int|
                a <= k < n ==> is_label_char(#[trigger] low[k])) && (n < low.len()
                ==> !is_label_char(low[n])) ==> charset_in(page) == Some(low.subrange(a, n))
        }),
        !occurs(small_text(page), "charset="@) ==> charset_in(page) is None,
{
    let low = small_text(page);
    let quoted = i + 8 < low.len() && (low[i + 8] == '"' || low[i + 8] == '\'');
    let a = if quoted {
        i + 9
    } else {
        i + 8
    };
    if first_at(low, "charset="@, i) && a < n <= low.len() && (forall|k: int|
        a <= k < n ==> is_label_char(#[trigger] low[k])) && (n < low.len() ==> !is_label_char(
        low[n],
    )) {
        let j = choose|j: int| first_at(low, "charset="@, j);
        lemma_same_first(low, "charset="@, i, j);
        lemma_label(low, a, n);
    }
}

proof fn lemma_digits_start(s: Text, a: int, i: int)
    requires
        0 <= a <= i <= s.len(),
        forall|k: int| a <= k < i ==> is_digit(#[trigger] s[k]),
        a > 0 ==> !is_digit(s[a - 1]),
    ensures
        digits_start(s, i) == a,
    decreases i - a,
{
    if a < i {
        assert(is_digit(s[i - 1]));
        lemma_digits_start(s, a, i - 1);
    }
}

proof fn lemma_spaces_start(s: Text, a: int, i: int)
    requires
        0 <= a <= i <= s.len(),
        forall|k: int| a <= k < i ==> is_white(#[trigger] s[k]),
        a > 0 ==> !is_white(s[a - 1]),
    ensures
        spaces_start(s, i) == a,
    decreases i - a,
{
    if a < i {
        assert(is_white(s[i - 1]));
        lemma_spaces_start(s, a, i - 1);
    }
}

/// A Chinese phrase for a time that has passed is told with its whole number and its
/// unit; without such a phrase there is nothing to tell.
pub proof fn chinese_ages_are_told(text: Text, unit: Text, a: int, i: int)
    ensures
        first_at(text, unit + "前"@, i) && 0 <= a < i && (forall|k: int|
            a <= k < i ==> is_digit(#[trigger] text[k])) && (a > 0 ==> !is_digit(text[a - 1]))
            ==> chinese_hint(text, unit) == Some(
            "relative_time="@ + text.subrange(a, i) + " "@ + unit + "前 (content)"@,
        ),
        !occurs(text, unit + "前"@) ==> chinese_hint(text, unit) is None,
        first_at(text, unit + "前"@, i) && (i == 0 || !is_digit(text[i - 1])) ==> chinese_hint(
            text,
            unit,
        ) is None,
{
    if first_at(text, unit + "前"@, i) {
        let j = choose|j: int| first_at(text, unit + "前"@, j);
        lemma_same_first(text, unit + "前"@, i, j);
        if 0 <= a < i && (forall|k: int| a <= k < i ==> is_digit(#[trigger] text[k])) && (a > 0
            ==> !is_digit(text[a - 1])) {
            lemma_digits_start(text, a, i);
        }
        if i == 0 || !is_digit(text[i - 1]) {
            lemma_digits_start(text, i, i);
        }
    }
}

/// An English phrase for a time that has passed is told with its whole number and its
/// unit, in capital letters or small ones.
pub proof fn english_ages_are_told(text: Text, unit: Text, a: int, b: int, i: int)
    ensures
        first_ago(small_text(text), unit, i) && 0 <= a < b <= i && (forall|k: int|
            a <= k < b ==> is_digit(#[trigger] text[k])) && (a > 0 ==> !is_digit(text[a - 1])) && (
        forall|k: int| b <= k < i ==> is_white(#[trigger] text[k])) ==> english_hint(text, unit)
            == Some("relative_time="@ + text.subrange(a, b) + " "@ + unit + " ago (content)"@),
        (forall|j: int| !first_ago(small_text(text), unit, j)) ==> english_hint(text, unit) is None,
{
    let low = small_text(text);
    if first_ago(low, unit, i) && 0 <= a < b <= i && (forall|k: int|
        a <= k < b ==> is_digit(#[trigger] text[k])) && (a > 0 ==> !is_digit(text[a - 1])) && (
    forall|k: int| b <= k < i ==> is_white(#[trigger] text[k])) {
        let j = choose|j: int| first_ago(low, unit, j);
        if i < j {
            assert(!ago_at(low, unit, i));
        }
        if j < i {
            assert(!ago_at(low, unit, j));
        }
        assert(i <= text.len());
        assert(is_digit(text[b - 1]));
        lemma_spaces_start(text, b, i);
        lemma_digits_start(text, a, b);
    }
}

proof fn lemma_epoch(s: Text, from: int, i: int)
    requires
        0 <= from <= i,
        epoch_at(s, i),
        forall|j: int| from <= j < i ==> !epoch_at(s, j),
    ensures
        next_epoch(s, from) == i,
    decreases i - from,
{
    if from < i {
        assert(!epoch_at(s, from));
        lemma_epoch(s, from + 1, i);
    }
}

/// A time in an address is told as it stands there, with how long ago it is.
pub proof fn times_in_addresses_are_told(s: Text, now: i64, i: int)
    requires
        epoch_at(s, i),
        forall|j: int| 0 <= j < i ==> !epoch_at(s, j),
    ensures
        ({
            let ms = digits_value(s.subrange(i + 1, i + 14));
            epoch_hint(s, now) == Some(
                "cache_param="@ + decimal(ms) + " (page ~"@ + page_age(now, ms as int) + ")"@,
            )
        }),
{
    lemma_epoch(s, 0, i);
}

/// Digits have the value that they write.
pub proof fn digits_have_values(s: Text, d: nat)
    requires
        d < 10,
    ensures
        digits_value(Seq::empty()) == 0,
        digits_value(s.push((48 + d) as char)) == 10 * digits_value(s) + d,
{
    assert(s.push((48 + d) as char).drop_last() =~= s);
}

/// The age of a page is told in full hours up to two days, in days up to two months, in
/// months up to two years, else in years.
pub proof fn page_ages_are_told(now: i64, ms: int, n: int)
    ensures
        0 <= n < 48 && n * 3_600_000 <= now - ms < (n + 1) * 3_600_000 ==> page_age(now, ms)
            == decimal(n as nat) + " hours"@,
        2 <= n <= 60 && n * 86_400_000 <= now - ms < (n + 1) * 86_400_000 ==> page_age(now, ms)
            == decimal(n as nat) + " days"@,
        61 <= n <= 730 && n * 86_400_000 <= now - ms < (n + 1) * 86_400_000 ==> page_age(now, ms)
            == decimal((n / 30) as nat) + " months"@,
        730 < n && n * 86_400_000 <= now - ms < (n + 1) * 86_400_000 ==> page_age(now, ms)
            == decimal((n / 365) as nat) + " years"@,
        now <= ms ==> page_age(now, ms) == decimal(0) + " hours"@,
{
    let past = now - ms;
    if 0 <= n < 48 && n * 3_600_000 <= past < (n + 1) * 3_600_000 {
        assert(past / 3_600_000 == n);
        assert(past / 86_400_000 <= 1);
    }
    if 2 <= n && n * 86_400_000 <= past < (n + 1) * 86_400_000 {
        assert(past / 86_400_000 == n);
    }
}

/// What a page says in words comes before what its address says, and the address before
/// a time in its text; Chinese words before English ones, and the smaller unit first.
pub proof fn hints_are_chosen(text: Text, url: Text, now: i64)
    ensures
        chinese_hint(text, "分钟"@) is Some ==> content_hint(text, url, now) == chinese_hint(
            text,
            "分钟"@,
        ),
        (chinese_hint(text, "分钟"@) is None && chinese_hint(text, "小时"@) is None && chinese_hint(
            text,
            "天"@,
        ) is None && chinese_hint(text, "星期"@) is None && chinese_hint(text, "个月"@) is None) ==> (
        english_hint(text, "minute"@) is Some ==> content_hint(text, url, now) == english_hint(
            text,
            "minute"@,
        )) && ((english_hint(text, "minute"@) is None && english_hint(text, "hour"@) is None
            && english_hint(text, "day"@) is None && english_hint(text, "week"@) is None
            && english_hint(text, "month"@) is None) ==> (epoch_hint(url, now) is Some
            ==> content_hint(text, url, now) == epoch_hint(url, now)) && (epoch_hint(url, now) is None
            ==> content_hint(text, url, now) == epoch_hint(text, now))),
{
    reveal_with_fuel(first_hint, 6);
    let cn = Seq::new(5, |i: int| chinese_hint(text, crate::tools::chinese_units()[i]));
    let en = Seq::new(5, |i: int| english_hint(text, crate::tools::english_units()[i]));
    assert(cn[0] == chinese_hint(text, "分钟"@));
    assert(cn[1] == chinese_hint(text, "小时"@));
    assert(cn[2] == chinese_hint(text, "天"@));
    assert(cn[3] == chinese_hint(text, "星期"@));
    assert(cn[4] == chinese_hint(text, "个月"@));
    assert(en[0] == english_hint(text, "minute"@));
    assert(en[1] == english_hint(text, "hour"@));
    assert(en[2] == english_hint(text, "day"@));
    assert(en[3] == english_hint(text, "week"@));
    assert(en[4] == english_hint(text, "month"@));
}

/// The first hint of a list is the first that there is.
pub proof fn first_hints(hints: Seq<Option<Text>>, from: int, i: int)
    requires
        0 <= from <= i < hints.len(),
        hints[i] is Some,
        forall|j: int| from <= j < i ==> #[trigger] hints[j] is None,
    ensures
        first_hint(hints, from) == hints[i],
    decreases i - from,
{
    if from < i {
        first_hints(hints, from + 1, i);
    }
}

} // verus!

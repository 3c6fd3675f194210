//! Plain-text helpers over strings seen as sequences of characters.

use vstd::prelude::*;
use vstd::string::*;
use vstd::utf8::*;

verus! {

/// A text, as the sequence of its characters.
pub type Text = Seq<char>;

/// The views of a sequence of values, in order.
pub open spec fn views<T: View>(s: Seq<T>) -> Seq<T::V> {
    Seq::new(s.len(), |i: int| s[i]@)
}

/// The view of an optional value.
pub open spec fn opt_view<T: View>(o: Option<T>) -> Option<T::V> {
    match o {
        Some(t) => Some(t@),
        None => None,
    }
}

pub proof fn lemma_views_push<T: View>(s: Seq<T>, t: T)
    ensures
        views(s.push(t)) == views(s).push(t@),
{
    assert(views(s.push(t)) =~= views(s).push(t@));
}

/// `String::push` appends one character.
pub assume_specification[ String::push ](s: &mut String, c: char)
    ensures
        final(s)@ == old(s)@.push(c),
;

/// `String::push_str` appends a text.
pub assume_specification[ String::push_str ](s: &mut String, t: &str)
    ensures
        final(s)@ == old(s)@ + t@,
;

/// The characters of a text.
pub fn chars_of(s: &str) -> (r: Vec<char>)
    ensures
        r@ == s@,
{
    let mut out: Vec<char> = Vec::new();
    for c in it: s.chars()
        invariant
            out@ == s@.take(it.index() as int),
            it.seq() == s@,
    {
        out.push(c);
        assert(s@.take(it.index() as int + 1) =~= s@.take(it.index() as int).push(c));
    }
    assert(s@.take(s@.len() as int) =~= s@);
    out
}

/// The text made of the characters `v[from..to]`.
pub fn string_from(v: &Vec<char>, from: usize, to: usize) -> (r: String)
    requires
        from <= to <= v@.len(),
    ensures
        r@ == v@.subrange(from as int, to as int),
{
    let mut out = String::new();
    let mut i: usize = from;
    while i < to
        invariant
            from <= i <= to <= v@.len(),
            out@ == v@.subrange(from as int, i as int),
        decreases to - i,
    {
        out.push(v[i]);
        i = i + 1;
        assert(v@.subrange(from as int, i as int) =~= v@.subrange(from as int, i - 1).push(v@[i - 1]));
    }
    out
}

/// Whether two texts are equal.
pub fn text_eq(a: &str, b: &str) -> (r: bool)
    ensures
        r == (a@ == b@),
{
    let x = a.as_bytes();
    let y = b.as_bytes();
    proof {
        encode_utf8_decode_utf8(a@);
        encode_utf8_decode_utf8(b@);
    }
    if x.len() != y.len() {
        return false;
    }
    let mut i: usize = 0;
    while i < x.len()
        invariant
            i <= x@.len(),
            x@.len() == y@.len(),
            forall|j: int| 0 <= j < i ==> x@[j] == y@[j],
            x@ == encode_utf8(a@),
            y@ == encode_utf8(b@),
        decreases x@.len() - i,
    {
        if x[i] != y[i] {
            return false;
        }
        i = i + 1;
    }
    assert(x@ =~= y@);
    true
}

/// Whether a character is whitespace (the Unicode `White_Space` property).
pub open spec fn is_white(c: char) -> bool {
    let n = c as u32;
    ||| 9 <= n <= 13
    ||| n == 0x20
    ||| n == 0x85
    ||| n == 0xA0
    ||| n == 0x1680
    ||| 0x2000 <= n <= 0x200A
    ||| n == 0x2028
    ||| n == 0x2029
    ||| n == 0x202F
    ||| n == 0x205F
    ||| n == 0x3000
}

/// Whether a text holds whitespace alone.
pub open spec fn is_blank(s: Text) -> bool {
    forall|i: int| 0 <= i < s.len() ==> is_white(#[trigger] s[i])
}

/// A text without its leading whitespace.
pub open spec fn trim_start(s: Text) -> Text
    decreases s.len(),
{
    if s.len() > 0 && is_white(s[0]) {
        trim_start(s.skip(1))
    } else {
        s
    }
}

/// A text without its trailing whitespace.
pub open spec fn trim_end(s: Text) -> Text
    decreases s.len(),
{
    if s.len() > 0 && is_white(s.last()) {
        trim_end(s.drop_last())
    } else {
        s
    }
}

/// A text without its leading and trailing whitespace.
pub open spec fn trimmed(s: Text) -> Text {
    trim_end(trim_start(s))
}

/// A text is blank exactly if nothing is left of it after trimming.
pub proof fn lemma_blank_trimmed(s: Text)
    ensures
        is_blank(s) <==> trimmed(s).len() == 0,
        is_blank(s) <==> trim_start(s).len() == 0,
        is_blank(s) <==> trim_end(s).len() == 0,
{
    lemma_blank_start(s);
    lemma_blank_end(s);
    lemma_blank_end(trim_start(s));
}

proof fn lemma_blank_start(s: Text)
    ensures
        is_blank(s) <==> trim_start(s).len() == 0,
        is_blank(trim_start(s)) <==> is_blank(s),
    decreases s.len(),
{
    if s.len() > 0 && is_white(s[0]) {
        let t = s.skip(1);
        lemma_blank_start(t);
        assert(is_blank(s) <==> is_blank(t)) by {
            if is_blank(t) {
                assert forall|i: int| 0 <= i < s.len() implies is_white(#[trigger] s[i]) by {
                    if i > 0 {
                        assert(t[i - 1] == s[i]);
                    }
                }
            }
            if is_blank(s) {
                assert forall|i: int| 0 <= i < t.len() implies is_white(#[trigger] t[i]) by {
                    assert(t[i] == s[i + 1]);
                }
            }
        }
    } else if s.len() > 0 {
        assert(!is_white(s[0]));
    }
}

proof fn lemma_blank_end(s: Text)
    ensures
        is_blank(s) <==> trim_end(s).len() == 0,
    decreases s.len(),
{
    if s.len() > 0 && is_white(s.last()) {
        let t = s.drop_last();
        lemma_blank_end(t);
        assert(is_blank(s) <==> is_blank(t)) by {
            if is_blank(t) {
                assert forall|i: int| 0 <= i < s.len() implies is_white(#[trigger] s[i]) by {
                    if i < t.len() {
                        assert(t[i] == s[i]);
                    }
                }
            }
            if is_blank(s) {
                assert forall|i: int| 0 <= i < t.len() implies is_white(#[trigger] t[i]) by {
                    assert(t[i] == s[i]);
                }
            }
        }
    } else if s.len() > 0 {
        assert(!is_white(s[s.len() - 1]));
    }
}

pub fn white(c: char) -> (r: bool)
    ensures
        r == is_white(c),
{
    let n: u32 = c as u32;
    (9 <= n && n <= 13) || n == 0x20 || n == 0x85 || n == 0xA0 || n == 0x1680 || (0x2000 <= n && n
        <= 0x200A) || n == 0x2028 || n == 0x2029 || n == 0x202F || n == 0x205F || n == 0x3000
}

/// Whether a text holds whitespace alone.
pub fn blank(s: &str) -> (r: bool)
    ensures
        r == is_blank(s@),
{
    let v = chars_of(s);
    let mut i: usize = 0;
    while i < v.len()
        invariant
            v@ == s@,
            i <= v@.len(),
            forall|j: int| 0 <= j < i ==> is_white(#[trigger] s@[j]),
        decreases v@.len() - i,
    {
        if !white(v[i]) {
            assert(!is_white(s@[i as int]));
            return false;
        }
        i = i + 1;
    }
    true
}

/// Where the text starts once its leading whitespace is gone.
fn start_of(v: &Vec<char>) -> (r: usize)
    ensures
        r <= v@.len(),
        v@.skip(r as int) == trim_start(v@),
{
    let mut i: usize = 0;
    assert(v@.skip(0) =~= v@);
    while i < v.len() && white(v[i])
        invariant
            i <= v@.len(),
            trim_start(v@.skip(i as int)) == trim_start(v@),
        decreases v@.len() - i,
    {
        assert(v@.skip(i as int).skip(1) =~= v@.skip(i + 1));
        i = i + 1;
    }
    i
}

/// Where `v[from..]` ends once its trailing whitespace is gone.
fn end_of(v: &Vec<char>, from: usize) -> (r: usize)
    requires
        from <= v@.len(),
    ensures
        from <= r <= v@.len(),
        v@.subrange(from as int, r as int) == trim_end(v@.skip(from as int)),
{
    let mut i: usize = v.len();
    assert(v@.subrange(from as int, i as int) =~= v@.skip(from as int));
    while i > from && white(v[i - 1])
        invariant
            from <= i <= v@.len(),
            trim_end(v@.subrange(from as int, i as int)) == trim_end(v@.skip(from as int)),
        decreases i,
    {
        assert(v@.subrange(from as int, i as int).drop_last() =~= v@.subrange(from as int, i - 1));
        i = i - 1;
    }
    i
}

/// The text without its leading and trailing whitespace.
pub fn trim(s: &str) -> (r: String)
    ensures
        r@ == trimmed(s@),
{
    let v = chars_of(s);
    let from: usize = start_of(&v);
    let to: usize = end_of(&v, from);
    string_from(&v, from, to)
}

/// The text without its trailing whitespace.
pub fn trim_tail(s: &str) -> (r: String)
    ensures
        r@ == trim_end(s@),
{
    let v = chars_of(s);
    let to: usize = end_of(&v, 0);
    assert(v@.skip(0) =~= v@);
    string_from(&v, 0, to)
}

/// The first place of `c` in `s` at or after `from`, or the length of `s`.
pub open spec fn next_char(s: Text, c: char, from: int) -> int
    decreases s.len() - from,
{
    if from >= s.len() {
        s.len() as int
    } else if s[from] == c {
        from
    } else {
        next_char(s, c, from + 1)
    }
}

pub proof fn lemma_next_char(s: Text, c: char, from: int)
    requires
        0 <= from <= s.len(),
    ensures
        from <= next_char(s, c, from) <= s.len(),
        next_char(s, c, from) < s.len() ==> s[next_char(s, c, from)] == c,
        forall|i: int| from <= i < next_char(s, c, from) ==> s[i] != c,
    decreases s.len() - from,
{
    if from < s.len() && s[from] != c {
        lemma_next_char(s, c, from + 1);
    }
}

pub fn find_char(v: &Vec<char>, c: char, from: usize) -> (r: usize)
    requires
        from <= v@.len(),
    ensures
        r == next_char(v@, c, from as int),
        from <= r <= v@.len(),
{
    let mut i: usize = from;
    while i < v.len() && v[i] != c
        invariant
            from <= i <= v@.len(),
            next_char(v@, c, i as int) == next_char(v@, c, from as int),
        decreases v@.len() - i,
    {
        i = i + 1;
    }
    i
}

/// A line that ended in `\n`, without the `\r` that may stand before it.
pub open spec fn strip_cr(s: Text) -> Text {
    if s.len() > 0 && s.last() == '\r' {
        s.drop_last()
    } else {
        s
    }
}

/// The lines of a text from `from` on: each ends at a `\n` or `\r\n`, which is
/// not part of it, and the last one may do without.
pub open spec fn lines_from(s: Text, from: int) -> Seq<Text>
    decreases s.len() - from,
{
    if from < 0 || from >= s.len() {
        Seq::empty()
    } else {
        let n = next_char(s, '\n', from);
        if from <= n < s.len() {
            seq![strip_cr(s.subrange(from, n))] + lines_from(s, n + 1)
        } else {
            seq![s.skip(from)]
        }
    }
}

/// The lines of a text.
pub open spec fn lines_of(s: Text) -> Seq<Text> {
    lines_from(s, 0)
}

/// The lines of a text.
pub fn lines(s: &str) -> (r: Vec<String>)
    ensures
        views(r@) == lines_of(s@),
{
    let v = chars_of(s);
    let mut out: Vec<String> = Vec::new();
    let mut i: usize = 0;
    assert(views(out@) + lines_from(s@, 0) =~= lines_of(s@));
    while i < v.len()
        invariant
            v@ == s@,
            i <= v@.len(),
            views(out@) + lines_from(s@, i as int) == lines_of(s@),
        decreases v@.len() - i,
    {
        let n: usize = find_char(&v, '\n', i);
        let ghost before = out@;
        if n < v.len() {
            let to: usize = if n > i && v[n - 1] == '\r' {
                n - 1
            } else {
                n
            };
            let line = string_from(&v, i, to);
            assert(line@ =~= strip_cr(s@.subrange(i as int, n as int)));
            out.push(line);
            proof {
                lemma_views_push(before, line);
                assert(views(before) + (seq![line@] + lines_from(s@, n + 1)) =~= views(before).push(
                    line@,
                ) + lines_from(s@, n + 1));
            }
            i = n + 1;
        } else {
            let line = string_from(&v, i, n);
            assert(line@ =~= s@.skip(i as int));
            out.push(line);
            proof {
                lemma_views_push(before, line);
                assert(views(before) + seq![line@] =~= views(before).push(line@) + Seq::<
                    Text,
                >::empty());
            }
            i = n;
        }
    }
    assert(views(out@) + Seq::<Text>::empty() =~= views(out@));
    out
}

/// The parts in order, with `sep` between each two.
pub open spec fn joined(parts: Seq<Text>, sep: Text) -> Text
    decreases parts.len(),
{
    if parts.len() == 0 {
        Seq::empty()
    } else if parts.len() == 1 {
        parts[0]
    } else {
        joined(parts.drop_last(), sep) + sep + parts.last()
    }
}

/// The parts from `from` up to `to` in order, with `sep` between each two.
pub fn join(parts: &Vec<String>, from: usize, to: usize, sep: &str) -> (r: String)
    requires
        from <= to <= parts@.len(),
    ensures
        r@ == joined(views(parts@).subrange(from as int, to as int), sep@),
{
    let mut out = String::new();
    let mut i: usize = from;
    while i < to
        invariant
            from <= i <= to <= parts@.len(),
            out@ == joined(views(parts@).subrange(from as int, i as int), sep@),
        decreases to - i,
    {
        let ghost done = views(parts@).subrange(from as int, i as int);
        let ghost more = views(parts@).subrange(from as int, i + 1);
        assert(more.drop_last() =~= done);
        if i > from {
            out.push_str(sep);
        }
        out.push_str(&parts[i]);
        proof {
            if i == from {
                assert(Seq::<char>::empty() + parts@[i as int]@ =~= parts@[i as int]@);
            }
        }
        i = i + 1;
    }
    out
}

/// Whether `needle` stands in `hay` at place `i`.
pub open spec fn occurs_at(hay: Text, needle: Text, i: int) -> bool {
    &&& 0 <= i
    &&& i + needle.len() <= hay.len()
    &&& hay.subrange(i, i + needle.len()) == needle
}

/// Whether `needle` stands anywhere in `hay`.
pub open spec fn occurs(hay: Text, needle: Text) -> bool {
    exists|i: int| occurs_at(hay, needle, i)
}

/// The first place of `needle` in `hay`.
pub open spec fn first_at(hay: Text, needle: Text, i: int) -> bool {
    &&& occurs_at(hay, needle, i)
    &&& forall|j: int| 0 <= j < i ==> !occurs_at(hay, needle, j)
}

/// Whether `needle` stands in `hay` at place `i`.
pub fn stands_at(hay: &Vec<char>, needle: &Vec<char>, i: usize) -> (r: bool)
    ensures
        r == occurs_at(hay@, needle@, i as int),
{
    if i > hay.len() || needle.len() > hay.len() - i {
        return false;
    }
    let total: usize = hay.len();
    let mut k: usize = 0;
    while k < needle.len()
        invariant
            k <= needle@.len(),
            i + needle@.len() <= hay@.len(),
            total == hay@.len(),
            forall|j: int| 0 <= j < k ==> hay@[i + j] == needle@[j],
        decreases needle@.len() - k,
    {
        if hay[i + k] != needle[k] {
            assert(hay@.subrange(i as int, i + needle@.len())[k as int] != needle@[k as int]);
            return false;
        }
        k = k + 1;
    }
    assert(hay@.subrange(i as int, i + needle@.len()) =~= needle@);
    true
}

/// The first place of `needle` in `hay`, if it stands there at all.
pub fn find(hay: &Vec<char>, needle: &Vec<char>) -> (r: Option<usize>)
    ensures
        match r {
            Some(i) => first_at(hay@, needle@, i as int),
            None => !occurs(hay@, needle@),
        },
{
    let mut i: usize = 0;
    while i < hay.len()
        invariant
            i <= hay@.len(),
            forall|j: int| 0 <= j < i ==> !occurs_at(hay@, needle@, j),
        decreases hay@.len() - i,
    {
        if stands_at(hay, needle, i) {
            return Some(i);
        }
        i = i + 1;
    }
    if stands_at(hay, needle, i) {
        return Some(i);
    }
    None
}

/// Whether `needle` stands anywhere in `hay`.
pub fn contains(hay: &str, needle: &str) -> (r: bool)
    ensures
        r == occurs(hay@, needle@),
{
    find(&chars_of(hay), &chars_of(needle)).is_some()
}

/// Whether `s` begins with `prefix`.
pub open spec fn begins(s: Text, prefix: Text) -> bool {
    occurs_at(s, prefix, 0)
}

/// Whether `s` ends with `suffix`.
pub open spec fn ends(s: Text, suffix: Text) -> bool {
    occurs_at(s, suffix, s.len() - suffix.len())
}

pub fn starts_with(s: &str, prefix: &str) -> (r: bool)
    ensures
        r == begins(s@, prefix@),
{
    stands_at(&chars_of(s), &chars_of(prefix), 0)
}

pub fn ends_with(s: &str, suffix: &str) -> (r: bool)
    ensures
        r == ends(s@, suffix@),
{
    let hay = chars_of(s);
    let needle = chars_of(suffix);
    if needle.len() > hay.len() {
        return false;
    }
    stands_at(&hay, &needle, hay.len() - needle.len())
}

/// `s` from `from` on, with every `pat` replaced by `with`, from left to right.
pub open spec fn replaced_from(s: Text, pat: Text, with: Text, from: int) -> Text
    decreases s.len() - from,
{
    if from < 0 || from >= s.len() {
        Seq::empty()
    } else if pat.len() > 0 && occurs_at(s, pat, from) {
        with + replaced_from(s, pat, with, from + pat.len())
    } else {
        seq![s[from]] + replaced_from(s, pat, with, from + 1)
    }
}

/// `s` with every (non-empty) `pat` replaced by `with`, from left to right.
pub open spec fn replaced(s: Text, pat: Text, with: Text) -> Text {
    replaced_from(s, pat, with, 0)
}

pub fn replace(s: &str, pat: &str, with: &str) -> (r: String)
    ensures
        r@ == replaced(s@, pat@, with@),
{
    let v = chars_of(s);
    let p = chars_of(pat);
    let mut out = String::new();
    let mut i: usize = 0;
    assert(out@ + replaced_from(s@, pat@, with@, 0) =~= replaced(s@, pat@, with@));
    while i < v.len()
        invariant
            v@ == s@,
            p@ == pat@,
            i <= v@.len(),
            out@ + replaced_from(s@, pat@, with@, i as int) == replaced(s@, pat@, with@),
        decreases v@.len() - i,
    {
        let ghost before = out@;
        if p.len() > 0 && stands_at(&v, &p, i) {
            out.push_str(with);
            i = i + p.len();
            assert(before + (with@ + replaced_from(s@, pat@, with@, i as int)) =~= out@
                + replaced_from(s@, pat@, with@, i as int));
        } else {
            let c = v[i];
            out.push(c);
            i = i + 1;
            assert(before + (seq![c] + replaced_from(s@, pat@, with@, i as int)) =~= out@
                + replaced_from(s@, pat@, with@, i as int));
        }
    }
    assert(out@ + Seq::<char>::empty() =~= out@);
    out
}

/// The ASCII capital letters made small, every other character kept.
pub open spec fn small(c: char) -> char {
    if 65 <= c as u32 <= 90 {
        ((c as u32) + 32) as char
    } else {
        c
    }
}

pub open spec fn small_text(s: Text) -> Text {
    Seq::new(s.len(), |i: int| small(s[i]))
}

/// Characters with the ASCII capital letters made small.
pub fn small_chars(s: &str) -> (r: Vec<char>)
    ensures
        r@ == small_text(s@),
{
    let v = chars_of(s);
    let mut out: Vec<char> = Vec::new();
    let mut i: usize = 0;
    while i < v.len()
        invariant
            v@ == s@,
            i <= v@.len(),
            out@ == small_text(s@).take(i as int),
        decreases v@.len() - i,
    {
        let c = v[i];
        let n: u32 = c as u32;
        if 65 <= n && n <= 90 {
            out.push((n as u8 + 32) as char);
        } else {
            out.push(c);
        }
        i = i + 1;
        assert(small_text(s@).take(i as int) =~= small_text(s@).take(i - 1).push(small(s@[i - 1])));
    }
    assert(small_text(s@).take(i as int) =~= small_text(s@));
    out
}

/// The character of a decimal digit.
pub open spec fn digit(d: int) -> char {
    (48 + d) as char
}

/// The decimal digits of a number.
pub open spec fn decimal(n: nat) -> Text
    decreases n,
{
    if n < 10 {
        seq![digit(n as int)]
    } else {
        decimal(n / 10).push(digit((n % 10) as int))
    }
}

/// The decimal digits of a number.
pub fn number(n: u64) -> (r: String)
    ensures
        r@ == decimal(n as nat),
    decreases n,
{
    let d: u8 = (n % 10) as u8;
    let c = (48u8 + d) as char;
    if n < 10 {
        let mut s = String::new();
        s.push(c);
        assert(s@ =~= seq![digit(n as int)]);
        s
    } else {
        let mut s = number(n / 10);
        s.push(c);
        s
    }
}

/// The length of a text in bytes of UTF-8.
pub open spec fn byte_len(s: Text) -> nat {
    encode_utf8(s).len()
}

/// The length of a text in bytes of UTF-8.
pub fn size(s: &str) -> (r: usize)
    ensures
        r == byte_len(s@),
{
    s.as_bytes().len()
}

/// The first `n` characters of a text, or all of them.
pub open spec fn head(s: Text, n: int) -> Text {
    if n < s.len() {
        s.take(n)
    } else {
        s
    }
}

pub fn first_chars(s: &str, n: usize) -> (r: String)
    ensures
        r@ == head(s@, n as int),
{
    let v = chars_of(s);
    let to: usize = if n < v.len() {
        n
    } else {
        v.len()
    };
    let r = string_from(&v, 0, to);
    assert(r@ =~= head(s@, n as int));
    r
}

} // verus!

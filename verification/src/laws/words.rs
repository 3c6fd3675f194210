//! What stands in a text.

use crate::text::{byte_len, joined, occurs, occurs_at, Text};
use vstd::prelude::*;

verus! {

/// A text stands between what is before and what is behind it.
pub proof fn stands_between(before: Text, t: Text, behind: Text)
    ensures
        occurs(before + t + behind, t),
{
    let at = before.len() as int;
    assert((before + t + behind).subrange(at, at + t.len()) =~= t);
    assert(occurs_at(before + t + behind, t, at));
}

/// A text stands at the beginning of itself and what follows.
pub proof fn stands_first(t: Text, behind: Text)
    ensures
        occurs(t + behind, t),
{
    stands_between(Seq::empty(), t, behind);
    assert(Seq::<char>::empty() + t =~= t);
}

/// A text stands at the end of what goes before it and itself.
pub proof fn stands_last(before: Text, t: Text)
    ensures
        occurs(before + t, t),
{
    stands_between(before, t, Seq::empty());
    assert(before + t + Seq::<char>::empty() =~= before + t);
}

/// What stands in a part stands in the whole.
pub proof fn stands_within(whole: Text, part: Text, t: Text)
    requires
        occurs(whole, part),
        occurs(part, t),
    ensures
        occurs(whole, t),
{
    let i = choose|i: int| occurs_at(whole, part, i);
    let j = choose|j: int| occurs_at(part, t, j);
    assert(whole.subrange(i + j, i + j + t.len()) =~= part.subrange(j, j + t.len()));
    assert(occurs_at(whole, t, i + j));
}

/// What stands in the first of two texts stands in both together.
pub proof fn stands_in_first(a: Text, b: Text, t: Text)
    requires
        occurs(a, t),
    ensures
        occurs(a + b, t),
{
    stands_first(a, b);
    stands_within(a + b, a, t);
}

/// What stands in the second of two texts stands in both together.
pub proof fn stands_in_second(a: Text, b: Text, t: Text)
    requires
        occurs(b, t),
    ensures
        occurs(a + b, t),
{
    stands_last(a, b);
    stands_within(a + b, b, t);
}

/// Each part stands in the parts joined.
pub proof fn parts_stand_in_whole(parts: Seq<Text>, sep: Text, i: int)
    requires
        0 <= i < parts.len(),
    ensures
        occurs(joined(parts, sep), parts[i]),
    decreases parts.len(),
{
    let whole = joined(parts, sep);
    if parts.len() == 1 {
        assert(whole.subrange(0, whole.len() as int) =~= whole);
        assert(occurs_at(whole, parts[i], 0));
    } else {
        let rest = joined(parts.drop_last(), sep);
        if i < parts.len() - 1 {
            parts_stand_in_whole(parts.drop_last(), sep, i);
            stands_in_first(rest, sep + parts.last(), parts[i]);
            assert(rest + (sep + parts.last()) =~= rest + sep + parts.last());
        } else {
            stands_last(rest + sep, parts.last());
        }
    }
}

/// A text has at least as many bytes as characters.
pub proof fn longer_than(t: Text)
    ensures
        byte_len(t) >= t.len(),
    decreases t.len(),
{
    if t.len() > 0 {
        longer_than(t.drop_first());
    }
}

} // verus!

//! Sorting: stable, by an order that each kind of item states for itself.

use crate::text::{chars_of, views, Text};
use vstd::prelude::*;

verus! {

/// Items that can be put in order.
pub trait Ranked: View + Sized {
    /// Whether `a` has to stand before `b`.
    spec fn precedes(a: Self::V, b: Self::V) -> bool;

    /// The order is a strict weak one.
    proof fn is_order(a: Self::V, b: Self::V, c: Self::V)
        ensures
            !Self::precedes(a, a),
            Self::precedes(a, b) && Self::precedes(b, c) ==> Self::precedes(a, c),
            !Self::precedes(a, b) && !Self::precedes(b, c) ==> !Self::precedes(a, c),
    ;

    fn comes_before(&self, other: &Self) -> (r: bool)
        ensures
            r == Self::precedes(self@, other@),
    ;
}

/// The place of `x` in `s`: behind the items from `from` on that have to stand
/// before it.
pub open spec fn slot<T: Ranked>(s: Seq<T::V>, x: T::V, from: int) -> int
    decreases s.len() - from,
{
    if from < s.len() && T::precedes(s[from], x) {
        slot::<T>(s, x, from + 1)
    } else {
        from
    }
}

/// The items in order; among equals, the one that came first stays first.
pub open spec fn ordered<T: Ranked>(s: Seq<T::V>) -> Seq<T::V>
    decreases s.len(),
{
    if s.len() == 0 {
        Seq::empty()
    } else {
        let rest = ordered::<T>(s.skip(1));
        rest.insert(slot::<T>(rest, s[0], 0), s[0])
    }
}

/// Nothing stands behind an item that it has to precede.
pub open spec fn in_order<T: Ranked>(s: Seq<T::V>) -> bool {
    forall|i: int, j: int| 0 <= i < j < s.len() ==> !T::precedes(#[trigger] s[j], #[trigger] s[i])
}

pub proof fn lemma_slot<T: Ranked>(s: Seq<T::V>, x: T::V, from: int)
    requires
        0 <= from <= s.len(),
    ensures
        from <= slot::<T>(s, x, from) <= s.len(),
        forall|i: int| from <= i < slot::<T>(s, x, from) ==> T::precedes(#[trigger] s[i], x),
        slot::<T>(s, x, from) < s.len() ==> !T::precedes(s[slot::<T>(s, x, from)], x),
    decreases s.len() - from,
{
    if from < s.len() && T::precedes(s[from], x) {
        lemma_slot::<T>(s, x, from + 1);
    }
}

/// Sorting puts the items in order and keeps each of them.
pub proof fn ordered_is_sorted<T: Ranked>(s: Seq<T::V>)
    ensures
        in_order::<T>(ordered::<T>(s)),
        ordered::<T>(s).to_multiset() == s.to_multiset(),
        ordered::<T>(s).len() == s.len(),
    decreases s.len(),
{
    broadcast use vstd::seq_lib::group_to_multiset_ensures;

    if s.len() > 0 {
        let t = s.skip(1);
        let x = s[0];
        ordered_is_sorted::<T>(t);
        let rest = ordered::<T>(t);
        let k = slot::<T>(rest, x, 0);
        lemma_slot::<T>(rest, x, 0);
        let out = rest.insert(k, x);
        assert forall|i: int, j: int| 0 <= i < j < out.len() implies !T::precedes(
            #[trigger] out[j],
            #[trigger] out[i],
        ) by {
            let ri = if i < k {
                i
            } else {
                i - 1
            };
            let rj = if j < k {
                j
            } else {
                j - 1
            };
            if i != k && j != k {
                assert(out[i] == rest[ri] && out[j] == rest[rj]);
            } else if i == k {
                assert(out[j] == rest[rj]);
                if rj > k {
                    assert(!T::precedes(rest[rj], rest[k]));
                    T::is_order(rest[rj], rest[k], x);
                }
            } else {
                assert(out[i] == rest[i]);
                assert(T::precedes(rest[i], x));
                T::is_order(x, rest[i], x);
            }
        }
        rest.insert_ensures(k, x);
        assert(s =~= seq![x] + t);
        assert(s.to_multiset() =~= t.to_multiset().insert(x)) by {
            assert(s.remove(0) =~= t);
            vstd::seq_lib::to_multiset_remove(s, 0);
            assert(s.to_multiset().contains(x)) by {
                vstd::seq_lib::to_multiset_contains(s, x);
            }
        }
    } else {
        assert(s =~= ordered::<T>(s));
    }
}

fn place<T: Ranked>(v: &Vec<T>, x: &T) -> (r: usize)
    ensures
        r == slot::<T>(views(v@), x@, 0),
        r <= v@.len(),
{
    let mut i: usize = 0;
    while i < v.len() && v[i].comes_before(x)
        invariant
            i <= v@.len(),
            slot::<T>(views(v@), x@, i as int) == slot::<T>(views(v@), x@, 0),
        decreases v@.len() - i,
    {
        assert(views(v@)[i as int] == v@[i as int]@);
        i = i + 1;
    }
    assert(i < v@.len() ==> views(v@)[i as int] == v@[i as int]@);
    i
}

/// The items in order; among equals, the one that came first stays first.
pub fn sort<T: Ranked>(items: Vec<T>) -> (r: Vec<T>)
    ensures
        views(r@) == ordered::<T>(views(items@)),
{
    let mut left = items;
    let ghost all = views(items@);
    let mut out: Vec<T> = Vec::new();
    assert(all.skip(all.len() as int) =~= Seq::<T::V>::empty());
    assert(views(out@) =~= Seq::<T::V>::empty());
    while left.len() > 0
        invariant
            views(left@) == all.take(left@.len() as int),
            left@.len() <= all.len(),
            views(out@) == ordered::<T>(all.skip(left@.len() as int)),
        decreases left@.len(),
    {
        let ghost n = left@.len() as int;
        let ghost before = left@;
        let ghost rest = all.skip(n);
        let ghost done = out@;
        if let Some(x) = left.pop() {
            assert(before[n - 1] == x);
            assert(views(before)[n - 1] == x@);
            assert(x@ == all[n - 1]);
            assert(views(left@) =~= all.take(n - 1)) by {
                assert forall|i: int| 0 <= i < n - 1 implies views(left@)[i] == all.take(n - 1)[i] by {
                    assert(views(before)[i] == all.take(n)[i]);
                }
            }
            let k: usize = place(&out, &x);
            out.insert(k, x);
            assert(views(out@) =~= views(done).insert(k as int, x@));
            assert(all.skip(n - 1).skip(1) =~= rest);
            assert(all.skip(n - 1)[0] == x@);
        }
    }
    assert(all.skip(0) =~= all);
    out
}

/// Whether text `a` comes before text `b`, character by character.
pub open spec fn text_less(a: Text, b: Text) -> bool
    decreases a.len(),
{
    if b.len() == 0 {
        false
    } else if a.len() == 0 {
        true
    } else if a[0] != b[0] {
        a[0] < b[0]
    } else {
        text_less(a.skip(1), b.skip(1))
    }
}

proof fn lemma_not_less_itself(a: Text)
    ensures
        !text_less(a, a),
    decreases a.len(),
{
    if a.len() > 0 {
        lemma_not_less_itself(a.skip(1));
    }
}

/// Texts are in a strict total order.
pub proof fn text_order(a: Text, b: Text, c: Text)
    ensures
        !text_less(a, a),
        text_less(a, b) && text_less(b, c) ==> text_less(a, c),
        !text_less(a, b) && !text_less(b, c) ==> !text_less(a, c),
        text_less(a, b) || text_less(b, a) || a == b,
    decreases a.len() + b.len() + c.len(),
{
    lemma_not_less_itself(a);
    if a.len() > 0 && b.len() > 0 {
        let (x, y) = (a.skip(1), b.skip(1));
        if c.len() > 0 {
            text_order(x, y, c.skip(1));
        } else {
            text_order(x, y, c);
        }
        if a[0] == b[0] && x == y {
            assert(a =~= seq![a[0]] + x);
            assert(b =~= seq![b[0]] + y);
        }
    } else if a.len() == 0 && b.len() == 0 {
        assert(a =~= b);
    }
}

/// Whether text `a` comes before text `b`, character by character.
pub fn less(a: &str, b: &str) -> (r: bool)
    ensures
        r == text_less(a@, b@),
{
    let x = chars_of(a);
    let y = chars_of(b);
    let mut i: usize = 0;
    assert(a@.skip(0) =~= a@);
    assert(b@.skip(0) =~= b@);
    while i < x.len() && i < y.len() && x[i] == y[i]
        invariant
            x@ == a@,
            y@ == b@,
            i <= x@.len(),
            i <= y@.len(),
            text_less(a@.skip(i as int), b@.skip(i as int)) == text_less(a@, b@),
        decreases x@.len() - i,
    {
        assert(a@.skip(i as int).skip(1) =~= a@.skip(i + 1));
        assert(b@.skip(i as int).skip(1) =~= b@.skip(i + 1));
        i = i + 1;
    }
    if i >= y.len() {
        false
    } else if i >= x.len() {
        true
    } else {
        x[i] < y[i]
    }
}

impl Ranked for String {
    open spec fn precedes(a: Text, b: Text) -> bool {
        text_less(a, b)
    }

    proof fn is_order(a: Text, b: Text, c: Text) {
        text_order(a, b, c);
    }

    fn comes_before(&self, other: &String) -> (r: bool) {
        less(self, other)
    }
}

} // verus!

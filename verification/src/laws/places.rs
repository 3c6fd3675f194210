//! What a path leads to, and which of two names comes first.

use crate::order::text_less;
use crate::paths::{
    components_of, is_absolute, is_under, names_from, path_joined, plain_paths_stay_under,
};
use crate::text::{lemma_next_char, next_char, Text};
use vstd::prelude::*;

verus! {

proof fn lemma_next(s: Text, a: int, n: int)
    requires
        0 <= a <= n <= s.len(),
        n < s.len() ==> s[n] == '/',
        forall|i: int| a <= i < n ==> #[trigger] s[i] != '/',
    ensures
        next_char(s, '/', a) == n,
    decreases n - a,
{
    if a < n {
        lemma_next(s, a + 1, n);
    }
}

proof fn lemma_next_shift(s: Text, t: Text, from: int, k: int)
    requires
        0 <= from <= t.len(),
        0 <= k,
        s.len() == t.len() + k,
        forall|i: int| 0 <= i < t.len() ==> #[trigger] t[i] == s[i + k],
    ensures
        next_char(s, '/', from + k) == next_char(t, '/', from) + k,
    decreases t.len() - from,
{
    if from < t.len() {
        assert(t[from] == s[from + k]);
        lemma_next_shift(s, t, from + 1, k);
    }
}

proof fn lemma_names_shift(s: Text, t: Text, from: int, k: int)
    requires
        0 <= from <= t.len(),
        0 <= k,
        s.len() == t.len() + k,
        forall|i: int| 0 <= i < t.len() ==> #[trigger] t[i] == s[i + k],
    ensures
        names_from(s, from + k) == names_from(t, from),
    decreases t.len() - from,
{
    lemma_next_shift(s, t, from, k);
    lemma_next_char(t, '/', from);
    let n = next_char(t, '/', from);
    assert(s.subrange(from + k, n + k) =~= t.subrange(from, n));
    if n < t.len() {
        lemma_names_shift(s, t, n + 1, k);
    }
}

/// A path is the names between its strokes, in order: a name and what follows it are
/// that name and the names that follow. Nothing between two strokes, or a dot, is no
/// name; two dots are one.
pub proof fn paths_are_names(name: Text, rest: Text)
    requires
        !name.contains('/'),
    ensures
        name.len() > 0 && name != "."@ ==> names_from(name.push('/') + rest, 0) == seq![name]
            + names_from(rest, 0) && names_from(name, 0) == seq![name],
        name.len() == 0 || name == "."@ ==> names_from(name.push('/') + rest, 0) == names_from(
            rest,
            0,
        ) && names_from(name, 0).len() == 0,
{
    let s = name.push('/') + rest;
    let n = name.len() as int;
    assert(s[n] == '/');
    assert forall|i: int| 0 <= i < n implies #[trigger] s[i] != '/' by {
        assert(s[i] == name[i]);
        assert(name.contains(name[i]));
    }
    lemma_next(s, 0, n);
    assert forall|i: int| 0 <= i < n implies #[trigger] name[i] != '/' by {
        assert(name.contains(name[i]));
    }
    lemma_next(name, 0, n);
    assert(s.subrange(0, n) =~= name);
    assert(name.subrange(0, n) =~= name);
    lemma_names_shift(s, rest, 0, n + 1);
}

/// An absolute path starts at the root, and a relative one that starts with a dot at the
/// current directory; any other starts with its first name.
pub proof fn paths_start(name: Text, rest: Text)
    requires
        name.len() > 0,
        !name.contains('/'),
        name != "."@,
    ensures
        components_of("/"@ + rest) == seq!["/"@] + names_from(rest, 0),
        components_of("./"@ + rest) == seq!["."@] + names_from(rest, 0),
        components_of(name.push('/') + rest) == seq![name] + names_from(rest, 0),
        components_of("."@) == seq!["."@],
{
    reveal_strlit("/");
    reveal_strlit("./");
    reveal_strlit(".");
    let none: Text = Seq::empty();
    paths_are_names(none, rest);
    assert(none.push('/') + rest =~= "/"@ + rest);
    paths_are_names("."@, rest);
    assert("."@.push('/') + rest =~= "./"@ + rest);
    paths_are_names(name, rest);
    let p = name.push('/') + rest;
    assert(p[0] == name[0]);
    assert(name.contains(name[0]));
    if name[0] == '.' {
        if name.len() == 1 {
            assert(name =~= "."@);
        } else {
            assert(p[1] == name[1]);
            assert(name.contains(name[1]));
        }
    }
    assert(crate::paths::lead(p) =~= Seq::<Text>::empty());
    assert(components_of(p) =~= seq![name] + names_from(rest, 0));
    assert(components_of("."@) =~= seq!["."@]);
    assert(components_of("./"@ + rest) =~= seq!["."@] + names_from(rest, 0));
    assert(components_of("/"@ + rest) =~= seq!["/"@] + names_from(rest, 0));
}

/// A file of a directory lies under it; what leads up from it does not, whatever
/// follows.
pub proof fn files_lie_under(root: Text, name: Text, rest: Text)
    requires
        name.len() > 0,
        !name.contains('/'),
        name != ".."@,
    ensures
        is_under(root, path_joined(root, name)),
        !is_under(root, path_joined(root, "../"@ + rest)),
{
    reveal_strlit(".");
    reveal_strlit("..");
    reveal_strlit("../");
    assert(name.contains(name[0]));
    plain_paths_stay_under(root, name);
    paths_are_names(name, Seq::empty());
    if name != "."@ {
        assert(names_from(name, 0)[0] != ".."@);
    }
    let up = "../"@ + rest;
    assert("../"@[0] == '.');
    assert(!is_absolute(up));
    plain_paths_stay_under(root, up);
    let dots = ".."@;
    assert(!dots.contains('/'));
    assert(dots.len() == 2 && "."@.len() == 1);
    paths_are_names(dots, rest);
    assert(dots.push('/') + rest =~= up);
    assert(names_from(up, 0)[0] == dots);
}

/// An absolute path lies under another exactly where its names begin with those of the
/// other and none behind them leads up.
pub proof fn names_tell_what_lies_under(root: Text, p: Text)
    requires
        is_absolute(root),
        is_absolute(p),
    ensures
        ({
            let a = names_from(root, 0);
            let b = names_from(p, 0);
            is_under(root, p) <==> a.len() <= b.len() && b.take(a.len() as int) == a && forall|i: int|
                a.len() <= i < b.len() ==> #[trigger] b[i] != ".."@
        }),
{
    let a = names_from(root, 0);
    let b = names_from(p, 0);
    let x = components_of(root);
    let y = components_of(p);
    assert(x =~= seq!["/"@] + a);
    assert(y =~= seq!["/"@] + b);
    if is_under(root, p) {
        assert(b.take(a.len() as int) =~= a) by {
            assert forall|i: int| 0 <= i < a.len() implies b[i] == a[i] by {
                assert(x[i + 1] == y[i + 1]);
            }
        }
        assert forall|i: int| a.len() <= i < b.len() implies #[trigger] b[i] != ".."@ by {
            assert(y[i + 1] == b[i]);
        }
    }
    if a.len() <= b.len() && b.take(a.len() as int) == a && (forall|i: int|
        a.len() <= i < b.len() ==> #[trigger] b[i] != ".."@) {
        assert(y.take(x.len() as int) =~= x) by {
            assert forall|i: int| 0 <= i < x.len() implies y[i] == x[i] by {
                if i > 0 {
                    assert(b.take(a.len() as int)[i - 1] == a[i - 1]);
                }
            }
        }
        assert(x.is_prefix_of(y));
        assert forall|i: int| x.len() <= i < y.len() implies #[trigger] y[i] != ".."@ by {
            assert(y[i] == b[i - 1]);
        }
    }
}

/// Of two texts the one with the smaller character at the first place where they differ
/// comes first, and a beginning comes before the whole.
pub proof fn the_first_difference_decides(common: Text, a: Text, b: Text)
    ensures
        a.len() > 0 && b.len() > 0 && a[0] < b[0] ==> text_less(
            common + a,
            common + b,
        ) && !text_less(common + b, common + a),
        b.len() > 0 ==> text_less(common, common + b) && !text_less(common + b, common),
        !text_less(common, common),
    decreases common.len(),
{
    if common.len() > 0 {
        let c = common.skip(1);
        the_first_difference_decides(c, a, b);
        assert((common + a).skip(1) =~= c + a);
        assert((common + b).skip(1) =~= c + b);
    } else {
        assert(common + a =~= a);
        assert(common + b =~= b);
    }
}

} // verus!

//! Paths, as texts with `/` between their components.

use crate::text::{
    chars_of, find_char, lemma_next_char, lemma_views_push, next_char, string_from, text_eq, views,
    Text,
};
use vstd::prelude::*;

verus! {

/// Whether a path starts at the root.
pub open spec fn is_absolute(p: Text) -> bool {
    p.len() > 0 && p[0] == '/'
}

/// `rel` seen from `base`: an absolute `rel` stands for itself.
pub open spec fn path_joined(base: Text, rel: Text) -> Text {
    if is_absolute(rel) {
        rel
    } else if base.len() == 0 || base.last() == '/' {
        base + rel
    } else {
        base + "/"@ + rel
    }
}

pub fn absolute(p: &str) -> (r: bool)
    ensures
        r == is_absolute(p@),
{
    let v = chars_of(p);
    v.len() > 0 && v[0] == '/'
}

/// `rel` seen from `base`.
pub fn join_path(base: &str, rel: &str) -> (r: String)
    ensures
        r@ == path_joined(base@, rel@),
{
    if absolute(rel) {
        return rel.to_string();
    }
    let v = chars_of(base);
    let mut out = base.to_string();
    if v.len() > 0 && v[v.len() - 1] != '/' {
        out.push_str("/");
    }
    out.push_str(rel);
    out
}

/// Whether a name between two `/` counts as a component.
pub open spec fn is_name(n: Text) -> bool {
    n.len() > 0 && n != "."@
}

/// The names in a path from `from` on.
pub open spec fn names_from(p: Text, from: int) -> Seq<Text>
    decreases p.len() - from,
{
    if from < 0 || from > p.len() {
        Seq::empty()
    } else {
        let to = next_char(p, '/', from);
        let rest = if from <= to < p.len() {
            names_from(p, to + 1)
        } else {
            Seq::empty()
        };
        if is_name(p.subrange(from, to)) {
            seq![p.subrange(from, to)] + rest
        } else {
            rest
        }
    }
}

/// What a path starts with: the root, the current directory, or a name.
pub open spec fn lead(p: Text) -> Seq<Text> {
    if is_absolute(p) {
        seq!["/"@]
    } else if p.len() > 0 && p[0] == '.' && (p.len() == 1 || p[1] == '/') {
        seq!["."@]
    } else {
        Seq::empty()
    }
}

/// The components of a path. Repeated `/` count once, and `.` counts only where a
/// relative path starts with it.
pub open spec fn components_of(p: Text) -> Seq<Text> {
    lead(p) + names_from(p, 0)
}

/// Whether the names from place `from` on lead down only: none of them is `..`.
pub open spec fn descends(names: Seq<Text>, from: int) -> bool {
    forall|i: int| from <= i < names.len() ==> #[trigger] names[i] != ".."@
}

/// Whether `p` is `root` or lies below it: its components begin with those of
/// `root`, and none behind them leads up again.
pub open spec fn is_under(root: Text, p: Text) -> bool {
    &&& components_of(root).is_prefix_of(components_of(p))
    &&& descends(components_of(p), components_of(root).len() as int)
}

/// The components of a path.
pub fn components(p: &str) -> (r: Vec<String>)
    ensures
        views(r@) == components_of(p@),
{
    let v = chars_of(p);
    let mut out: Vec<String> = Vec::new();
    assert(views(out@) =~= Seq::<Text>::empty());
    if v.len() > 0 && v[0] == '/' {
        out.push("/".to_string());
        assert(views(out@) =~= seq!["/"@]);
    } else if v.len() > 0 && v[0] == '.' && (v.len() == 1 || v[1] == '/') {
        out.push(".".to_string());
        assert(views(out@) =~= seq!["."@]);
    }
    let mut i: usize = 0;
    let mut more = true;
    while more
        invariant
            v@ == p@,
            i <= v@.len(),
            components_of(p@) == views(out@) + (if more {
                names_from(p@, i as int)
            } else {
                Seq::empty()
            }),
        decreases v@.len() - i + (if more {
            1int
        } else {
            0int
        }),
    {
        let to: usize = find_char(&v, '/', i);
        let name = string_from(&v, i, to);
        let ghost before = out@;
        let ghost rest = if to < v@.len() {
            names_from(p@, to + 1)
        } else {
            Seq::empty()
        };
        if to > i && !text_eq(&name, ".") {
            proof {
                lemma_views_push(out@, name);
                assert(views(before) + (seq![name@] + rest) =~= views(before).push(name@) + rest);
            }
            out.push(name);
        }
        if to < v.len() {
            i = to + 1;
        } else {
            more = false;
        }
    }
    assert(views(out@) + Seq::<Text>::empty() =~= views(out@));
    out
}

/// Whether `p` is `root` or lies below it.
pub fn under(root: &str, p: &str) -> (r: bool)
    ensures
        r == is_under(root@, p@),
{
    let a = components(root);
    let b = components(p);
    if a.len() > b.len() {
        return false;
    }
    let mut i: usize = 0;
    while i < b.len()
        invariant
            i <= b@.len(),
            a@.len() <= b@.len(),
            views(a@) == components_of(root@),
            views(b@) == components_of(p@),
            forall|j: int| 0 <= j < i && j < a@.len() ==> views(a@)[j] == views(b@)[j],
            forall|j: int| a@.len() <= j < i ==> #[trigger] views(b@)[j] != ".."@,
        decreases b@.len() - i,
    {
        assert(views(b@)[i as int] == b@[i as int]@);
        if i < a.len() {
            if !text_eq(&a[i], &b[i]) {
                assert(views(b@).subrange(0, a@.len() as int)[i as int] == views(b@)[i as int]);
                assert(views(a@)[i as int] != views(b@)[i as int]);
                return false;
            }
        } else if text_eq(&b[i], "..") {
            return false;
        }
        i = i + 1;
    }
    assert(views(a@) =~= views(b@).take(a@.len() as int));
    true
}

/// Where a tool may go for `path`, which has to lie in the workspace. `real_root` and
/// `resolved` are the workspace, and the path as it is seen from there, with all
/// links followed.
pub fn resolve_path(path: &str, real_root: &str, resolved: &str) -> (r: Result<String, String>)
    ensures
        match r {
            Ok(p) => is_under(real_root@, resolved@) && p@ == resolved@,
            Err(e) => !is_under(real_root@, resolved@) && e@ == "Access denied: "@ + path@,
        },
{
    if under(real_root, resolved) {
        Ok(resolved.to_string())
    } else {
        let mut e = "Access denied: ".to_string();
        e.push_str(path);
        Err(e)
    }
}

/// The file that the user asks for, if it lies in the workspace. `real_root` and
/// `resolved` are the workspace and the file with all links followed.
pub fn workspace_file(real_root: &str, resolved: &str) -> (r: Result<String, String>)
    ensures
        match r {
            Ok(p) => is_under(real_root@, resolved@) && p@ == resolved@,
            Err(e) => !is_under(real_root@, resolved@) && e@ == "Access denied."@,
        },
{
    if under(real_root, resolved) {
        Ok(resolved.to_string())
    } else {
        Err("Access denied.".to_string())
    }
}

proof fn lemma_next_behind(a: Text, b: Text, c: char, i: int)
    requires
        0 <= i <= b.len(),
    ensures
        next_char(a + b, c, a.len() + i) == a.len() + next_char(b, c, i),
    decreases b.len() - i,
{
    if i < b.len() && b[i] != c {
        lemma_next_behind(a, b, c, i + 1);
    }
}

proof fn lemma_next_before(a: Text, b: Text, c: char, i: int)
    requires
        0 <= i <= a.len(),
        next_char(a, c, i) < a.len(),
    ensures
        next_char(a + b, c, i) == next_char(a, c, i),
    decreases a.len() - i,
{
    if i < a.len() && a[i] != c {
        lemma_next_before(a, b, c, i + 1);
    }
}

proof fn lemma_names_behind(a: Text, b: Text, i: int)
    requires
        0 <= i <= b.len(),
    ensures
        names_from(a + b, a.len() + i) == names_from(b, i),
    decreases b.len() - i,
{
    lemma_next_behind(a, b, '/', i);
    lemma_next_char(b, '/', i);
    let to = next_char(b, '/', i);
    assert((a + b).subrange(a.len() + i, a.len() + to) =~= b.subrange(i, to));
    if to < b.len() {
        lemma_names_behind(a, b, to + 1);
    }
}

proof fn lemma_next_none(a: Text, b: Text, c: char, i: int)
    requires
        0 <= i <= a.len(),
        next_char(a, c, i) == a.len(),
    ensures
        next_char(a + b, c, i) == next_char(a + b, c, a.len() as int),
    decreases a.len() - i,
{
    if i < a.len() {
        lemma_next_char(a, c, i + 1);
        assert(a[i] != c);
        lemma_next_none(a, b, c, i + 1);
    }
}

proof fn lemma_names_split(a: Text, b: Text, i: int)
    requires
        0 <= i <= a.len(),
    ensures
        names_from(a + (seq!['/'] + b), i) == names_from(a, i) + names_from(b, 0),
    decreases a.len() - i,
{
    let tail = seq!['/'] + b;
    let s = a + tail;
    lemma_next_char(a, '/', i);
    let to = next_char(a, '/', i);
    if to < a.len() {
        lemma_next_before(a, tail, '/', i);
        assert(s.subrange(i, to) =~= a.subrange(i, to));
        lemma_names_split(a, b, to + 1);
        let first = seq![a.subrange(i, to)];
        assert(first + (names_from(a, to + 1) + names_from(b, 0)) =~= (first + names_from(
            a,
            to + 1,
        )) + names_from(b, 0));
    } else {
        lemma_next_none(a, tail, '/', i);
        assert(next_char(s, '/', a.len() as int) == a.len());
        assert(s.subrange(i, to) =~= a.subrange(i, to));
        lemma_names_behind(a + seq!['/'], b, 0);
        assert(a + seq!['/'] + b =~= s);
        assert(names_from(s, to + 1) == names_from(b, 0));
        assert(Seq::<Text>::empty() + names_from(b, 0) =~= names_from(b, 0));
        assert(seq![a.subrange(i, to)] + Seq::<Text>::empty() =~= seq![a.subrange(i, to)]);
    }
}

/// The names of a relative path come behind those of the directory it is seen from.
proof fn lemma_joined(root: Text, rel: Text)
    requires
        !is_absolute(rel),
    ensures
        components_of(path_joined(root, rel)) == components_of(root) + (if root.len() == 0 {
            lead(rel)
        } else {
            Seq::empty()
        }) + names_from(rel, 0),
{
    let full = path_joined(root, rel);
    reveal_strlit("/");
    if root.len() == 0 {
        assert(next_char(root, '/', 0) == 0);
        assert(components_of(root) =~= Seq::<Text>::empty());
        assert(full =~= rel);
        assert(components_of(full) =~= components_of(root) + lead(rel) + names_from(rel, 0));
    } else if root.last() == '/' {
        let a = root.drop_last();
        lemma_names_split(a, rel, 0);
        assert(a + (seq!['/'] + rel) =~= full);
        lemma_names_split(a, Seq::empty(), 0);
        assert(a + (seq!['/'] + Seq::<char>::empty()) =~= root);
        assert(next_char(Seq::<char>::empty(), '/', 0) == 0);
        assert(names_from(Seq::<char>::empty(), 0) =~= Seq::<Text>::empty());
        assert(names_from(root, 0) =~= names_from(a, 0));
    } else {
        lemma_names_split(root, rel, 0);
        assert("/"@ =~= seq!['/']);
        assert(root + (seq!['/'] + rel) =~= full);
    }
    if root.len() > 0 {
        assert(lead(full) =~= lead(root));
        assert(components_of(root) + Seq::<Text>::empty() =~= components_of(root));
        assert(components_of(full) =~= components_of(root) + names_from(rel, 0));
    }
}

/// A relative path seen from a directory lies under it just where none of its names
/// leads up.
pub proof fn plain_paths_stay_under(root: Text, rel: Text)
    requires
        !is_absolute(rel),
    ensures
        is_under(root, path_joined(root, rel)) <==> descends(names_from(rel, 0), 0),
{
    let full = path_joined(root, rel);
    let root_len = components_of(root).len() as int;
    let a = components_of(root) + (if root.len() == 0 {
        lead(rel)
    } else {
        Seq::empty()
    });
    let names = names_from(rel, 0);
    let all = a + names;
    lemma_joined(root, rel);
    reveal_strlit(".");
    reveal_strlit("..");
    assert("."@.len() == 1 && ".."@.len() == 2);
    assert(components_of(root).is_prefix_of(all));
    if descends(names, 0) {
        assert forall|i: int| root_len <= i < all.len() implies #[trigger] all[i] != ".."@ by {
            if i >= a.len() {
                assert(all[i] == names[i - a.len()]);
            } else {
                assert(all[i] == "."@);
            }
        }
    }
    if is_under(root, full) {
        assert forall|i: int| 0 <= i < names.len() implies #[trigger] names[i] != ".."@ by {
            assert(all[i + a.len()] == names[i]);
        }
    }
}

} // verus!

//! Text and path ordering: comparison functions with their order laws.

use vstd::prelude::*;
use crate::paths::{comps_order, components, components_of, path_order, same_path, text_order};
use crate::text::views;

verus! {

pub proof fn lemma_text_order_eq(a: Seq<char>, b: Seq<char>)
    ensures
        (text_order(a, b) == 0) == (a == b),
        text_order(a, b) == -text_order(b, a),
        -1 <= text_order(a, b) <= 1,
    decreases a.len(),
{
    if a == b {
        assert(a.drop_first() == b.drop_first());
    }
    if a.len() == 0 && b.len() == 0 {
        assert(a =~= b);
    }
    if a.len() > 0 && b.len() > 0 && a[0] == b[0] {
        lemma_text_order_eq(a.drop_first(), b.drop_first());
        if a.drop_first() == b.drop_first() {
            assert(a =~= seq![a[0]] + a.drop_first());
            assert(b =~= seq![b[0]] + b.drop_first());
        }
    }
    if a.len() > 0 && b.len() > 0 && a[0] != b[0] {
        assert(a != b);
    }
    if a.len() == 0 && b.len() > 0 {
        assert(a != b);
    }
    if a.len() > 0 && b.len() == 0 {
        assert(a != b);
    }
}

pub proof fn lemma_text_order_trans(a: Seq<char>, b: Seq<char>, c: Seq<char>)
    requires
        text_order(a, b) < 0,
        text_order(b, c) < 0,
    ensures
        text_order(a, c) < 0,
    decreases a.len(),
{
    if a.len() > 0 && b.len() > 0 && c.len() > 0 && a[0] == b[0] && b[0] == c[0] {
        lemma_text_order_trans(a.drop_first(), b.drop_first(), c.drop_first());
    }
}

pub proof fn lemma_comps_order_eq(a: Seq<Seq<char>>, b: Seq<Seq<char>>)
    ensures
        (comps_order(a, b) == 0) == (a == b),
        comps_order(a, b) == -comps_order(b, a),
        -1 <= comps_order(a, b) <= 1,
    decreases a.len(),
{
    if a == b {
        assert(a.drop_first() == b.drop_first());
    }
    if a.len() == 0 && b.len() == 0 {
        assert(a =~= b);
    }
    if a.len() > 0 && b.len() > 0 {
        lemma_text_order_eq(a[0], b[0]);
        if text_order(a[0], b[0]) == 0 {
            lemma_comps_order_eq(a.drop_first(), b.drop_first());
            if a.drop_first() == b.drop_first() {
                assert(a =~= seq![a[0]] + a.drop_first());
                assert(b =~= seq![b[0]] + b.drop_first());
            }
        } else {
            assert(a[0] != b[0]);
            assert(a != b);
        }
    }
    if a.len() == 0 && b.len() > 0 {
        assert(a != b);
    }
    if a.len() > 0 && b.len() == 0 {
        assert(a != b);
    }
}

pub proof fn lemma_comps_order_trans(a: Seq<Seq<char>>, b: Seq<Seq<char>>, c: Seq<Seq<char>>)
    requires
        comps_order(a, b) < 0,
        comps_order(b, c) < 0,
    ensures
        comps_order(a, c) < 0,
    decreases a.len(),
{
    if a.len() > 0 && b.len() > 0 && c.len() > 0 {
        lemma_text_order_eq(a[0], b[0]);
        lemma_text_order_eq(b[0], c[0]);
        lemma_text_order_eq(a[0], c[0]);
        if text_order(a[0], b[0]) == 0 && text_order(b[0], c[0]) == 0 {
            lemma_comps_order_trans(a.drop_first(), b.drop_first(), c.drop_first());
        } else if text_order(a[0], b[0]) < 0 && text_order(b[0], c[0]) < 0 {
            lemma_text_order_trans(a[0], b[0], c[0]);
        }
    }
}

/// Three-way comparison of two texts: -1, 0 or 1.
pub fn text_order_exec(a: &[char], b: &[char]) -> (r: i8)
    ensures
        r == text_order(a@, b@),
{
    let mut i: usize = 0;
    assert(a@.skip(0) =~= a@);
    assert(b@.skip(0) =~= b@);
    while i < a.len() && i < b.len() && a[i] == b[i]
        invariant
            i <= a@.len(),
            i <= b@.len(),
            text_order(a@, b@) == text_order(a@.skip(i as int), b@.skip(i as int)),
        decreases a@.len() - i,
    {
        assert(a@.skip(i as int).drop_first() =~= a@.skip(i + 1));
        assert(b@.skip(i as int).drop_first() =~= b@.skip(i + 1));
        i += 1;
    }
    if i == a.len() {
        if i == b.len() { 0 } else { -1 }
    } else if i == b.len() {
        1
    } else if a[i] < b[i] {
        -1
    } else {
        1
    }
}

/// Equality of two component lists.
pub fn comps_eq(a: &Vec<Vec<char>>, b: &Vec<Vec<char>>) -> (r: bool)
    ensures
        r == (views(a@) == views(b@)),
{
    if a.len() != b.len() {
        assert(views(a@).len() != views(b@).len());
        return false;
    }
    let mut i: usize = 0;
    while i < a.len()
        invariant
            i <= a@.len(),
            a@.len() == b@.len(),
            forall|k: int| 0 <= k < i ==> views(a@)[k] == views(b@)[k],
        decreases a@.len() - i,
    {
        if !crate::text::eq_chars(a[i].as_slice(), b[i].as_slice()) {
            assert(views(a@)[i as int] != views(b@)[i as int]);
            return false;
        }
        i += 1;
    }
    assert(views(a@) =~= views(b@));
    true
}

/// Three-way comparison of two component lists.
pub fn comps_order_exec(a: &Vec<Vec<char>>, b: &Vec<Vec<char>>) -> (r: i8)
    ensures
        r == comps_order(views(a@), views(b@)),
{
    let mut i: usize = 0;
    assert(views(a@).skip(0) =~= views(a@));
    assert(views(b@).skip(0) =~= views(b@));
    loop
        invariant
            i <= a@.len(),
            i <= b@.len(),
            comps_order(views(a@), views(b@)) == comps_order(
                views(a@).skip(i as int),
                views(b@).skip(i as int),
            ),
        decreases a@.len() - i,
    {
        let ghost sa = views(a@).skip(i as int);
        let ghost sb = views(b@).skip(i as int);
        if i == a.len() {
            assert(sa.len() == 0);
            return if i == b.len() { 0 } else { -1 };
        }
        if i == b.len() {
            return 1;
        }
        let c = text_order_exec(a[i].as_slice(), b[i].as_slice());
        assert(sa[0] == a@[i as int]@);
        assert(sb[0] == b@[i as int]@);
        if c != 0 {
            return c;
        }
        assert(sa.drop_first() =~= views(a@).skip(i + 1));
        assert(sb.drop_first() =~= views(b@).skip(i + 1));
        i += 1;
    }
}

/// Whether two paths name the same entry.
pub fn same_path_exec(a: &str, b: &str) -> (r: bool)
    ensures
        r == same_path(a@, b@),
{
    let ca = components_of(a);
    let cb = components_of(b);
    comps_eq(&ca, &cb)
}

/// Three-way comparison of two paths by their components.
pub fn path_order_exec(a: &str, b: &str) -> (r: i8)
    ensures
        r == path_order(a@, b@),
{
    let ca = components_of(a);
    let cb = components_of(b);
    comps_order_exec(&ca, &cb)
}

/// `Path::starts_with`: the components of `base` begin those of `p`.
pub fn path_starts_with_exec(p: &str, base: &str) -> (r: bool)
    ensures
        r == crate::paths::path_starts_with(p@, base@),
{
    let cp = components_of(p);
    let cb = components_of(base);
    if cb.len() > cp.len() {
        return false;
    }
    let mut i: usize = 0;
    while i < cb.len()
        invariant
            i <= cb@.len() <= cp@.len(),
            views(cp@) == components(p@),
            views(cb@) == components(base@),
            forall|k: int| 0 <= k < i ==> #[trigger] views(cp@)[k] == views(cb@)[k],
        decreases cb@.len() - i,
    {
        if !crate::text::eq_chars(cp[i].as_slice(), cb[i].as_slice()) {
            assert(views(cp@).subrange(0, cb@.len() as int)[i as int] != views(cb@)[i as int]);
            return false;
        }
        i += 1;
    }
    assert(views(cp@).subrange(0, cb@.len() as int) =~= views(cb@));
    true
}

} // verus!

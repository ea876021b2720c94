//! Stable sorting, stated as insertion: each element in turn goes right
//! after the last element already placed that stays in front of it.
//! Under a comparison that is a total preorder this is the one result a
//! stable sort can have.

use vstd::prelude::*;

verus! {

/// Where `x` goes into `s`: right after the last element `e` of `s`
/// with `stays(e, x)`, or at the front if there is none.
pub open spec fn slot<T>(s: Seq<T>, x: T, stays: spec_fn(T, T) -> bool) -> int
    decreases s.len(),
{
    if s.len() == 0 {
        0
    } else if stays(s.last(), x) {
        s.len() as int
    } else {
        slot(s.drop_last(), x, stays)
    }
}

/// The stable sort of `s`, where `stays(a, b)` says that `a` may stand in
/// front of `b` (that is, `b` does not order before `a`).
pub open spec fn stable_sort<T>(s: Seq<T>, stays: spec_fn(T, T) -> bool) -> Seq<T>
    decreases s.len(),
{
    if s.len() == 0 {
        s
    } else {
        let t = stable_sort(s.drop_last(), stays);
        t.insert(slot(t, s.last(), stays), s.last())
    }
}

/// At most the first `n` elements of `s`.
pub open spec fn at_most<T>(s: Seq<T>, n: int) -> Seq<T> {
    if s.len() <= n {
        s
    } else {
        s.take(n)
    }
}

/// `stays` orders the sequence: no element is followed by one that
/// must stand in front of it.
pub open spec fn ordered_by<T>(s: Seq<T>, stays: spec_fn(T, T) -> bool) -> bool {
    forall|i: int, j: int| 0 <= i < j < s.len() ==> #[trigger] stays(s[i], s[j])
}

/// `stays` is a total preorder.
pub open spec fn total_preorder<T>(stays: spec_fn(T, T) -> bool) -> bool {
    &&& forall|a: T, b: T| #[trigger] stays(a, b) || #[trigger] stays(b, a)
    &&& forall|a: T, b: T, c: T| #[trigger] stays(a, b) && #[trigger] stays(b, c) ==> stays(a, c)
}

pub proof fn lemma_slot_bounds<T>(s: Seq<T>, x: T, stays: spec_fn(T, T) -> bool)
    ensures
        0 <= slot(s, x, stays) <= s.len(),
        forall|k: int| slot(s, x, stays) <= k < s.len() ==> !stays(#[trigger] s[k], x),
        slot(s, x, stays) > 0 ==> stays(s[slot(s, x, stays) - 1], x),
    decreases s.len(),
{
    if s.len() > 0 && !stays(s.last(), x) {
        lemma_slot_bounds(s.drop_last(), x, stays);
        assert forall|k: int| slot(s, x, stays) <= k < s.len() implies !stays(#[trigger] s[k], x) by {
            if k < s.len() - 1 {
                assert(s.drop_last()[k] == s[k]);
            }
        }
    }
}

pub proof fn lemma_stable_sort_len<T>(s: Seq<T>, stays: spec_fn(T, T) -> bool)
    ensures
        stable_sort(s, stays).len() == s.len(),
    decreases s.len(),
{
    if s.len() > 0 {
        let t = stable_sort(s.drop_last(), stays);
        lemma_stable_sort_len(s.drop_last(), stays);
        lemma_slot_bounds(t, s.last(), stays);
    }
}

/// Stable sorting keeps the elements: the result is a rearrangement.
pub proof fn lemma_stable_sort_keeps<T>(s: Seq<T>, stays: spec_fn(T, T) -> bool)
    ensures
        stable_sort(s, stays).to_multiset() =~= s.to_multiset(),
    decreases s.len(),
{
    if s.len() > 0 {
        let t = stable_sort(s.drop_last(), stays);
        let j = slot(t, s.last(), stays);
        lemma_stable_sort_keeps(s.drop_last(), stays);
        lemma_slot_bounds(t, s.last(), stays);
        vstd::seq_lib::to_multiset_insert(t, j, s.last());
        vstd::seq_lib::to_multiset_build(s.drop_last(), s.last());
        assert(s =~= s.drop_last().push(s.last()));
    }
}

/// Under a total preorder the stable sort is ordered.
pub proof fn lemma_stable_sort_ordered<T>(s: Seq<T>, stays: spec_fn(T, T) -> bool)
    requires
        total_preorder(stays),
    ensures
        ordered_by(stable_sort(s, stays), stays),
    decreases s.len(),
{
    if s.len() > 0 {
        let t = stable_sort(s.drop_last(), stays);
        let x = s.last();
        let j = slot(t, x, stays);
        lemma_stable_sort_ordered(s.drop_last(), stays);
        lemma_slot_bounds(t, x, stays);
        let r = t.insert(j, x);
        assert forall|a: int, b: int| 0 <= a < b < r.len() implies #[trigger] stays(r[a], r[b]) by {
            if b < j {
                assert(r[a] == t[a] && r[b] == t[b]);
            } else if b == j {
                assert(r[a] == t[a]);
                assert(stays(t[j - 1], x));
                if a < j - 1 {
                    assert(stays(t[a], t[j - 1]));
                }
            } else if a == j {
                assert(r[b] == t[b - 1]);
                assert(!stays(t[b - 1], x));
                assert(stays(x, t[b - 1]) || stays(t[b - 1], x));
            } else if a < j {
                assert(r[a] == t[a] && r[b] == t[b - 1]);
            } else {
                assert(r[a] == t[a - 1] && r[b] == t[b - 1]);
            }
        }
    }
}

/// Each element of the stable sort is an element of the input.
pub proof fn lemma_stable_sort_member<T>(s: Seq<T>, stays: spec_fn(T, T) -> bool, i: int)
    requires
        0 <= i < stable_sort(s, stays).len(),
    ensures
        exists|j: int| 0 <= j < s.len() && s[j] == stable_sort(s, stays)[i],
{
    let r = stable_sort(s, stays);
    lemma_stable_sort_keeps(s, stays);
    r.to_multiset_ensures();
    s.to_multiset_ensures();
    assert(r.contains(r[i]));
    assert(r.to_multiset().count(r[i]) > 0);
    assert(s.to_multiset().count(r[i]) > 0);
    assert(s.contains(r[i]));
}

} // verus!

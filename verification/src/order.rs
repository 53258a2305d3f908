//! Stable sorting by a strict order, as lists are ordered for display.
use vstd::prelude::*;
use vstd::seq_lib::{to_multiset_build, to_multiset_insert};
use crate::text::lemma_take_full;

verus! {

/// `before` is a strict order: nothing comes before itself, and it chains.
pub open spec fn strict_order<T>(before: spec_fn(T, T) -> bool) -> bool {
    &&& forall|a: T| !#[trigger] before(a, a)
    &&& forall|a: T, b: T, c: T| #[trigger] before(a, b) && #[trigger] before(b, c) ==> before(a, c)
}

/// No item comes before an item ahead of it.
pub open spec fn in_order<T>(s: Seq<T>, before: spec_fn(T, T) -> bool) -> bool {
    forall|i: int, j: int| 0 <= i < j < s.len() ==> !before(#[trigger] s[j], #[trigger] s[i])
}

/// Where a stable insertion puts `x` among `sorted`, looking from `i` on:
/// at the first item that `x` comes before, else at the end.
pub open spec fn place_of<T>(sorted: Seq<T>, x: T, before: spec_fn(T, T) -> bool, i: int) -> int
    decreases sorted.len() - i,
{
    if i < 0 || i >= sorted.len() {
        sorted.len() as int
    } else if before(x, sorted[i]) {
        i
    } else {
        place_of(sorted, x, before, i + 1)
    }
}

/// `s` ordered by `before`, items that neither comes before keeping the
/// order they had (a stable sort, as `sort_by`): each item in turn goes in
/// after every item placed so far that it does not come before.
pub open spec fn stable_sort<T>(s: Seq<T>, before: spec_fn(T, T) -> bool) -> Seq<T>
    decreases s.len(),
{
    if s.len() == 0 {
        Seq::empty()
    } else {
        let sorted = stable_sort(s.drop_last(), before);
        sorted.insert(place_of(sorted, s.last(), before, 0), s.last())
    }
}

proof fn lemma_place_of<T>(sorted: Seq<T>, x: T, before: spec_fn(T, T) -> bool, i: int)
    requires
        0 <= i <= sorted.len(),
    ensures
        i <= place_of(sorted, x, before, i) <= sorted.len(),
        forall|k: int| i <= k < place_of(sorted, x, before, i) ==> !before(x, #[trigger] sorted[k]),
        place_of(sorted, x, before, i) < sorted.len() ==> before(
            x,
            sorted[place_of(sorted, x, before, i)],
        ),
    decreases sorted.len() - i,
{
    if i < sorted.len() && !before(x, sorted[i]) {
        lemma_place_of(sorted, x, before, i + 1);
    }
}

/// A stable sort keeps every item, as many times as it came, and puts them
/// in order.
pub proof fn lemma_stable_sort<T>(s: Seq<T>, before: spec_fn(T, T) -> bool)
    requires
        strict_order(before),
    ensures
        stable_sort(s, before).len() == s.len(),
        stable_sort(s, before).to_multiset() == s.to_multiset(),
        in_order(stable_sort(s, before), before),
    decreases s.len(),
{
    if s.len() == 0 {
        assert(s =~= Seq::<T>::empty());
    } else {
        let init = s.drop_last();
        let x = s.last();
        lemma_stable_sort(init, before);
        let t = stable_sort(init, before);
        let p = place_of(t, x, before, 0);
        lemma_place_of(t, x, before, 0);
        let r = t.insert(p, x);
        to_multiset_insert(t, p, x);
        to_multiset_build(init, x);
        assert(init.push(x) =~= s);
        assert forall|i: int, j: int| 0 <= i < j < r.len() implies !before(
            #[trigger] r[j],
            #[trigger] r[i],
        ) by {
            if j < p {
                assert(r[i] == t[i] && r[j] == t[j]);
            } else if j == p {
                assert(r[i] == t[i] && r[j] == x);
            } else if i > p {
                assert(r[i] == t[i - 1] && r[j] == t[j - 1]);
            } else if i < p {
                assert(r[i] == t[i] && r[j] == t[j - 1]);
            } else {
                assert(r[i] == x && r[j] == t[j - 1]);
                if before(t[j - 1], x) {
                    assert(before(t[j - 1], t[p]));
                    if j - 1 > p {
                        assert(!before(t[j - 1], t[p]));
                    }
                }
            }
        }
    }
}

/// Sorts `items` with `less`, which tells whether one item comes before
/// another as `before` says; items that neither comes before keep their order.
pub(crate) fn sort_stable<T, F: Fn(&T, &T) -> bool>(
    items: Vec<T>,
    less: F,
    Ghost(before): Ghost<spec_fn(T, T) -> bool>,
) -> (r: Vec<T>)
    requires
        forall|a: &T, b: &T| #[trigger] less.requires((a, b)),
        forall|a: &T, b: &T, x: bool| #[trigger] less.ensures((a, b), x) ==> x == before(*a, *b),
    ensures
        r@ == stable_sort(items@, before),
{
    let ghost all = items@;
    let n = items.len();
    let mut rest = items;
    let mut sorted: Vec<T> = Vec::new();
    let mut k: usize = 0;
    while k < n
        invariant
            k <= n == all.len(),
            rest@ == all.skip(k as int),
            sorted@ == stable_sort(all.take(k as int), before),
            forall|a: &T, b: &T| #[trigger] less.requires((a, b)),
            forall|a: &T, b: &T, x: bool| #[trigger] less.ensures((a, b), x) ==> x == before(*a, *b),
        decreases n - k,
    {
        let x = rest.remove(0);
        assert(x == all[k as int]);
        assert(rest@ =~= all.skip(k as int + 1));
        let mut pos: usize = 0;
        while pos < sorted.len() && !less(&x, &sorted[pos])
            invariant
                pos <= sorted@.len(),
                place_of(sorted@, x, before, 0) == place_of(sorted@, x, before, pos as int),
                forall|a: &T, b: &T| #[trigger] less.requires((a, b)),
                forall|a: &T, b: &T, x: bool| #[trigger] less.ensures((a, b), x) ==> x == before(*a, *b),
            decreases sorted@.len() - pos,
        {
            pos = pos + 1;
        }
        proof {
            assert(all.take(k as int + 1).drop_last() =~= all.take(k as int));
            assert(all.take(k as int + 1).last() == x);
        }
        sorted.insert(pos, x);
        k = k + 1;
    }
    proof {
        lemma_take_full(all);
    }
    sorted
}

} // verus!

//! Stable sorting, as `slice::sort_by` performs it: elements that compare
//! equal keep their relative order.
use vstd::prelude::*;

verus! {

/// `x` inserted into `r` after every element that it is not strictly before.
pub open spec fn insert_stable<T>(r: Seq<T>, x: T, lt: spec_fn(T, T) -> bool) -> Seq<T>
    decreases r.len(),
{
    if r.len() == 0 {
        seq![x]
    } else if lt(x, r.last()) {
        insert_stable(r.drop_last(), x, lt).push(r.last())
    } else {
        r.push(x)
    }
}

/// The stable sort of `s` by the strict order `lt`.
pub open spec fn sort_stable<T>(s: Seq<T>, lt: spec_fn(T, T) -> bool) -> Seq<T>
    decreases s.len(),
{
    if s.len() == 0 {
        s
    } else {
        insert_stable(sort_stable(s.drop_last(), lt), s.last(), lt)
    }
}

/// `lt` is a strict weak order: irreflexive, transitive, and an element
/// strictly between two others is comparable to both.
pub open spec fn strict_weak_order<T>(lt: spec_fn(T, T) -> bool) -> bool {
    &&& forall|a: T| !#[trigger] lt(a, a)
    &&& forall|a: T, b: T, c: T| #[trigger] lt(a, b) && #[trigger] lt(b, c) ==> lt(a, c)
    &&& forall|a: T, b: T, c: T| #[trigger] lt(a, c) ==> #[trigger] lt(a, b) || #[trigger] lt(b, c)
}

/// No element of `s` is strictly before an element that precedes it.
pub open spec fn sorted_by<T>(s: Seq<T>, lt: spec_fn(T, T) -> bool) -> bool {
    forall|i: int, j: int| 0 <= i < j < s.len() ==> !lt(#[trigger] s[j], #[trigger] s[i])
}

/// Inserting at the position where a backward scan stops is [`insert_stable`].
pub proof fn lemma_insert_stable_at<T>(r: Seq<T>, x: T, lt: spec_fn(T, T) -> bool, p: int)
    requires
        0 <= p <= r.len(),
        forall|k: int| p <= k < r.len() ==> lt(x, #[trigger] r[k]),
        p == 0 || !lt(x, r[p - 1]),
    ensures
        insert_stable(r, x, lt) == r.insert(p, x),
    decreases r.len(),
{
    if r.len() == 0 {
        assert(r.insert(p, x) =~= seq![x]);
    } else if p == r.len() {
        assert(r.insert(p, x) =~= r.push(x));
    } else {
        assert(lt(x, r[r.len() - 1]));
        lemma_insert_stable_at(r.drop_last(), x, lt, p);
        assert(r.drop_last().insert(p, x).push(r.last()) =~= r.insert(p, x));
    }
}

/// Insertion keeps the multiset of elements.
pub proof fn lemma_insert_stable_perm<T>(r: Seq<T>, x: T, lt: spec_fn(T, T) -> bool)
    ensures
        insert_stable(r, x, lt).to_multiset() == r.to_multiset().insert(x),
        insert_stable(r, x, lt).len() == r.len() + 1,
    decreases r.len(),
{
    broadcast use vstd::seq_lib::group_to_multiset_ensures;

    if r.len() == 0 {
        assert(seq![x] =~= Seq::<T>::empty().push(x));
    } else if lt(x, r.last()) {
        lemma_insert_stable_perm(r.drop_last(), x, lt);
        assert(r =~= r.drop_last().push(r.last()));
    } else {
    }
}

/// Sorting keeps the multiset of elements.
pub proof fn lemma_sort_stable_perm<T>(s: Seq<T>, lt: spec_fn(T, T) -> bool)
    ensures
        sort_stable(s, lt).to_multiset() == s.to_multiset(),
        sort_stable(s, lt).len() == s.len(),
    decreases s.len(),
{
    broadcast use vstd::seq_lib::group_to_multiset_ensures;

    if s.len() > 0 {
        lemma_sort_stable_perm(s.drop_last(), lt);
        lemma_insert_stable_perm(sort_stable(s.drop_last(), lt), s.last(), lt);
        assert(s =~= s.drop_last().push(s.last()));
    }
}

/// Inserting into a sorted sequence keeps it sorted.
pub proof fn lemma_insert_stable_sorted<T>(r: Seq<T>, x: T, lt: spec_fn(T, T) -> bool)
    requires
        strict_weak_order(lt),
        sorted_by(r, lt),
    ensures
        sorted_by(insert_stable(r, x, lt), lt),
        forall|k: int| 0 <= k < insert_stable(r, x, lt).len() ==> (#[trigger] insert_stable(r, x, lt)[k] == x
            || r.contains(insert_stable(r, x, lt)[k])),
    decreases r.len(),
{
    let res = insert_stable(r, x, lt);
    if r.len() == 0 {
    } else if lt(x, r.last()) {
        let r0 = r.drop_last();
        lemma_insert_stable_sorted(r0, x, lt);
        let ins = insert_stable(r0, x, lt);
        assert forall|i: int, j: int| 0 <= i < j < res.len() implies !lt(
            #[trigger] res[j],
            #[trigger] res[i],
        ) by {
            if j == res.len() - 1 {
                assert(res[j] == r.last());
                if ins[i] == x {
                    // r.last() is not before x, since x is before it
                } else {
                    let k = choose|k: int| 0 <= k < r0.len() && r0[k] == ins[i];
                    assert(r[k] == r0[k]);
                    assert(!lt(r[r.len() - 1], r[k]));
                }
            } else {
                assert(res[i] == ins[i]);
                assert(res[j] == ins[j]);
            }
        }
        assert forall|k: int| 0 <= k < res.len() implies (#[trigger] res[k] == x || r.contains(
            res[k],
        )) by {
            if k == res.len() - 1 {
                assert(r[r.len() - 1] == res[k]);
            } else {
                assert(res[k] == ins[k]);
                if ins[k] != x {
                    let m = choose|m: int| 0 <= m < r0.len() && r0[m] == ins[k];
                    assert(r[m] == r0[m]);
                }
            }
        }
    } else {
        assert forall|i: int, j: int| 0 <= i < j < res.len() implies !lt(
            #[trigger] res[j],
            #[trigger] res[i],
        ) by {
            if j == res.len() - 1 {
                assert(res[j] == x);
                assert(res[i] == r[i]);
                if i < r.len() - 1 {
                    assert(!lt(r[r.len() - 1], r[i]));
                    if lt(x, r[i]) {
                        assert(lt(x, r[r.len() - 1]) || lt(r[r.len() - 1], r[i]));
                    }
                }
            } else {
                assert(res[i] == r[i]);
                assert(res[j] == r[j]);
            }
        }
        assert forall|k: int| 0 <= k < res.len() implies (#[trigger] res[k] == x || r.contains(
            res[k],
        )) by {
            if k < r.len() {
                assert(res[k] == r[k]);
            }
        }
    }
}

/// The stable sort by a strict weak order is sorted.
pub proof fn lemma_sort_stable_sorted<T>(s: Seq<T>, lt: spec_fn(T, T) -> bool)
    requires
        strict_weak_order(lt),
    ensures
        sorted_by(sort_stable(s, lt), lt),
    decreases s.len(),
{
    if s.len() > 0 {
        lemma_sort_stable_sorted(s.drop_last(), lt);
        lemma_insert_stable_sorted(sort_stable(s.drop_last(), lt), s.last(), lt);
    }
}

} // verus!

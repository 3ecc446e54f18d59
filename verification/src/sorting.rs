//! Stable sorting, specified as insertion: each element goes after every element that it
//! does not strictly precede, so equal elements keep their order.
use vstd::prelude::*;

verus! {

/// `x` put into `sorted` right after the last element that it does not strictly precede.
pub open spec fn insert_stable<T>(sorted: Seq<T>, x: T, before: spec_fn(T, T) -> bool) -> Seq<T>
    decreases sorted.len(),
{
    if sorted.len() == 0 {
        seq![x]
    } else if before(x, sorted.last()) {
        insert_stable(sorted.drop_last(), x, before).push(sorted.last())
    } else {
        sorted.push(x)
    }
}

/// The stable sort of `s` by the strict order `before`.
pub open spec fn stable_sort<T>(s: Seq<T>, before: spec_fn(T, T) -> bool) -> Seq<T>
    decreases s.len(),
{
    if s.len() == 0 {
        seq![]
    } else {
        insert_stable(stable_sort(s.drop_last(), before), s.last(), before)
    }
}

/// Where the insertion lands: after position `j`, when `x` precedes everything from `j` on
/// and does not precede the element just before `j`.
pub proof fn lemma_insert_stable_at<T>(sorted: Seq<T>, x: T, before: spec_fn(T, T) -> bool, j: int)
    requires
        0 <= j <= sorted.len(),
        forall|k: int| j <= k < sorted.len() ==> before(x, #[trigger] sorted[k]),
        j == 0 || !before(x, sorted[j - 1]),
    ensures
        insert_stable(sorted, x, before) == sorted.take(j).push(x) + sorted.skip(j),
    decreases sorted.len(),
{
    if sorted.len() == 0 {
        assert(sorted.take(j).push(x) + sorted.skip(j) =~= seq![x]);
    } else if j == sorted.len() {
        assert(!before(x, sorted.last()));
        assert(sorted.take(j).push(x) + sorted.skip(j) =~= sorted.push(x));
    } else {
        assert(before(x, sorted[sorted.len() - 1]));
        let p = sorted.drop_last();
        assert forall|k: int| j <= k < p.len() implies before(x, #[trigger] p[k]) by {
            assert(p[k] == sorted[k]);
        }
        if j > 0 {
            assert(p[j - 1] == sorted[j - 1]);
        }
        lemma_insert_stable_at(p, x, before, j);
        assert(p.take(j).push(x) + p.skip(j) + seq![sorted.last()] =~= sorted.take(j).push(x)
            + sorted.skip(j));
        assert((p.take(j).push(x) + p.skip(j)).push(sorted.last()) =~= p.take(j).push(x) + p.skip(
            j,
        ) + seq![sorted.last()]);
    }
}

/// `before` orders strictly and weakly: nothing precedes itself, precedence is one-way, and
/// whenever `a` precedes `c`, any `b` is preceded by `a` or precedes `c`.
pub open spec fn strict_weak_order<T>(before: spec_fn(T, T) -> bool) -> bool {
    &&& forall|a: T| !#[trigger] before(a, a)
    &&& forall|a: T, b: T| #[trigger] before(a, b) ==> !before(b, a)
    &&& forall|a: T, b: T, c: T|
        #![trigger before(a, c), before(a, b)]
        before(a, c) ==> before(a, b) || before(b, c)
}

/// No element of `s` strictly precedes an element before it.
pub open spec fn sorted_by<T>(s: Seq<T>, before: spec_fn(T, T) -> bool) -> bool {
    forall|i: int, j: int| 0 <= i < j < s.len() ==> !before(#[trigger] s[j], #[trigger] s[i])
}

proof fn lemma_between<T>(before: spec_fn(T, T) -> bool, a: T, b: T, c: T)
    requires
        strict_weak_order(before),
        before(a, c),
    ensures
        before(a, b) || before(b, c),
{
}

/// Inserting into a sorted sequence keeps it sorted and adds exactly the inserted element.
pub proof fn lemma_insert_stable_sorted<T>(s: Seq<T>, x: T, before: spec_fn(T, T) -> bool)
    requires
        strict_weak_order(before),
        sorted_by(s, before),
    ensures
        sorted_by(insert_stable(s, x, before), before),
        insert_stable(s, x, before).to_multiset() =~= s.to_multiset().insert(x),
    decreases s.len(),
{
    broadcast use vstd::seq_lib::group_to_multiset_ensures;

    if s.len() == 0 {
        assert(seq![x] =~= Seq::<T>::empty().push(x));
    } else if before(x, s.last()) {
        let p = s.drop_last();
        let last = s.last();
        assert(sorted_by(p, before)) by {
            assert forall|i: int, j: int| 0 <= i < j < p.len() implies !before(
                #[trigger] p[j],
                #[trigger] p[i],
            ) by {
                assert(p[i] == s[i] && p[j] == s[j]);
            }
        }
        lemma_insert_stable_sorted(p, x, before);
        let r = insert_stable(p, x, before);
        let out = r.push(last);
        assert(insert_stable(s, x, before) == out);
        assert forall|i: int, j: int| 0 <= i < j < out.len() implies !before(
            #[trigger] out[j],
            #[trigger] out[i],
        ) by {
            if j < r.len() {
                assert(out[i] == r[i] && out[j] == r[j]);
            } else {
                assert(out[j] == last && out[i] == r[i]);
                assert(r.contains(r[i]));
                assert(r.to_multiset().count(r[i]) > 0);
                if r[i] != x {
                    assert(p.to_multiset().count(r[i]) > 0);
                    assert(p.contains(r[i]));
                    let k = choose|k: int| 0 <= k < p.len() && p[k] == r[i];
                    assert(s[k] == r[i] && s[s.len() - 1] == last);
                }
            }
        }
        assert(s =~= p.push(last));
        assert(out.to_multiset() =~= r.to_multiset().insert(last));
        assert(s.to_multiset() =~= p.to_multiset().insert(last));
    } else {
        let out = s.push(x);
        assert(insert_stable(s, x, before) == out);
        assert forall|i: int, j: int| 0 <= i < j < out.len() implies !before(
            #[trigger] out[j],
            #[trigger] out[i],
        ) by {
            if j < s.len() {
                assert(out[i] == s[i] && out[j] == s[j]);
            } else {
                assert(out[j] == x && out[i] == s[i]);
                if before(x, s[i]) {
                    lemma_between(before, x, s.last(), s[i]);
                    if i < s.len() - 1 {
                        assert(!before(s[s.len() - 1], s[i]));
                    }
                }
            }
        }
    }
}

/// A stable sort by a strict weak order is sorted and holds the same elements.
pub proof fn lemma_stable_sort_sorted<T>(s: Seq<T>, before: spec_fn(T, T) -> bool)
    requires
        strict_weak_order(before),
    ensures
        sorted_by(stable_sort(s, before), before),
        stable_sort(s, before).to_multiset() =~= s.to_multiset(),
    decreases s.len(),
{
    broadcast use vstd::seq_lib::group_to_multiset_ensures;

    if s.len() > 0 {
        lemma_stable_sort_sorted(s.drop_last(), before);
        lemma_insert_stable_sorted(stable_sort(s.drop_last(), before), s.last(), before);
        assert(s =~= s.drop_last().push(s.last()));
    }
}

} // verus!

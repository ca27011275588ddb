//! Stable ordering of sequences by a "sorts strictly before" relation.
use vstd::prelude::*;

verus! {

/// `s` with `x` inserted after every element that `x` does not sort strictly before.
pub open spec fn insert_by<T>(s: Seq<T>, x: T, before: spec_fn(T, T) -> bool) -> Seq<T>
    decreases s.len(),
{
    if s.len() > 0 && before(x, s.last()) {
        insert_by(s.drop_last(), x, before).push(s.last())
    } else {
        s.push(x)
    }
}

/// `s` in the order that a stable sort by `before` gives: insertion of each element in turn,
/// so that elements neither of which sorts before the other keep their relative order.
pub open spec fn stable_sorted<T>(s: Seq<T>, before: spec_fn(T, T) -> bool) -> Seq<T>
    decreases s.len(),
{
    if s.len() == 0 {
        s
    } else {
        insert_by(stable_sorted(s.drop_last(), before), s.last(), before)
    }
}

/// Inserting `x` at the first position `j` from which `x` sorts before every later element is
/// what `insert_by` does.
pub proof fn lemma_insert_at<T>(s: Seq<T>, x: T, before: spec_fn(T, T) -> bool, j: int)
    requires
        0 <= j <= s.len(),
        forall|k: int| j <= k < s.len() ==> before(x, #[trigger] s[k]),
        j == 0 || !before(x, s[j - 1]),
    ensures
        insert_by(s, x, before) == s.take(j).push(x) + s.skip(j),
    decreases s.len(),
{
    if s.len() == j {
        assert(s.take(j) =~= s);
        assert(s.skip(j) =~= Seq::<T>::empty());
        assert(s.take(j).push(x) + s.skip(j) =~= s.push(x));
    } else {
        assert(before(x, s[s.len() - 1]));
        lemma_insert_at(s.drop_last(), x, before, j);
        assert(s.drop_last().take(j) =~= s.take(j));
        assert((s.take(j).push(x) + s.drop_last().skip(j)).push(s.last()) =~= s.take(j).push(x)
            + s.skip(j));
    }
}

/// Whether `before` orders like `<` on keys: never `a` before itself, transitive, and with
/// "neither before the other" transitive too (a strict weak order).
pub open spec fn strict_weak<T>(before: spec_fn(T, T) -> bool) -> bool {
    &&& forall|a: T| !#[trigger] before(a, a)
    &&& forall|a: T, b: T, c: T| #[trigger] before(a, b) && #[trigger] before(b, c) ==> before(a, c)
    &&& forall|a: T, b: T, c: T|
        !#[trigger] before(a, b) && !#[trigger] before(b, c) ==> !before(a, c)
}

/// Whether no element of `s` sorts strictly before an earlier one.
pub open spec fn ordered_by<T>(s: Seq<T>, before: spec_fn(T, T) -> bool) -> bool {
    forall|i: int, j: int| 0 <= i < j < s.len() ==> !before(#[trigger] s[j], #[trigger] s[i])
}

/// Where `insert_by` puts `x`.
pub open spec fn insert_pos<T>(s: Seq<T>, x: T, before: spec_fn(T, T) -> bool) -> int
    decreases s.len(),
{
    if s.len() > 0 && before(x, s.last()) {
        insert_pos(s.drop_last(), x, before)
    } else {
        s.len() as int
    }
}

proof fn lemma_insert_shape<T>(s: Seq<T>, x: T, before: spec_fn(T, T) -> bool)
    ensures
        0 <= insert_pos(s, x, before) <= s.len(),
        insert_by(s, x, before) == s.take(insert_pos(s, x, before)).push(x) + s.skip(
            insert_pos(s, x, before),
        ),
        forall|k: int|
            insert_pos(s, x, before) <= k < s.len() ==> before(x, #[trigger] s[k]),
        insert_pos(s, x, before) == 0 || !before(x, s[insert_pos(s, x, before) - 1]),
    decreases s.len(),
{
    if s.len() > 0 && before(x, s.last()) {
        lemma_insert_shape(s.drop_last(), x, before);
        let p = insert_pos(s, x, before);
        assert forall|k: int| p <= k < s.len() implies before(x, #[trigger] s[k]) by {
            if k < s.len() - 1 {
                assert(s[k] == s.drop_last()[k]);
            }
        }
        if p > 0 {
            assert(s[p - 1] == s.drop_last()[p - 1]);
        }
        lemma_insert_at(s, x, before, p);
    } else {
        lemma_insert_at(s, x, before, s.len() as int);
    }
}

/// Inserting keeps every element: the result holds the elements of `s` and `x`.
pub proof fn lemma_insert_multiset<T>(s: Seq<T>, x: T, before: spec_fn(T, T) -> bool)
    ensures
        insert_by(s, x, before).to_multiset() == s.to_multiset().insert(x),
    decreases s.len(),
{
    broadcast use vstd::seq_lib::to_multiset_build;

    if s.len() > 0 && before(x, s.last()) {
        lemma_insert_multiset(s.drop_last(), x, before);
        assert(s.drop_last().push(s.last()) =~= s);
        assert(insert_by(s, x, before).to_multiset() =~= s.to_multiset().insert(x));
    }
}

/// A stable sort is a permutation: it holds exactly the elements it was given.
pub proof fn stable_sort_permutes<T>(s: Seq<T>, before: spec_fn(T, T) -> bool)
    ensures
        stable_sorted(s, before).to_multiset() == s.to_multiset(),
    decreases s.len(),
{
    broadcast use vstd::seq_lib::to_multiset_build;

    if s.len() > 0 {
        stable_sort_permutes(s.drop_last(), before);
        lemma_insert_multiset(stable_sorted(s.drop_last(), before), s.last(), before);
        assert(s.drop_last().push(s.last()) =~= s);
    }
}

proof fn lemma_insert_ordered<T>(s: Seq<T>, x: T, before: spec_fn(T, T) -> bool)
    requires
        strict_weak(before),
        ordered_by(s, before),
    ensures
        ordered_by(insert_by(s, x, before), before),
{
    lemma_insert_shape(s, x, before);
    let p = insert_pos(s, x, before);
    let r = insert_by(s, x, before);
    assert(r.len() == s.len() + 1);
    assert forall|i: int, j: int| 0 <= i < j < r.len() implies !before(#[trigger] r[j], #[trigger] r[i]) by {
        let si = if i < p { i } else { i - 1 };
        let sj = if j < p { j } else { j - 1 };
        if i < p {
            assert(r[i] == s[i]);
        }
        if i > p {
            assert(r[i] == s[i - 1]);
        }
        if j < p {
            assert(r[j] == s[j]);
        }
        if j > p {
            assert(r[j] == s[j - 1]);
        }
        if i == p {
            assert(r[i] == x);
            assert(before(x, s[j - 1]));
            if before(s[j - 1], x) {
                assert(before(x, x));
            }
        } else if j == p {
            assert(r[j] == x);
            assert(!before(x, s[p - 1]));
            if i < p - 1 {
                assert(!before(s[p - 1], s[i]));
            }
        } else {
            assert(si < sj);
            assert(!before(s[sj], s[si]));
        }
    }
}

/// With a strict weak order, a stable sort leaves no element before an earlier one that it
/// sorts strictly before.
pub proof fn stable_sort_orders<T>(s: Seq<T>, before: spec_fn(T, T) -> bool)
    requires
        strict_weak(before),
    ensures
        ordered_by(stable_sorted(s, before), before),
    decreases s.len(),
{
    if s.len() > 0 {
        stable_sort_orders(s.drop_last(), before);
        lemma_insert_ordered(stable_sorted(s.drop_last(), before), s.last(), before);
    }
}

/// Sorting a sequence that is already in order leaves it as it is.
pub proof fn lemma_sorted_fixed<T>(s: Seq<T>, before: spec_fn(T, T) -> bool)
    requires
        ordered_by(s, before),
    ensures
        stable_sorted(s, before) == s,
    decreases s.len(),
{
    if s.len() > 0 {
        let init = s.drop_last();
        assert(ordered_by(init, before)) by {
            assert forall|i: int, j: int| 0 <= i < j < init.len() implies !before(
                #[trigger] init[j],
                #[trigger] init[i],
            ) by {
                assert(init[i] == s[i] && init[j] == s[j]);
            }
        }
        lemma_sorted_fixed(init, before);
        if init.len() > 0 {
            assert(init.last() == s[s.len() - 2]);
            assert(!before(s[s.len() - 1], s[s.len() - 2]));
        }
        assert(init.push(s.last()) =~= s);
    }
}

/// Sorting twice gives what sorting once gives.
pub proof fn stable_sort_idempotent<T>(s: Seq<T>, before: spec_fn(T, T) -> bool)
    requires
        strict_weak(before),
    ensures
        stable_sorted(stable_sorted(s, before), before) == stable_sorted(s, before),
{
    stable_sort_orders(s, before);
    lemma_sorted_fixed(stable_sorted(s, before), before);
}

} // verus!

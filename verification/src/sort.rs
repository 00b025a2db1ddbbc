//! Stable insertion order: the specification of a stable sort by a strict
//! "goes before" relation, and the lemma that characterises one insertion.
use vstd::prelude::*;

verus! {

/// Insert `x` into `sorted`: `x` moves in front of every trailing element it
/// strictly goes before, and stays behind all others (so equal elements keep
/// the order they came in).
pub open spec fn insert_sorted<T>(before: spec_fn(T, T) -> bool, x: T, sorted: Seq<T>) -> Seq<T>
    decreases sorted.len(),
{
    if sorted.len() == 0 {
        seq![x]
    } else if before(x, sorted.last()) {
        insert_sorted(before, x, sorted.drop_last()).push(sorted.last())
    } else {
        sorted.push(x)
    }
}

/// The stable sort of `xs` by the strict order `before`.
pub open spec fn sort_by<T>(before: spec_fn(T, T) -> bool, xs: Seq<T>) -> Seq<T>
    decreases xs.len(),
{
    if xs.len() == 0 {
        Seq::empty()
    } else {
        insert_sorted(before, xs.last(), sort_by(before, xs.drop_last()))
    }
}

/// Inserting at the position `p` found by scanning back from the end is
/// `insert_sorted`.
pub proof fn lemma_insert_at<T>(before: spec_fn(T, T) -> bool, x: T, sorted: Seq<T>, p: int)
    requires
        0 <= p <= sorted.len(),
        forall|k: int| p <= k < sorted.len() ==> before(x, #[trigger] sorted[k]),
        p > 0 ==> !before(x, sorted[p - 1]),
    ensures
        insert_sorted(before, x, sorted) == sorted.take(p).push(x) + sorted.skip(p),
    decreases sorted.len(),
{
    if sorted.len() == 0 {
        assert(sorted.take(p).push(x) + sorted.skip(p) =~= seq![x]);
    } else if p == sorted.len() {
        assert(sorted.take(p) =~= sorted);
        assert(sorted.skip(p) =~= Seq::<T>::empty());
        assert(sorted.take(p).push(x) + sorted.skip(p) =~= sorted.push(x));
    } else {
        let last = sorted.last();
        assert(before(x, sorted[sorted.len() - 1]));
        let d = sorted.drop_last();
        assert forall|k: int| p <= k < d.len() implies before(x, #[trigger] d[k]) by {
            assert(d[k] == sorted[k]);
        }
        if p > 0 {
            assert(d[p - 1] == sorted[p - 1]);
        }
        lemma_insert_at(before, x, d, p);
        assert(d.take(p) =~= sorted.take(p));
        assert(d.skip(p).push(last) =~= sorted.skip(p));
        assert(insert_sorted(before, x, sorted) == insert_sorted(before, x, d).push(last));
        assert((d.take(p).push(x) + d.skip(p)).push(last) =~= sorted.take(p).push(x) + sorted.skip(p));
    }
}

/// Inserting keeps the elements: the result has one more element, and it is
/// a rearrangement of `sorted` with `x` added.
pub proof fn lemma_insert_sorted_multiset<T>(before: spec_fn(T, T) -> bool, x: T, sorted: Seq<T>)
    ensures
        insert_sorted(before, x, sorted).to_multiset() == sorted.to_multiset().insert(x),
        insert_sorted(before, x, sorted).len() == sorted.len() + 1,
    decreases sorted.len(),
{
    broadcast use vstd::seq_lib::group_to_multiset_ensures;
    if sorted.len() == 0 {
        assert(seq![x] =~= Seq::<T>::empty().push(x));
    } else if before(x, sorted.last()) {
        let d = sorted.drop_last();
        lemma_insert_sorted_multiset(before, x, d);
        assert(sorted =~= d.push(sorted.last()));
        assert(insert_sorted(before, x, sorted).to_multiset()
            =~= sorted.to_multiset().insert(x));
    } else {
    }
}

/// A stable sort is a rearrangement of its input.
pub proof fn lemma_sort_by_multiset<T>(before: spec_fn(T, T) -> bool, xs: Seq<T>)
    ensures
        sort_by(before, xs).to_multiset() == xs.to_multiset(),
        sort_by(before, xs).len() == xs.len(),
    decreases xs.len(),
{
    broadcast use vstd::seq_lib::group_to_multiset_ensures;
    if xs.len() > 0 {
        let d = xs.drop_last();
        lemma_sort_by_multiset(before, d);
        lemma_insert_sorted_multiset(before, xs.last(), sort_by(before, d));
        assert(xs =~= d.push(xs.last()));
    }
}


/// Sorting commutes with a map that carries the order: sorting values by an
/// order defined through their images, then mapping, is sorting the images.
pub proof fn lemma_sort_by_map<T, V>(
    before_t: spec_fn(T, T) -> bool,
    before_v: spec_fn(V, V) -> bool,
    f: spec_fn(T) -> V,
    xs: Seq<T>,
)
    requires
        forall|a: T, b: T| #[trigger] before_t(a, b) == before_v(f(a), f(b)),
    ensures
        sort_by(before_t, xs).map_values(f) == sort_by(before_v, xs.map_values(f)),
    decreases xs.len(),
{
    if xs.len() > 0 {
        let d = xs.drop_last();
        lemma_sort_by_map(before_t, before_v, f, d);
        assert(xs.map_values(f).drop_last() =~= d.map_values(f));
        lemma_insert_sorted_map(before_t, before_v, f, xs.last(), sort_by(before_t, d));
    }
}

/// One insertion commutes with a map that carries the order.
pub proof fn lemma_insert_sorted_map<T, V>(
    before_t: spec_fn(T, T) -> bool,
    before_v: spec_fn(V, V) -> bool,
    f: spec_fn(T) -> V,
    x: T,
    sorted: Seq<T>,
)
    requires
        forall|a: T, b: T| #[trigger] before_t(a, b) == before_v(f(a), f(b)),
    ensures
        insert_sorted(before_t, x, sorted).map_values(f) == insert_sorted(before_v, f(x), sorted.map_values(f)),
    decreases sorted.len(),
{
    if sorted.len() == 0 {
        assert(seq![x].map_values(f) =~= seq![f(x)]);
    } else {
        let d = sorted.drop_last();
        assert(sorted.map_values(f).drop_last() =~= d.map_values(f));
        assert(sorted.map_values(f).last() == f(sorted.last()));
        assert(before_t(x, sorted.last()) == before_v(f(x), f(sorted.last())));
        if before_t(x, sorted.last()) {
            lemma_insert_sorted_map(before_t, before_v, f, x, d);
            assert(insert_sorted(before_t, x, d).push(sorted.last()).map_values(f)
                =~= insert_sorted(before_t, x, d).map_values(f).push(f(sorted.last())));
        } else {
            assert(sorted.push(x).map_values(f) =~= sorted.map_values(f).push(f(x)));
        }
    }
}

/// `before` is a strict weak order: irreflexive, transitive, and with
/// transitive incomparability.
pub open spec fn strict_weak<T>(before: spec_fn(T, T) -> bool) -> bool {
    &&& forall|a: T| !#[trigger] before(a, a)
    &&& forall|a: T, b: T, c: T| #[trigger] before(a, b) && #[trigger] before(b, c) ==> before(a, c)
    &&& forall|a: T, b: T, c: T| !#[trigger] before(a, b) && !#[trigger] before(b, c) ==> !before(a, c)
}

/// No element of `s` goes before an element in front of it.
pub open spec fn sorted_by<T>(before: spec_fn(T, T) -> bool, s: Seq<T>) -> bool {
    forall|i: int, j: int| 0 <= i < j < s.len() ==> !before(#[trigger] s[j], #[trigger] s[i])
}

/// Inserting into a sorted sequence keeps it sorted.
pub proof fn lemma_insert_sorted_sorted<T>(before: spec_fn(T, T) -> bool, x: T, s: Seq<T>)
    requires
        strict_weak(before),
        sorted_by(before, s),
    ensures
        sorted_by(before, insert_sorted(before, x, s)),
    decreases s.len(),
{
    if s.len() == 0 {
    } else if before(x, s.last()) {
        let d = s.drop_last();
        assert(sorted_by(before, d)) by {
            assert forall|i: int, j: int| 0 <= i < j < d.len() implies !before(#[trigger] d[j], #[trigger] d[i]) by {
                assert(d[i] == s[i] && d[j] == s[j]);
            }
        }
        lemma_insert_sorted_sorted(before, x, d);
        lemma_insert_sorted_multiset(before, x, d);
        let r = insert_sorted(before, x, d);
        let last = s.last();
        assert forall|i: int, j: int| 0 <= i < j < r.len() + 1 implies !before(#[trigger] r.push(last)[j], #[trigger] r.push(last)[i]) by {
            if j == r.len() {
                let y = r[i];
                broadcast use vstd::seq_lib::group_to_multiset_ensures;
                assert(r.contains(y));
                assert(r.to_multiset().count(y) > 0);
                assert(d.to_multiset().insert(x).count(y) > 0);
                if y == x {
                    assert(!before(last, x));
                } else {
                    assert(d.to_multiset().count(y) > 0);
                    assert(d.contains(y));
                    let k = choose|k: int| 0 <= k < d.len() && d[k] == y;
                    assert(s[k] == y);
                    assert(!before(s[s.len() - 1], s[k]));
                }
            } else {
                assert(r.push(last)[i] == r[i] && r.push(last)[j] == r[j]);
            }
        }
    } else {
        assert forall|i: int, j: int| 0 <= i < j < s.len() + 1 implies !before(#[trigger] s.push(x)[j], #[trigger] s.push(x)[i]) by {
            if j == s.len() {
                assert(!before(x, s.last()));
                if i < s.len() - 1 {
                    assert(!before(s[s.len() - 1], s[i]));
                }
            } else {
                assert(s.push(x)[i] == s[i] && s.push(x)[j] == s[j]);
            }
        }
    }
}

/// The stable sort by a strict weak order is sorted: no element goes
/// before one in front of it.
pub proof fn lemma_sort_by_sorted<T>(before: spec_fn(T, T) -> bool, xs: Seq<T>)
    requires
        strict_weak(before),
    ensures
        sorted_by(before, sort_by(before, xs)),
    decreases xs.len(),
{
    if xs.len() > 0 {
        lemma_sort_by_sorted(before, xs.drop_last());
        lemma_insert_sorted_sorted(before, xs.last(), sort_by(before, xs.drop_last()));
    }
}

} // verus!

//! Stable sorting, stated over sequences and an order given as a relation.

use vstd::prelude::*;

verus! {

/// `before` is a strict weak order: nothing comes before itself, the relation is
/// transitive, and whatever separates two items is on one side of any third.
pub open spec fn strict_weak_order<T>(before: spec_fn(T, T) -> bool) -> bool {
    &&& forall|a: T| !#[trigger] before(a, a)
    &&& forall|a: T, b: T, c: T|
        #![trigger before(a, b), before(b, c)]
        before(a, b) && before(b, c) ==> before(a, c)
    &&& forall|a: T, b: T, c: T|
        #![trigger before(a, c), before(a, b)]
        #![trigger before(a, c), before(b, c)]
        before(a, c) ==> before(a, b) || before(b, c)
}

/// No item of `s` stands behind one that it comes before.
pub open spec fn sorted<T>(s: Seq<T>, before: spec_fn(T, T) -> bool) -> bool {
    forall|i: int, j: int| 0 <= i < j < s.len() ==> !before(#[trigger] s[j], #[trigger] s[i])
}

/// Neither of `a` and `b` comes before the other.
pub open spec fn tied<T>(a: T, b: T, before: spec_fn(T, T) -> bool) -> bool {
    !before(a, b) && !before(b, a)
}

/// Where a new item `x` goes into `s`: in front of the items at the end of `s` that it
/// comes before, and so behind every item that it is tied with.
pub open spec fn insert_point<T>(s: Seq<T>, x: T, before: spec_fn(T, T) -> bool) -> int
    decreases s.len(),
{
    if s.len() > 0 && before(x, s.last()) {
        insert_point(s.drop_last(), x, before)
    } else {
        s.len() as int
    }
}

/// `s` sorted by `before`, items that are tied keeping the order they have in `s`.
pub open spec fn stable_sort<T>(s: Seq<T>, before: spec_fn(T, T) -> bool) -> Seq<T>
    decreases s.len(),
{
    if s.len() == 0 {
        s
    } else {
        let r = stable_sort(s.drop_last(), before);
        r.insert(insert_point(r, s.last(), before), s.last())
    }
}

/// What `insert_point` returns: `x` comes before every item from there on, and not
/// before the item just in front.
pub proof fn lemma_insert_point<T>(s: Seq<T>, x: T, before: spec_fn(T, T) -> bool)
    ensures
        0 <= insert_point(s, x, before) <= s.len(),
        forall|k: int| insert_point(s, x, before) <= k < s.len() ==> before(x, #[trigger] s[k]),
        insert_point(s, x, before) > 0 ==> !before(x, s[insert_point(s, x, before) - 1]),
    decreases s.len(),
{
    if s.len() > 0 && before(x, s.last()) {
        lemma_insert_point(s.drop_last(), x, before);
        assert forall|k: int| insert_point(s, x, before) <= k < s.len() implies before(
            x,
            #[trigger] s[k],
        ) by {
            if k < s.len() - 1 {
                assert(s.drop_last()[k] == s[k]);
            }
        }
    }
}

/// The one index with the two properties of `lemma_insert_point` is `insert_point`.
pub proof fn lemma_insert_point_is<T>(s: Seq<T>, x: T, before: spec_fn(T, T) -> bool, j: int)
    requires
        0 <= j <= s.len(),
        forall|k: int| j <= k < s.len() ==> before(x, #[trigger] s[k]),
        j > 0 ==> !before(x, s[j - 1]),
    ensures
        insert_point(s, x, before) == j,
    decreases s.len(),
{
    if s.len() > 0 && before(x, s.last()) {
        lemma_insert_point_is(s.drop_last(), x, before, j);
    }
}

/// Sorting keeps the length.
pub proof fn lemma_stable_sort_len<T>(s: Seq<T>, before: spec_fn(T, T) -> bool)
    ensures
        stable_sort(s, before).len() == s.len(),
    decreases s.len(),
{
    if s.len() > 0 {
        let r = stable_sort(s.drop_last(), before);
        lemma_stable_sort_len(s.drop_last(), before);
        lemma_insert_point(r, s.last(), before);
    }
}

/// Sorting rearranges: the result holds the items of `s`, each as often as `s` does.
pub proof fn lemma_stable_sort_permutes<T>(s: Seq<T>, before: spec_fn(T, T) -> bool)
    ensures
        stable_sort(s, before).to_multiset() == s.to_multiset(),
    decreases s.len(),
{
    if s.len() > 0 {
        let r = stable_sort(s.drop_last(), before);
        lemma_stable_sort_permutes(s.drop_last(), before);
        lemma_insert_point(r, s.last(), before);
        vstd::seq_lib::to_multiset_insert(r, insert_point(r, s.last(), before), s.last());
        vstd::seq_lib::to_multiset_build(s.drop_last(), s.last());
        assert(s.drop_last().push(s.last()) =~= s);
    }
}

/// Under a strict weak order the result of sorting is sorted.
pub proof fn lemma_stable_sort_sorted<T>(s: Seq<T>, before: spec_fn(T, T) -> bool)
    requires
        strict_weak_order(before),
    ensures
        sorted(stable_sort(s, before), before),
    decreases s.len(),
{
    if s.len() > 0 {
        let r = stable_sort(s.drop_last(), before);
        let x = s.last();
        let p = insert_point(r, x, before);
        let out = r.insert(p, x);
        lemma_stable_sort_sorted(s.drop_last(), before);
        lemma_insert_point(r, x, before);
        r.insert_ensures(p, x);
        assert forall|i: int, j: int| 0 <= i < j < out.len() implies !before(
            #[trigger] out[j],
            #[trigger] out[i],
        ) by {
            if j == p {
                // out[i] == r[i] stands in front of the point
                assert(out[i] == r[i]);
                if before(x, r[i]) {
                    assert(!before(x, r[p - 1]));
                    if i < p - 1 {
                        assert(!before(r[p - 1], r[i]));
                    }
                }
            } else if i == p {
                assert(out[j] == r[j - 1]);
                assert(before(x, r[j - 1]));
            } else {
                let a = if i < p { i } else { i - 1 };
                let b = if j < p { j } else { j - 1 };
                assert(out[i] == r[a]);
                assert(out[j] == r[b]);
            }
        }
    }
}

/// Sorting is stable: the items tied with `z` stand in the result as they stand in `s`.
pub proof fn lemma_stable_sort_stable<T>(s: Seq<T>, before: spec_fn(T, T) -> bool, z: T)
    requires
        strict_weak_order(before),
    ensures
        stable_sort(s, before).filter(|y: T| tied(z, y, before)) == s.filter(
            |y: T| tied(z, y, before),
        ),
    decreases s.len(),
{
    let class = |y: T| tied(z, y, before);
    if s.len() > 0 {
        let r = stable_sort(s.drop_last(), before);
        let x = s.last();
        let p = insert_point(r, x, before);
        lemma_stable_sort_stable(s.drop_last(), before, z);
        lemma_insert_point(r, x, before);
        let front = r.subrange(0, p);
        let back = r.subrange(p, r.len() as int);
        assert(r =~= front + back);
        assert(r.insert(p, x) =~= front.push(x) + back);
        Seq::filter_distributes_over_add(front, back, class);
        Seq::filter_distributes_over_add(front.push(x), back, class);
        front.lemma_filter_push(x, class);
        s.drop_last().lemma_filter_push(x, class);
        assert(s.drop_last().push(x) =~= s);
        if class(x) {
            assert forall|k: int| 0 <= k < back.len() implies !class(#[trigger] back[k]) by {
                assert(back[k] == r[p + k]);
                assert(before(x, r[p + k]));
                if class(back[k]) {
                    assert(before(x, z) || before(z, back[k]));
                }
            }
            back.lemma_all_neg_filter_empty(class);
            assert(back.filter(class) =~= Seq::<T>::empty());
            assert(r.filter(class) =~= front.filter(class));
            assert(front.filter(class).push(x) + back.filter(class) =~= front.filter(class).push(
                x,
            ));
        }
    } else {
        reveal(Seq::filter);
    }
}

/// Sorting neither adds nor loses an item.
pub proof fn lemma_stable_sort_contains<T>(s: Seq<T>, before: spec_fn(T, T) -> bool, x: T)
    ensures
        stable_sort(s, before).contains(x) <==> s.contains(x),
{
    lemma_stable_sort_permutes(s, before);
    vstd::seq_lib::to_multiset_contains(s, x);
    vstd::seq_lib::to_multiset_contains(stable_sort(s, before), x);
}

/// Sorting goes along with a change of the items that leaves their order alone: to
/// change every item and then sort is to sort and then change every item.
pub proof fn lemma_stable_sort_map<T>(
    s: Seq<T>,
    before: spec_fn(T, T) -> bool,
    change: spec_fn(T) -> T,
)
    requires
        forall|a: T, b: T| #[trigger] before(change(a), change(b)) == before(a, b),
    ensures
        stable_sort(s.map_values(change), before) == stable_sort(s, before).map_values(change),
    decreases s.len(),
{
    if s.len() > 0 {
        let r = stable_sort(s.drop_last(), before);
        let x = s.last();
        let changed = r.map_values(change);
        lemma_stable_sort_map(s.drop_last(), before, change);
        assert(s.map_values(change).drop_last() =~= s.drop_last().map_values(change));
        lemma_insert_point(r, x, before);
        let p = insert_point(r, x, before);
        assert forall|k: int| p <= k < changed.len() implies before(
            change(x),
            #[trigger] changed[k],
        ) by {
            assert(before(x, r[k]));
        }
        if p > 0 {
            assert(!before(x, r[p - 1]));
            assert(changed[p - 1] == change(r[p - 1]));
        }
        lemma_insert_point_is(changed, change(x), before, p);
        assert(changed.insert(p, change(x)) =~= r.insert(p, x).map_values(change));
    } else {
        assert(s.map_values(change) =~= s);
        assert(stable_sort(s, before).map_values(change) =~= s);
    }
}

/// Any two items of `s` at different places are `apart`.
pub open spec fn pairwise<T>(s: Seq<T>, apart: spec_fn(T, T) -> bool) -> bool {
    forall|i: int, j: int|
        0 <= i < s.len() && 0 <= j < s.len() && i != j ==> apart(#[trigger] s[i], #[trigger] s[j])
}

/// What holds of any two items at different places still holds after sorting.
pub proof fn lemma_stable_sort_pairwise<T>(
    s: Seq<T>,
    before: spec_fn(T, T) -> bool,
    apart: spec_fn(T, T) -> bool,
)
    requires
        pairwise(s, apart),
    ensures
        pairwise(stable_sort(s, before), apart),
    decreases s.len(),
{
    if s.len() > 0 {
        let rest = s.drop_last();
        let r = stable_sort(rest, before);
        let x = s.last();
        let p = insert_point(r, x, before);
        let out = r.insert(p, x);
        assert(pairwise(rest, apart)) by {
            assert forall|i: int, j: int|
                0 <= i < rest.len() && 0 <= j < rest.len() && i != j implies apart(
                #[trigger] rest[i],
                #[trigger] rest[j],
            ) by {
                assert(rest[i] == s[i] && rest[j] == s[j]);
            }
        }
        lemma_stable_sort_pairwise(rest, before, apart);
        lemma_insert_point(r, x, before);
        r.insert_ensures(p, x);
        assert forall|i: int, j: int|
            0 <= i < out.len() && 0 <= j < out.len() && i != j implies apart(
            #[trigger] out[i],
            #[trigger] out[j],
        ) by {
            let a = if i < p {
                i
            } else {
                i - 1
            };
            let b = if j < p {
                j
            } else {
                j - 1
            };
            if i == p {
                assert(out[j] == r[b]);
                lemma_stable_sort_contains(rest, before, r[b]);
                assert(r.contains(r[b]));
                let m = choose|m: int| 0 <= m < rest.len() && rest[m] == r[b];
                assert(s[m] == r[b] && s[s.len() - 1] == x);
            } else if j == p {
                assert(out[i] == r[a]);
                lemma_stable_sort_contains(rest, before, r[a]);
                assert(r.contains(r[a]));
                let m = choose|m: int| 0 <= m < rest.len() && rest[m] == r[a];
                assert(s[m] == r[a] && s[s.len() - 1] == x);
            } else {
                assert(out[i] == r[a] && out[j] == r[b]);
            }
        }
    }
}

} // verus!

//! Stable sorting, stated once over sequences and an ordering relation.
//!
//! `sort_stable` is insertion sort read as a definition: each element, taken in input order,
//! goes right after the last element already placed that may precede it. This is what a stable
//! sort (such as `slice::sort_by`) yields for a total preorder, so the executable sorts in this
//! crate are specified by it, and the laws below say that its result is ordered and holds the
//! same elements.
use vstd::prelude::*;
use vstd::seq_lib::to_multiset_build;

verus! {

/// `x` placed after the last element `e` of `s` with `le(e, x)`; at the front when there is none.
pub open spec fn insert_sorted<T>(s: Seq<T>, x: T, le: spec_fn(T, T) -> bool) -> Seq<T>
    decreases s.len(),
{
    if s.len() == 0 {
        seq![x]
    } else if le(s.last(), x) {
        s.push(x)
    } else {
        insert_sorted(s.drop_last(), x, le).push(s.last())
    }
}

/// The stable sort of `s` by `le`.
pub open spec fn sort_stable<T>(s: Seq<T>, le: spec_fn(T, T) -> bool) -> Seq<T>
    decreases s.len(),
{
    if s.len() == 0 {
        s
    } else {
        insert_sorted(sort_stable(s.drop_last(), le), s.last(), le)
    }
}

/// Every element may precede every later one.
pub open spec fn is_sorted_by<T>(s: Seq<T>, le: spec_fn(T, T) -> bool) -> bool {
    forall|i: int, j: int| 0 <= i < j < s.len() ==> #[trigger] le(s[i], s[j])
}

/// `le` is transitive and any two elements are related one way or the other.
pub open spec fn total_preorder<T>(le: spec_fn(T, T) -> bool) -> bool {
    &&& forall|a: T, b: T, c: T| #[trigger] le(a, b) && #[trigger] le(b, c) ==> le(a, c)
    &&& forall|a: T, b: T| #[trigger] le(a, b) || le(b, a)
}

/// Inserting at a position found by scanning back from the end agrees with `insert_sorted`.
pub proof fn lemma_insert_sorted_at<T>(s: Seq<T>, x: T, le: spec_fn(T, T) -> bool, j: int)
    requires
        0 <= j <= s.len(),
        forall|k: int| j <= k < s.len() ==> !le(#[trigger] s[k], x),
        j > 0 ==> le(s[j - 1], x),
    ensures
        insert_sorted(s, x, le) == s.insert(j, x),
    decreases s.len(),
{
    if s.len() == 0 {
        assert(s.insert(j, x) =~= seq![x]);
    } else if le(s.last(), x) {
        assert(j == s.len()) by {
            if j < s.len() {
                assert(!le(s[s.len() - 1], x));
            }
        }
        assert(s.insert(j, x) =~= s.push(x));
    } else {
        let t = s.drop_last();
        assert forall|k: int| j <= k < t.len() implies !le(#[trigger] t[k], x) by {
            assert(t[k] == s[k]);
        }
        if j > 0 {
            assert(t[j - 1] == s[j - 1]);
        }
        lemma_insert_sorted_at(t, x, le, j);
        assert(s.insert(j, x) =~= t.insert(j, x).push(s.last()));
    }
}

proof fn lemma_insert_sorted_multiset<T>(s: Seq<T>, x: T, le: spec_fn(T, T) -> bool)
    ensures
        insert_sorted(s, x, le).to_multiset() == s.to_multiset().insert(x),
    decreases s.len(),
{
    broadcast use vstd::multiset::group_multiset_axioms;
    if s.len() == 0 {
        to_multiset_build(s, x);
        assert(s.push(x) =~= seq![x]);
    } else if le(s.last(), x) {
        to_multiset_build(s, x);
    } else {
        let t = s.drop_last();
        lemma_insert_sorted_multiset(t, x, le);
        to_multiset_build(insert_sorted(t, x, le), s.last());
        to_multiset_build(t, s.last());
        assert(t.push(s.last()) =~= s);
        assert(s.to_multiset().insert(x) =~= t.to_multiset().insert(x).insert(s.last()));
    }
}

proof fn lemma_insert_sorted_bounded<T>(s: Seq<T>, x: T, le: spec_fn(T, T) -> bool, b: T)
    requires
        forall|k: int| 0 <= k < s.len() ==> le(#[trigger] s[k], b),
        le(x, b),
    ensures
        forall|k: int|
            0 <= k < insert_sorted(s, x, le).len() ==> le(#[trigger] insert_sorted(s, x, le)[k], b),
        insert_sorted(s, x, le).len() == s.len() + 1,
    decreases s.len(),
{
    if s.len() == 0 {
    } else if le(s.last(), x) {
        assert forall|k: int| 0 <= k < s.push(x).len() implies le(#[trigger] s.push(x)[k], b) by {
            if k < s.len() {
                assert(s.push(x)[k] == s[k]);
            }
        }
    } else {
        let t = s.drop_last();
        assert forall|k: int| 0 <= k < t.len() implies le(#[trigger] t[k], b) by {
            assert(t[k] == s[k]);
        }
        lemma_insert_sorted_bounded(t, x, le, b);
        let r = insert_sorted(t, x, le);
        assert forall|k: int| 0 <= k < r.push(s.last()).len() implies le(
            #[trigger] r.push(s.last())[k],
            b,
        ) by {
            if k < r.len() {
                assert(r.push(s.last())[k] == r[k]);
            } else {
                assert(s[s.len() - 1] == s.last());
            }
        }
    }
}

proof fn lemma_insert_sorted_sorted<T>(s: Seq<T>, x: T, le: spec_fn(T, T) -> bool)
    requires
        total_preorder(le),
        is_sorted_by(s, le),
    ensures
        is_sorted_by(insert_sorted(s, x, le), le),
        insert_sorted(s, x, le).len() == s.len() + 1,
    decreases s.len(),
{
    if s.len() == 0 {
    } else if le(s.last(), x) {
        let r = s.push(x);
        assert forall|i: int, j: int| 0 <= i < j < r.len() implies #[trigger] le(r[i], r[j]) by {
            if j < s.len() {
                assert(r[i] == s[i] && r[j] == s[j]);
            } else {
                assert(r[i] == s[i]);
                if i < s.len() - 1 {
                    assert(le(s[i], s[s.len() - 1]));
                }
            }
        }
    } else {
        let t = s.drop_last();
        let last = s.last();
        assert(is_sorted_by(t, le)) by {
            assert forall|i: int, j: int| 0 <= i < j < t.len() implies #[trigger] le(t[i], t[j]) by {
                assert(t[i] == s[i] && t[j] == s[j]);
            }
        }
        lemma_insert_sorted_sorted(t, x, le);
        assert(le(x, last));
        assert forall|k: int| 0 <= k < t.len() implies le(#[trigger] t[k], last) by {
            assert(t[k] == s[k]);
            assert(le(s[k], s[s.len() - 1]));
        }
        lemma_insert_sorted_bounded(t, x, le, last);
        let r = insert_sorted(t, x, le);
        let q = r.push(last);
        assert forall|i: int, j: int| 0 <= i < j < q.len() implies #[trigger] le(q[i], q[j]) by {
            assert(q[i] == r[i]);
            if j < r.len() {
                assert(q[j] == r[j]);
            } else {
                assert(le(r[i], last));
            }
        }
    }
}

/// The stable sort holds exactly the elements of its input, each as often.
pub proof fn lemma_sort_stable_permutation<T>(s: Seq<T>, le: spec_fn(T, T) -> bool)
    ensures
        sort_stable(s, le).to_multiset() == s.to_multiset(),
        sort_stable(s, le).len() == s.len(),
    decreases s.len(),
{
    broadcast use vstd::multiset::group_multiset_axioms;
    if s.len() > 0 {
        let t = s.drop_last();
        lemma_sort_stable_permutation(t, le);
        lemma_insert_sorted_multiset(sort_stable(t, le), s.last(), le);
        to_multiset_build(t, s.last());
        assert(t.push(s.last()) =~= s);
        vstd::seq_lib::to_multiset_len(sort_stable(s, le));
        vstd::seq_lib::to_multiset_len(s);
    }
}

/// For a total preorder, the stable sort is ordered.
pub proof fn lemma_sort_stable_sorted<T>(s: Seq<T>, le: spec_fn(T, T) -> bool)
    requires
        total_preorder(le),
    ensures
        is_sorted_by(sort_stable(s, le), le),
    decreases s.len(),
{
    if s.len() > 0 {
        lemma_sort_stable_sorted(s.drop_last(), le);
        lemma_insert_sorted_sorted(sort_stable(s.drop_last(), le), s.last(), le);
    }
}

} // verus!

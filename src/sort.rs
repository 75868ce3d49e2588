use vstd::prelude::*;

use core::cmp::Ordering;

verus! {

/// `s` with `x` inserted after every element that does not compare
/// greater than it: the step of a stable insertion sort.
pub open spec fn insert_stable<A>(s: Seq<A>, x: A, cmp: spec_fn(A, A) -> Ordering) -> Seq<A>
    decreases s.len(),
{
    if s.len() == 0 {
        seq![x]
    } else if cmp(s.last(), x) == Ordering::Greater {
        insert_stable(s.drop_last(), x, cmp).push(s.last())
    } else {
        s.push(x)
    }
}

/// The stable sort of `s` by `cmp`: elements that compare equal keep their
/// relative order.
pub open spec fn sort_stable<A>(s: Seq<A>, cmp: spec_fn(A, A) -> Ordering) -> Seq<A>
    decreases s.len(),
{
    if s.len() == 0 {
        s
    } else {
        insert_stable(sort_stable(s.drop_last(), cmp), s.last(), cmp)
    }
}

/// Inserting `x` past a suffix that all compares greater than it leaves
/// that suffix untouched.
pub proof fn lemma_insert_past_suffix<A>(s: Seq<A>, x: A, cmp: spec_fn(A, A) -> Ordering, j: int)
    requires
        0 <= j <= s.len(),
        forall|k: int| j <= k < s.len() ==> cmp(#[trigger] s[k], x) == Ordering::Greater,
    ensures
        insert_stable(s, x, cmp) == insert_stable(s.take(j), x, cmp) + s.skip(j),
    decreases s.len(),
{
    if j == s.len() {
        assert(s.take(j) =~= s);
        assert(s.skip(j) =~= Seq::<A>::empty());
        assert(insert_stable(s, x, cmp) + Seq::<A>::empty() =~= insert_stable(s, x, cmp));
    } else {
        let d = s.drop_last();
        assert(cmp(s[s.len() - 1], x) == Ordering::Greater);
        assert forall|k: int| j <= k < d.len() implies cmp(#[trigger] d[k], x) == Ordering::Greater by {
            assert(d[k] == s[k]);
        }
        lemma_insert_past_suffix(d, x, cmp, j);
        assert(d.take(j) =~= s.take(j));
        assert(d.skip(j).push(s.last()) =~= s.skip(j));
        assert(insert_stable(d.take(j), x, cmp) + d.skip(j).push(s.last()) =~= (
        insert_stable(d.take(j), x, cmp) + d.skip(j)).push(s.last()));
    }
}

/// Where the scan from the end stops, the stable insertion places `x`.
pub proof fn lemma_insert_at<A>(s: Seq<A>, x: A, cmp: spec_fn(A, A) -> Ordering, j: int)
    requires
        0 <= j <= s.len(),
        forall|k: int| j <= k < s.len() ==> cmp(#[trigger] s[k], x) == Ordering::Greater,
        j == 0 || cmp(s[j - 1], x) != Ordering::Greater,
    ensures
        insert_stable(s, x, cmp) == s.insert(j, x),
{
    lemma_insert_past_suffix(s, x, cmp, j);
    let t = s.take(j);
    if j == 0 {
        assert(insert_stable(t, x, cmp) == seq![x]);
    } else {
        assert(t.last() == s[j - 1]);
        assert(insert_stable(t, x, cmp) == t.push(x));
    }
    assert(insert_stable(t, x, cmp) =~= t.push(x));
    assert(t.push(x) + s.skip(j) =~= s.insert(j, x));
}

/// Inserting adds `x` and nothing else.
pub proof fn lemma_insert_stable_multiset<A>(s: Seq<A>, x: A, cmp: spec_fn(A, A) -> Ordering)
    ensures
        insert_stable(s, x, cmp).to_multiset() =~= s.to_multiset().insert(x),
    decreases s.len(),
{
    broadcast use vstd::seq_lib::group_to_multiset_ensures;

    if s.len() == 0 {
        assert(seq![x] =~= Seq::<A>::empty().push(x));
    } else if cmp(s.last(), x) == Ordering::Greater {
        let d = s.drop_last();
        lemma_insert_stable_multiset(d, x, cmp);
        assert(d.push(s.last()) =~= s);
        assert(insert_stable(s, x, cmp).to_multiset() =~= insert_stable(d, x, cmp).to_multiset().insert(s.last()));
        assert(d.to_multiset().insert(x).insert(s.last()) =~= d.to_multiset().insert(s.last()).insert(x));
    }
}

/// The stable sort is a permutation.
pub proof fn lemma_sort_stable_multiset<A>(s: Seq<A>, cmp: spec_fn(A, A) -> Ordering)
    ensures
        sort_stable(s, cmp).to_multiset() =~= s.to_multiset(),
    decreases s.len(),
{
    broadcast use vstd::seq_lib::group_to_multiset_ensures;

    if s.len() > 0 {
        let d = s.drop_last();
        lemma_sort_stable_multiset(d, cmp);
        lemma_insert_stable_multiset(sort_stable(d, cmp), s.last(), cmp);
        assert(d.push(s.last()) =~= s);
    }
}

} // verus!


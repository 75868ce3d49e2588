use vstd::prelude::*;

use crate::ledger::pending_op;
use crate::list::{ListFilter, ListItem, ListRequest, ListSorter, PendingItemOperation};
use crate::pending::Pending;
use crate::sort::{insert_stable, lemma_insert_stable_multiset, lemma_sort_stable_multiset, sort_stable};

verus! {

/// One line of the rendered list: a confirmed record (by its position in
/// the collection) with its annotations, or the placeholder of a create
/// request that has no response yet (by its position in the ledger).
#[derive(Debug, Clone, Copy, PartialEq, Eq)]
pub enum RenderItem {
    Record { index: usize, editing: bool, pending: PendingItemOperation },
    Placeholder { index: usize },
}

/// The verdict on `x`: that of the filter, or `(true, 0)` without one.
pub open spec fn verdict_of<T, F: ListFilter<T>>(filter: Option<F>, x: T) -> (bool, u64) {
    match filter {
        Some(f) => f.verdict(&x),
        None => (true, 0),
    }
}

/// The records that the filter keeps, as (position, score), in collection
/// order.
pub open spec fn kept<T, F: ListFilter<T>>(items: Seq<T>, filter: Option<F>) -> Seq<(usize, u64)>
    decreases items.len(),
{
    if items.len() == 0 {
        seq![]
    } else {
        let p = kept(items.drop_last(), filter);
        let v = verdict_of(filter, items.last());
        if v.0 {
            p.push(((items.len() - 1) as usize, v.1))
        } else {
            p
        }
    }
}

/// Higher scores first.
pub open spec fn score_order(a: u64, b: u64) -> core::cmp::Ordering {
    if a > b {
        core::cmp::Ordering::Less
    } else if a < b {
        core::cmp::Ordering::Greater
    } else {
        core::cmp::Ordering::Equal
    }
}

/// How two kept entries are ordered: by an enabled sorter, or else by
/// descending score.
pub open spec fn entry_order<T, S: ListSorter<T>>(items: Seq<T>, sorter: Option<S>) -> spec_fn(
    (usize, u64),
    (usize, u64),
) -> core::cmp::Ordering {
    match sorter {
        Some(s) => if s.is_enabled() {
            |p: (usize, u64), q: (usize, u64)| s.order(&items[p.0 as int], &items[q.0 as int], p.1, q.1)
        } else {
            |p: (usize, u64), q: (usize, u64)| score_order(p.1, q.1)
        },
        None => |p: (usize, u64), q: (usize, u64)| score_order(p.1, q.1),
    }
}

/// The lines of the confirmed records, in the order of `entries`.
pub open spec fn record_lines<T: ListItem, C, U>(
    entries: Seq<(usize, u64)>,
    items: Seq<T>,
    editing: Option<i64>,
    ledger: Seq<Pending<ListRequest<C, U>>>,
) -> Seq<RenderItem> {
    entries.map_values(
        |e: (usize, u64)|
            RenderItem::Record {
                index: e.0,
                editing: editing == Some(items[e.0 as int].key()),
                pending: pending_op(ledger, items[e.0 as int].key()),
            },
    )
}

/// One placeholder per create request in the ledger, in ledger order.
pub open spec fn placeholders<C, U>(l: Seq<Pending<ListRequest<C, U>>>) -> Seq<RenderItem>
    decreases l.len(),
{
    if l.len() == 0 {
        seq![]
    } else {
        let p = placeholders(l.drop_last());
        if l.last().data is Create {
            p.push(RenderItem::Placeholder { index: (l.len() - 1) as usize })
        } else {
            p
        }
    }
}

/// Best score first, and entries of equal score by position.
pub open spec fn ranked(s: Seq<(usize, u64)>) -> bool {
    forall|i: int, j: int|
        0 <= i < j < s.len() ==> (#[trigger] s[i]).1 > (#[trigger] s[j]).1 || (s[i].1 == s[j].1 && s[i].0 < s[j].0)
}

/// Positions strictly increase.
pub open spec fn by_position(s: Seq<(usize, u64)>) -> bool {
    forall|i: int, j: int| 0 <= i < j < s.len() ==> (#[trigger] s[i]).0 < (#[trigger] s[j]).0
}

proof fn lemma_insert_ranked(
    t: Seq<(usize, u64)>,
    x: (usize, u64),
    cmp: spec_fn((usize, u64), (usize, u64)) -> core::cmp::Ordering,
)
    requires
        ranked(t),
        forall|k: int| 0 <= k < t.len() ==> (#[trigger] t[k]).0 < x.0,
        forall|p: (usize, u64), q: (usize, u64)| #[trigger] cmp(p, q) == score_order(p.1, q.1),
    ensures
        ranked(insert_stable(t, x, cmp)),
    decreases t.len(),
{
    broadcast use vstd::seq_lib::group_to_multiset_ensures;

    if t.len() == 0 {
    } else if cmp(t.last(), x) == core::cmp::Ordering::Greater {
        let d = t.drop_last();
        let l = t.last();
        assert(ranked(d)) by {
            assert forall|i: int, j: int| 0 <= i < j < d.len() implies (#[trigger] d[i]).1 > (#[trigger] d[j]).1 || (d[i].1 == d[j].1 && d[i].0 < d[j].0) by {
                assert(d[i] == t[i] && d[j] == t[j]);
            }
        }
        lemma_insert_ranked(d, x, cmp);
        let r = insert_stable(d, x, cmp);
        lemma_insert_stable_multiset(d, x, cmp);
        let n = r.push(l);
        assert forall|i: int, j: int| 0 <= i < j < n.len() implies (#[trigger] n[i]).1 > (#[trigger] n[j]).1 || (n[i].1 == n[j].1 && n[i].0 < n[j].0) by {
            if j < r.len() {
                assert(n[i] == r[i] && n[j] == r[j]);
            } else {
                assert(n[i] == r[i]);
                assert(n[j] == l);
                assert(r.to_multiset().count(r[i]) > 0);
                if r[i] != x {
                    assert(d.to_multiset().count(r[i]) > 0);
                    assert(d.contains(r[i]));
                    let m = choose|m: int| 0 <= m < d.len() && d[m] == r[i];
                    assert(t[m] == r[i]);
                    assert(t[m].1 > t[t.len() - 1].1 || (t[m].1 == t[t.len() - 1].1 && t[m].0 < t[t.len() - 1].0));
                }
            }
        }
    } else {
        let n = t.push(x);
        let l = t.last();
        assert forall|i: int, j: int| 0 <= i < j < n.len() implies (#[trigger] n[i]).1 > (#[trigger] n[j]).1 || (n[i].1 == n[j].1 && n[i].0 < n[j].0) by {
            if j < t.len() {
                assert(n[i] == t[i] && n[j] == t[j]);
            } else {
                assert(n[i] == t[i]);
                if i < t.len() - 1 {
                    assert(t[i].1 > l.1 || (t[i].1 == l.1 && t[i].0 < l.0));
                }
            }
        }
    }
}

/// Sorting by score alone, entries listed by position come out ranked.
pub proof fn lemma_sort_by_score_ranked(
    s: Seq<(usize, u64)>,
    cmp: spec_fn((usize, u64), (usize, u64)) -> core::cmp::Ordering,
)
    requires
        by_position(s),
        forall|p: (usize, u64), q: (usize, u64)| #[trigger] cmp(p, q) == score_order(p.1, q.1),
    ensures
        ranked(sort_stable(s, cmp)),
    decreases s.len(),
{
    broadcast use vstd::seq_lib::group_to_multiset_ensures;

    if s.len() > 0 {
        let d = s.drop_last();
        assert(by_position(d)) by {
            assert forall|i: int, j: int| 0 <= i < j < d.len() implies (#[trigger] d[i]).0 < (#[trigger] d[j]).0 by {
                assert(d[i] == s[i] && d[j] == s[j]);
            }
        }
        lemma_sort_by_score_ranked(d, cmp);
        let t = sort_stable(d, cmp);
        lemma_sort_stable_multiset(d, cmp);
        assert forall|k: int| 0 <= k < t.len() implies (#[trigger] t[k]).0 < s.last().0 by {
            assert(t.to_multiset().count(t[k]) > 0);
            assert(d.contains(t[k]));
            let m = choose|m: int| 0 <= m < d.len() && d[m] == t[k];
            assert(s[m] == t[k]);
        }
        lemma_insert_ranked(t, s.last(), cmp);
    }
}

/// The kept entries are listed by position, each within the collection.
pub proof fn lemma_kept_by_position<T, F: ListFilter<T>>(items: Seq<T>, filter: Option<F>)
    requires
        items.len() <= usize::MAX,
    ensures
        by_position(kept(items, filter)),
        forall|k: int| 0 <= k < kept(items, filter).len() ==> (#[trigger] kept(items, filter)[k]).0 < items.len(),
    decreases items.len(),
{
    if items.len() > 0 {
        let d = items.drop_last();
        lemma_kept_by_position(d, filter);
        let p = kept(d, filter);
        let k = kept(items, filter);
        let v = verdict_of(filter, items.last());
        if v.0 {
            assert(k == p.push(((items.len() - 1) as usize, v.1)));
            assert forall|i: int, j: int| 0 <= i < j < k.len() implies (#[trigger] k[i]).0 < (#[trigger] k[j]).0 by {
                assert(k[i] == p[i]);
                if j < p.len() {
                    assert(k[j] == p[j]);
                }
            }
            assert forall|i: int| 0 <= i < k.len() implies (#[trigger] k[i]).0 < items.len() by {
                if i < p.len() {
                    assert(k[i] == p[i]);
                }
            }
        }
    }
}

} // verus!


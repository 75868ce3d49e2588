use vstd::prelude::*;

use crate::list::ListItem;

verus! {

// The authoritative collection as a sequence of records keyed by their
// identifiers.

pub open spec fn has_id<T: ListItem>(s: Seq<T>, id: i64) -> bool {
    exists|i: int| 0 <= i < s.len() && #[trigger] s[i].key() == id
}

/// At most one record per identifier.
pub open spec fn unique_ids<T: ListItem>(s: Seq<T>) -> bool {
    forall|i: int, j: int| 0 <= i < s.len() && 0 <= j < s.len() && i != j ==> #[trigger] s[i].key() != #[trigger] s[j].key()
}

pub open spec fn is_first_index<T: ListItem>(s: Seq<T>, id: i64, i: int) -> bool {
    &&& 0 <= i < s.len()
    &&& s[i].key() == id
    &&& forall|j: int| 0 <= j < i ==> #[trigger] s[j].key() != id
}

/// Where the first record with identifier `id` stands, or -1.
pub open spec fn index_of<T: ListItem>(s: Seq<T>, id: i64) -> int {
    if has_id(s, id) {
        choose|i: int| is_first_index(s, id, i)
    } else {
        -1
    }
}

/// The collection without the record addressed by `id`.
pub open spec fn without_id<T: ListItem>(s: Seq<T>, id: i64) -> Seq<T> {
    if has_id(s, id) {
        s.remove(index_of(s, id))
    } else {
        s
    }
}

/// The collection with `x` in place of the record that shares its
/// identifier, or with `x` appended when there is none.
pub open spec fn upserted<T: ListItem>(s: Seq<T>, x: T) -> Seq<T> {
    if has_id(s, x.key()) {
        s.update(index_of(s, x.key()), x)
    } else {
        s.push(x)
    }
}

/// The collection with `x` in place of the record at `i`; another record
/// that already holds `x`'s identifier is dropped.
pub open spec fn updated_at<T: ListItem>(s: Seq<T>, i: int, x: T) -> Seq<T> {
    if s[i].key() != x.key() && has_id(s, x.key()) {
        s.update(i, x).remove(index_of(s, x.key()))
    } else {
        s.update(i, x)
    }
}

/// The records of `s` in order, each identifier kept at its first occurrence.
pub open spec fn first_of_each_id<T: ListItem>(s: Seq<T>) -> Seq<T>
    decreases s.len(),
{
    if s.len() == 0 {
        s
    } else {
        let d = first_of_each_id(s.drop_last());
        if has_id(d, s.last().key()) {
            d
        } else {
            d.push(s.last())
        }
    }
}

pub proof fn lemma_first_index_unique<T: ListItem>(s: Seq<T>, id: i64, i: int)
    requires
        is_first_index(s, id, i),
    ensures
        has_id(s, id),
        index_of(s, id) == i,
{
    assert(s[i].key() == id);
    let k = index_of(s, id);
    assert(is_first_index(s, id, k));
    if k < i {
        assert(s[k].key() != id);
    } else if i < k {
        assert(s[i].key() != id);
    }
}

pub proof fn lemma_index_of_found<T: ListItem>(s: Seq<T>, id: i64)
    requires
        has_id(s, id),
    ensures
        is_first_index(s, id, index_of(s, id)),
{
    let w = choose|i: int| 0 <= i < s.len() && #[trigger] s[i].key() == id;
    lemma_first_index_exists(s, id, w);
}

proof fn lemma_first_index_exists<T: ListItem>(s: Seq<T>, id: i64, w: int)
    requires
        0 <= w < s.len(),
        s[w].key() == id,
    ensures
        exists|i: int| is_first_index(s, id, i),
    decreases w,
{
    if forall|j: int| 0 <= j < w ==> #[trigger] s[j].key() != id {
        assert(is_first_index(s, id, w));
    } else {
        let j = choose|j: int| 0 <= j < w && #[trigger] s[j].key() == id;
        lemma_first_index_exists(s, id, j);
    }
}

pub proof fn lemma_without_id_unique<T: ListItem>(s: Seq<T>, id: i64)
    requires
        unique_ids(s),
    ensures
        unique_ids(without_id(s, id)),
        !has_id(without_id(s, id), id),
{
    if has_id(s, id) {
        lemma_index_of_found(s, id);
        let k = index_of(s, id);
        let r = s.remove(k);
        assert forall|i: int, j: int| 0 <= i < r.len() && 0 <= j < r.len() && i != j implies #[trigger] r[i].key() != #[trigger] r[j].key() by {
            let a = if i < k { i } else { i + 1 };
            let b = if j < k { j } else { j + 1 };
            assert(r[i] == s[a]);
            assert(r[j] == s[b]);
        }
        assert forall|i: int| 0 <= i < r.len() implies #[trigger] r[i].key() != id by {
            let a = if i < k { i } else { i + 1 };
            assert(r[i] == s[a]);
            assert(s[a].key() != s[k].key());
        }
    }
}

pub proof fn lemma_upserted_unique<T: ListItem>(s: Seq<T>, x: T)
    requires
        unique_ids(s),
    ensures
        unique_ids(upserted(s, x)),
        has_id(upserted(s, x), x.key()),
{
    let r = upserted(s, x);
    if has_id(s, x.key()) {
        lemma_index_of_found(s, x.key());
        let k = index_of(s, x.key());
        assert forall|i: int, j: int| 0 <= i < r.len() && 0 <= j < r.len() && i != j implies #[trigger] r[i].key() != #[trigger] r[j].key() by {
            if i != k && j != k {
                assert(r[i] == s[i] && r[j] == s[j]);
            } else if i == k {
                assert(s[j].key() != s[k].key());
            } else {
                assert(s[i].key() != s[k].key());
            }
        }
        assert(r[k].key() == x.key());
    } else {
        assert forall|i: int, j: int| 0 <= i < r.len() && 0 <= j < r.len() && i != j implies #[trigger] r[i].key() != #[trigger] r[j].key() by {
            if i < s.len() && j < s.len() {
                assert(r[i] == s[i] && r[j] == s[j]);
            } else if i == s.len() {
                assert(r[j] == s[j]);
            } else {
                assert(r[i] == s[i]);
            }
        }
        assert(r[s.len() as int].key() == x.key());
    }
}

pub proof fn lemma_first_of_each_id_unique<T: ListItem>(s: Seq<T>)
    ensures
        unique_ids(first_of_each_id(s)),
    decreases s.len(),
{
    if s.len() > 0 {
        let d = first_of_each_id(s.drop_last());
        lemma_first_of_each_id_unique(s.drop_last());
        if !has_id(d, s.last().key()) {
            let r = d.push(s.last());
            assert forall|i: int, j: int| 0 <= i < r.len() && 0 <= j < r.len() && i != j implies #[trigger] r[i].key() != #[trigger] r[j].key() by {
                if i < d.len() && j < d.len() {
                    assert(r[i] == d[i] && r[j] == d[j]);
                } else if i == d.len() {
                    assert(r[j] == d[j]);
                } else {
                    assert(r[i] == d[i]);
                }
            }
        }
    }
}

/// An upsert keeps every identifier that was present.
pub proof fn lemma_upserted_keeps<T: ListItem>(s: Seq<T>, x: T, id: i64)
    requires
        has_id(s, id),
    ensures
        has_id(upserted(s, x), id),
{
    let w = choose|i: int| 0 <= i < s.len() && #[trigger] s[i].key() == id;
    let r = upserted(s, x);
    if has_id(s, x.key()) {
        lemma_index_of_found(s, x.key());
        let k = index_of(s, x.key());
        if w == k {
            assert(r[k].key() == x.key());
        } else {
            assert(r[w] == s[w]);
        }
    } else {
        assert(r[w] == s[w]);
    }
}

pub proof fn lemma_updated_at_unique<T: ListItem>(s: Seq<T>, i: int, x: T)
    requires
        unique_ids(s),
        0 <= i < s.len(),
    ensures
        unique_ids(updated_at(s, i, x)),
        has_id(updated_at(s, i, x), x.key()),
{
    let u = s.update(i, x);
    if s[i].key() != x.key() && has_id(s, x.key()) {
        lemma_index_of_found(s, x.key());
        let k = index_of(s, x.key());
        assert(k != i);
        let r = u.remove(k);
        assert forall|a: int, b: int| 0 <= a < r.len() && 0 <= b < r.len() && a != b implies #[trigger] r[a].key() != #[trigger] r[b].key() by {
            let a2 = if a < k { a } else { a + 1 };
            let b2 = if b < k { b } else { b + 1 };
            assert(r[a] == u[a2] && r[b] == u[b2]);
            if a2 != i && b2 != i {
                assert(u[a2] == s[a2] && u[b2] == s[b2]);
            } else if a2 == i {
                assert(u[b2] == s[b2]);
                assert(s[b2].key() != s[k].key());
            } else {
                assert(u[a2] == s[a2]);
                assert(s[a2].key() != s[k].key());
            }
        }
        let p = if i < k { i } else { i - 1 };
        assert(r[p] == x);
    } else {
        assert forall|a: int, b: int| 0 <= a < u.len() && 0 <= b < u.len() && a != b implies #[trigger] u[a].key() != #[trigger] u[b].key() by {
            if a != i && b != i {
                assert(u[a] == s[a] && u[b] == s[b]);
            } else if a == i {
                assert(u[b] == s[b]);
                if s[i].key() == x.key() {
                    assert(s[b].key() != s[i].key());
                } else {
                    assert(!has_id(s, x.key()));
                    assert(s[b].key() != x.key());
                }
            } else {
                assert(u[a] == s[a]);
                if s[i].key() == x.key() {
                    assert(s[a].key() != s[i].key());
                } else {
                    assert(s[a].key() != x.key());
                }
            }
        }
        assert(u[i] == x);
    }
}

} // verus!


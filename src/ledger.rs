use vstd::prelude::*;

use crate::list::{ListRequest, PendingItemOperation};
use crate::pending::Pending;

verus! {

// The ledger of outstanding requests as a sequence of envelopes.

pub open spec fn has_request<R>(l: Seq<Pending<R>>, request_id: u128) -> bool {
    exists|i: int| 0 <= i < l.len() && #[trigger] l[i].request_id == request_id
}

/// No two ledger entries share a request identifier.
pub open spec fn unique_requests<R>(l: Seq<Pending<R>>) -> bool {
    forall|i: int, j: int|
        0 <= i < l.len() && 0 <= j < l.len() && i != j ==> #[trigger] l[i].request_id
            != #[trigger] l[j].request_id
}

pub open spec fn request_index<R>(l: Seq<Pending<R>>, request_id: u128) -> int {
    choose|i: int| 0 <= i < l.len() && #[trigger] l[i].request_id == request_id
}

/// The ledger once the operation `request_id` is resolved.
pub open spec fn resolved<R>(l: Seq<Pending<R>>, request_id: u128) -> Seq<Pending<R>> {
    if has_request(l, request_id) {
        l.remove(request_index(l, request_id))
    } else {
        l
    }
}

/// The pending operation shown on the record `id`: the first ledger entry
/// that updates or deletes it.
pub open spec fn pending_op<C, U>(l: Seq<Pending<ListRequest<C, U>>>, id: i64) -> PendingItemOperation
    decreases l.len(),
{
    if l.len() == 0 {
        PendingItemOperation::Nothing
    } else {
        match l[0].data {
            ListRequest::Update(pid, _) if pid == id => PendingItemOperation::PendingUpdate,
            ListRequest::Delete(pid) if pid == id => PendingItemOperation::PendingDelete,
            _ => pending_op(l.drop_first(), id),
        }
    }
}

pub proof fn lemma_request_index<R>(l: Seq<Pending<R>>, request_id: u128, i: int)
    requires
        unique_requests(l),
        0 <= i < l.len(),
        l[i].request_id == request_id,
    ensures
        has_request(l, request_id),
        request_index(l, request_id) == i,
{
    let k = request_index(l, request_id);
    assert(l[k].request_id == request_id);
}

pub proof fn lemma_resolved_unique<R>(l: Seq<Pending<R>>, request_id: u128)
    requires
        unique_requests(l),
    ensures
        unique_requests(resolved(l, request_id)),
        !has_request(resolved(l, request_id), request_id),
{
    if has_request(l, request_id) {
        let k = request_index(l, request_id);
        let r = l.remove(k);
        assert forall|i: int, j: int| 0 <= i < r.len() && 0 <= j < r.len() && i != j implies #[trigger] r[i].request_id != #[trigger] r[j].request_id by {
            let a = if i < k { i } else { i + 1 };
            let b = if j < k { j } else { j + 1 };
            assert(r[i] == l[a]);
            assert(r[j] == l[b]);
        }
        assert forall|i: int| 0 <= i < r.len() implies #[trigger] r[i].request_id != request_id by {
            let a = if i < k { i } else { i + 1 };
            assert(r[i] == l[a]);
            assert(l[a].request_id != l[k].request_id);
        }
    }
}

} // verus!

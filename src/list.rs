use vstd::prelude::*;

use crate::errors::Retryable;
use crate::form::{Form, Submit};
use crate::ledger::{
    has_request, lemma_request_index, lemma_resolved_unique, pending_op, request_index, resolved,
    unique_requests,
};
use crate::pending::{fresh_request_id, Pending};
use crate::records::{
    first_of_each_id, has_id, index_of, is_first_index, lemma_first_index_unique,
    lemma_first_of_each_id_unique, lemma_upserted_keeps, lemma_upserted_unique,
    lemma_updated_at_unique, lemma_without_id_unique, unique_ids, updated_at, upserted,
    without_id,
};
use crate::render::{
    entry_order, kept, lemma_kept_by_position, lemma_sort_by_score_ranked, placeholders, ranked,
    record_lines, score_order, verdict_of, RenderItem,
};
use crate::sort::{lemma_insert_at, lemma_sort_stable_multiset, sort_stable};

verus! {

/// A record that the synchronised collection can hold.
pub trait ListItem: Sized {
    type CreateForm: Form;
    type UpdateForm: Form;
    type Filter: ListFilter<Self>;
    type Sorter: ListSorter<Self>;

    /// The identifier that addresses this record.
    spec fn key(&self) -> i64;

    /// `form` is the update form filled in from this record, with nothing
    /// stored.
    spec fn fills(&self, form: Self::UpdateForm) -> bool;

    /// `f` is the filter a list starts with.
    spec fn fresh_filter(f: Self::Filter) -> bool;

    /// `s` is the sorter a list starts with.
    spec fn fresh_sorter(s: Self::Sorter) -> bool;

    fn id(&self) -> (r: i64)
        ensures
            r == self.key(),
    ;

    fn to_update_form(&self) -> (r: Self::UpdateForm)
        ensures
            self.fills(r),
    ;

    fn new_filter() -> (r: Self::Filter)
        ensures
            Self::fresh_filter(r),
    ;

    fn new_sorter() -> (r: Self::Sorter)
        ensures
            Self::fresh_sorter(r),
    ;
}

/// Decides which records are shown, and with which match score.
///
/// A score is carried as the bit pattern of a non-negative IEEE double in
/// `[0, 1]`; for such values the integer order of the bits is the numeric
/// order.
pub trait ListFilter<T>: Sized {
    /// `(include, score)` for one record.
    spec fn verdict(&self, item: &T) -> (bool, u64);

    fn filter(&self, item: &T) -> (r: (bool, u64))
        ensures
            r == self.verdict(item),
    ;
}

/// Orders the shown records.
pub trait ListSorter<T>: Sized {
    spec fn is_enabled(&self) -> bool;

    /// How `a` (with score `score_a`) stands relative to `b`.
    spec fn order(&self, a: &T, b: &T, score_a: u64, score_b: u64) -> core::cmp::Ordering;

    fn enabled(&self) -> (r: bool)
        ensures
            r == self.is_enabled(),
    ;

    fn sort(&self, a: &T, b: &T, score_a: u64, score_b: u64) -> (r: core::cmp::Ordering)
        ensures
            r == self.order(a, b, score_a, score_b),
    ;
}


pub type CreateOutput<T> = <<T as ListItem>::CreateForm as Form>::Output;

pub type UpdateOutput<T> = <<T as ListItem>::UpdateForm as Form>::Output;

pub type Request<T> = ListRequest<CreateOutput<T>, UpdateOutput<T>>;

/// A desired remote query or mutation.
#[derive(Debug, Clone)]
pub enum ListRequest<C, U> {
    FetchAll,
    Create(C),
    Update(i64, U),
    Delete(i64),
}

/// The outcome of a request, as the worker hands it back.
#[derive(Debug, Clone)]
pub enum ListMessage<T, E> {
    FetchedAll(Vec<T>),
    Created(T),
    Updated(i64, T),
    Deleted(i64),
    Error(E),
}

/// Which outstanding operation, if any, addresses a record.
#[derive(Debug, Clone, Copy, PartialEq, Eq, Default)]
pub enum PendingItemOperation {
    #[default]
    Nothing,
    PendingUpdate,
    PendingDelete,
}

/// What the owner must do after a decision: hand the ledger entry with
/// this identifier to the worker, which waits `delay_ms` before the remote
/// call.
#[derive(Debug, Clone, Copy, PartialEq, Eq)]
pub struct Dispatch {
    pub request_id: u128,
    pub delay_ms: u64,
}

/// The pause before a retried request is sent again.
pub const RETRY_DELAY_MS: u64 = 500;

/// The collection after a response has been applied to it.
pub open spec fn applied<T: ListItem, E>(items: Seq<T>, m: ListMessage<T, E>) -> Seq<T> {
    match m {
        ListMessage::FetchedAll(v) => first_of_each_id(v@),
        ListMessage::Created(x) => upserted(items, x),
        ListMessage::Updated(id, x) => if has_id(items, id) {
            updated_at(items, index_of(items, id), x)
        } else {
            items
        },
        ListMessage::Deleted(id) => without_id(items, id),
        ListMessage::Error(_) => items,
    }
}

/// The synchronised collection: the records confirmed by the service, the
/// ledger of outstanding requests, the edit session, and the forms, filter
/// and sorter that the user drives.
pub struct AsyncList<T: ListItem, E> {
    create_form: T::CreateForm,
    update_form: T::UpdateForm,
    filter: Option<T::Filter>,
    sorter: Option<T::Sorter>,
    editing: Option<i64>,
    items: Vec<T>,
    worker_ready: bool,
    pending_requests: Vec<Pending<Request<T>>>,
    last_error: Option<E>,
}

impl<T: ListItem, E: Retryable> AsyncList<T, E> {
    pub closed spec fn records(&self) -> Seq<T> {
        self.items@
    }

    pub closed spec fn ledger(&self) -> Seq<Pending<Request<T>>> {
        self.pending_requests@
    }

    pub closed spec fn edit_session(&self) -> Option<i64> {
        self.editing
    }

    pub closed spec fn ready(&self) -> bool {
        self.worker_ready
    }

    pub closed spec fn error_slot(&self) -> Option<E> {
        self.last_error
    }

    pub closed spec fn create_form_state(&self) -> T::CreateForm {
        self.create_form
    }

    pub closed spec fn update_form_state(&self) -> T::UpdateForm {
        self.update_form
    }

    pub closed spec fn filter_state(&self) -> Option<T::Filter> {
        self.filter
    }

    pub closed spec fn sorter_state(&self) -> Option<T::Sorter> {
        self.sorter
    }

    /// At most one record per identifier, one ledger entry per request,
    /// and nothing recorded before a worker is attached.
    pub closed spec fn wf(&self) -> bool {
        &&& unique_ids(self.items@)
        &&& unique_requests(self.pending_requests@)
        &&& !self.worker_ready ==> self.pending_requests@.len() == 0
    }

    /// The filter and sorter are created when asked for; everything else
    /// starts empty, and no worker is attached.
    pub fn new(filter: bool, sorter: bool) -> (r: Self)
        ensures
            r.wf(),
            r.records().len() == 0,
            r.ledger().len() == 0,
            r.edit_session() is None,
            !r.ready(),
            r.error_slot() is None,
            r.filter_state() is Some == filter,
            r.sorter_state() is Some == sorter,
            r.filter_state() matches Some(f) ==> T::fresh_filter(f),
            r.sorter_state() matches Some(s) ==> T::fresh_sorter(s),
            r.create_form_state().is_blank(),
            r.create_form_state().stored_error() is None,
            r.update_form_state().is_blank(),
            r.update_form_state().stored_error() is None,
    {
        AsyncList {
            create_form: T::CreateForm::blank(),
            update_form: T::UpdateForm::blank(),
            filter: if filter { Some(T::new_filter()) } else { None },
            sorter: if sorter { Some(T::new_sorter()) } else { None },
            editing: None,
            items: Vec::new(),
            worker_ready: false,
            pending_requests: Vec::new(),
            last_error: None,
        }
    }

    /// Where the record `id` stands in the collection.
    fn position(&self, id: i64) -> (r: Option<usize>)
        ensures
            r matches Some(i) ==> is_first_index(self.items@, id, i as int) && index_of(self.items@, id) == i,
            r is None <==> !has_id(self.items@, id),
    {
        let mut i: usize = 0;
        while i < self.items.len()
            invariant
                i <= self.items@.len(),
                forall|j: int| 0 <= j < i ==> #[trigger] self.items@[j].key() != id,
            decreases self.items@.len() - i,
        {
            if self.items[i].id() == id {
                proof {
                    lemma_first_index_unique(self.items@, id, i as int);
                }
                return Some(i);
            }
            i += 1;
        }
        None
    }

    /// The record `id`, if the collection holds one.
    pub fn get(&self, id: i64) -> (r: Option<&T>)
        ensures
            r matches Some(x) ==> has_id(self.records(), id) && *x == self.records()[index_of(self.records(), id)],
            r is None <==> !has_id(self.records(), id),
    {
        match self.position(id) {
            Some(i) => Some(&self.items[i]),
            None => None,
        }
    }

    /// Drops the record `id`, if there is one.
    fn remove(&mut self, id: i64)
        requires
            unique_ids(old(self).items@),
        ensures
            final(self).items@ == without_id(old(self).items@, id),
            unique_ids(final(self).items@),
            final(self).pending_requests@ == old(self).pending_requests@,
            final(self).editing == old(self).editing,
            final(self).worker_ready == old(self).worker_ready,
            final(self).last_error == old(self).last_error,
            final(self).create_form == old(self).create_form,
            final(self).update_form == old(self).update_form,
            final(self).filter == old(self).filter,
            final(self).sorter == old(self).sorter,
    {
        proof {
            lemma_without_id_unique(self.items@, id);
        }
        if let Some(i) = self.position(id) {
            self.items.remove(i);
        }
    }

    /// Puts `x` in place of the record with its identifier, or appends it.
    fn upsert(&mut self, x: T)
        requires
            unique_ids(old(self).items@),
        ensures
            final(self).items@ == upserted(old(self).items@, x),
            unique_ids(final(self).items@),
            final(self).pending_requests@ == old(self).pending_requests@,
            final(self).editing == old(self).editing,
            final(self).worker_ready == old(self).worker_ready,
            final(self).last_error == old(self).last_error,
            final(self).create_form == old(self).create_form,
            final(self).update_form == old(self).update_form,
            final(self).filter == old(self).filter,
            final(self).sorter == old(self).sorter,
    {
        proof {
            lemma_upserted_unique(self.items@, x);
        }
        let id = x.id();
        match self.position(id) {
            Some(i) => {
                self.items.set(i, x);
            },
            None => {
                self.items.push(x);
            },
        }
    }
    /// Puts `x` in place of the record at `i`, dropping any other record
    /// that already holds `x`'s identifier.
    fn update_at(&mut self, i: usize, x: T)
        requires
            unique_ids(old(self).items@),
            i < old(self).items@.len(),
        ensures
            final(self).items@ == updated_at(old(self).items@, i as int, x),
            unique_ids(final(self).items@),
            final(self).pending_requests@ == old(self).pending_requests@,
            final(self).editing == old(self).editing,
            final(self).worker_ready == old(self).worker_ready,
            final(self).last_error == old(self).last_error,
            final(self).create_form == old(self).create_form,
            final(self).update_form == old(self).update_form,
            final(self).filter == old(self).filter,
            final(self).sorter == old(self).sorter,
    {
        proof {
            lemma_updated_at_unique(self.items@, i as int, x);
        }
        let other = if self.items[i].id() != x.id() {
            self.position(x.id())
        } else {
            None
        };
        self.items.set(i, x);
        if let Some(j) = other {
            self.items.remove(j);
        }
    }

    /// Replaces the collection by `v`, each identifier kept at its first
    /// occurrence.
    fn replace_all(&mut self, v: Vec<T>)
        ensures
            final(self).items@ == first_of_each_id(v@),
            unique_ids(final(self).items@),
            final(self).pending_requests@ == old(self).pending_requests@,
            final(self).editing == old(self).editing,
            final(self).worker_ready == old(self).worker_ready,
            final(self).last_error == old(self).last_error,
            final(self).create_form == old(self).create_form,
            final(self).update_form == old(self).update_form,
            final(self).filter == old(self).filter,
            final(self).sorter == old(self).sorter,
    {
        let ghost all = v@;
        let n: usize = v.len();
        let mut rest = v;
        self.items = Vec::new();
        let mut k: usize = 0;
        proof {
            assert(all.take(0) =~= Seq::<T>::empty());
        }
        while rest.len() > 0
            invariant
                k + rest@.len() == all.len(),
                all.len() == n,
                rest@ == all.skip(k as int),
                self.items@ == first_of_each_id(all.take(k as int)),
                self.pending_requests@ == old(self).pending_requests@,
                self.editing == old(self).editing,
                self.worker_ready == old(self).worker_ready,
                self.last_error == old(self).last_error,
                self.create_form == old(self).create_form,
                self.update_form == old(self).update_form,
                self.filter == old(self).filter,
                self.sorter == old(self).sorter,
            decreases rest@.len(),
        {
            let x = rest.remove(0);
            proof {
                assert(all.take(k + 1).drop_last() =~= all.take(k as int));
                assert(x == all[k as int]);
                assert(rest@ =~= all.skip(k + 1));
            }
            if self.position(x.id()).is_none() {
                self.items.push(x);
            }
            k += 1;
        }
        proof {
            assert(all.take(k as int) =~= all);
            lemma_first_of_each_id_unique(all);
        }
    }

    /// Where the ledger entry of `request_id` stands.
    fn request_position(&self, request_id: u128) -> (r: Option<usize>)
        requires
            unique_requests(self.pending_requests@),
        ensures
            r matches Some(i) ==> i < self.pending_requests@.len() && request_index(self.pending_requests@, request_id) == i
                && self.pending_requests@[i as int].request_id == request_id,
            r is None <==> !has_request(self.pending_requests@, request_id),
    {
        let mut i: usize = 0;
        while i < self.pending_requests.len()
            invariant
                i <= self.pending_requests@.len(),
                unique_requests(self.pending_requests@),
                forall|j: int| 0 <= j < i ==> #[trigger] self.pending_requests@[j].request_id != request_id,
            decreases self.pending_requests@.len() - i,
        {
            if self.pending_requests[i].request_id == request_id {
                proof {
                    lemma_request_index(self.pending_requests@, request_id, i as int);
                }
                return Some(i);
            }
            i += 1;
        }
        None
    }

    /// The outstanding request `request_id`, for the worker to send.
    pub fn pending_request(&self, request_id: u128) -> (r: Option<&Pending<Request<T>>>)
        requires
            self.wf(),
        ensures
            r matches Some(p) ==> has_request(self.ledger(), request_id) && *p == self.ledger()[request_index(self.ledger(), request_id)],
            r is None <==> !has_request(self.ledger(), request_id),
    {
        match self.request_position(request_id) {
            Some(i) => Some(&self.pending_requests[i]),
            None => None,
        }
    }

    /// Removes the ledger entry of `request_id`, if there is one.
    fn resolve_pending_request(&mut self, request_id: u128)
        requires
            unique_requests(old(self).pending_requests@),
        ensures
            final(self).pending_requests@ == resolved(old(self).pending_requests@, request_id),
            unique_requests(final(self).pending_requests@),
            final(self).items@ == old(self).items@,
            final(self).editing == old(self).editing,
            final(self).worker_ready == old(self).worker_ready,
            final(self).last_error == old(self).last_error,
            final(self).create_form == old(self).create_form,
            final(self).update_form == old(self).update_form,
            final(self).filter == old(self).filter,
            final(self).sorter == old(self).sorter,
    {
        proof {
            lemma_resolved_unique(self.pending_requests@, request_id);
        }
        if let Some(i) = self.request_position(request_id) {
            self.pending_requests.remove(i);
        }
    }

    /// Records `request` under the identifier `request_id` and asks for it
    /// to be sent. Nothing happens before a worker is attached, nor when
    /// the identifier is already in use.
    pub fn send_request_with_id(&mut self, request: Request<T>, request_id: u128) -> (r: Option<Dispatch>)
        requires
            old(self).wf(),
        ensures
            final(self).wf(),
            if old(self).ready() && !has_request(old(self).ledger(), request_id) {
                &&& r == Some(Dispatch { request_id, delay_ms: 0 })
                &&& final(self).ledger() == old(self).ledger().push(Pending { request_id, data: request, delay_ms: 0 })
            } else {
                &&& r is None
                &&& final(self).ledger() == old(self).ledger()
            },
            final(self).records() == old(self).records(),
            final(self).edit_session() == old(self).edit_session(),
            final(self).ready() == old(self).ready(),
            final(self).error_slot() == old(self).error_slot(),
            final(self).create_form_state() == old(self).create_form_state(),
            final(self).update_form_state() == old(self).update_form_state(),
            final(self).filter_state() == old(self).filter_state(),
            final(self).sorter_state() == old(self).sorter_state(),
    {
        if !self.worker_ready || self.request_position(request_id).is_some() {
            return None;
        }
        let ghost l = self.pending_requests@;
        self.pending_requests.push(Pending::from_parts(request_id, request));
        proof {
            let m = self.pending_requests@;
            assert forall|i: int, j: int| 0 <= i < m.len() && 0 <= j < m.len() && i != j implies #[trigger] m[i].request_id != #[trigger] m[j].request_id by {
                if i < l.len() && j < l.len() {
                    assert(m[i] == l[i] && m[j] == l[j]);
                } else if i == l.len() {
                    assert(m[j] == l[j]);
                } else {
                    assert(m[i] == l[i]);
                }
            }
        }
        Some(Dispatch { request_id, delay_ms: 0 })
    }

    /// Records `request` under a freshly drawn identifier and asks for it
    /// to be sent. The request is dropped before a worker is attached, and
    /// in the (vanishingly rare) case that the drawn identifier is taken.
    pub fn send_request(&mut self, request: Request<T>) -> (r: Option<Dispatch>)
        requires
            old(self).wf(),
        ensures
            final(self).wf(),
            match r {
                Some(d) => {
                    &&& old(self).ready()
                    &&& d.delay_ms == 0
                    &&& !has_request(old(self).ledger(), d.request_id)
                    &&& final(self).ledger() == old(self).ledger().push(Pending { request_id: d.request_id, data: request, delay_ms: 0 })
                },
                None => final(self).ledger() == old(self).ledger(),
            },
            !old(self).ready() ==> r is None,
            old(self).ready() && old(self).ledger().len() == 0 ==> r is Some,
            final(self).records() == old(self).records(),
            final(self).edit_session() == old(self).edit_session(),
            final(self).ready() == old(self).ready(),
            final(self).error_slot() == old(self).error_slot(),
            final(self).create_form_state() == old(self).create_form_state(),
            final(self).update_form_state() == old(self).update_form_state(),
            final(self).filter_state() == old(self).filter_state(),
            final(self).sorter_state() == old(self).sorter_state(),
    {
        let request_id = fresh_request_id();
        self.send_request_with_id(request, request_id)
    }

    /// Asks for the outstanding request `request_id` to be sent again, under
    /// the same identifier and after the retry delay. The ledger is left as
    /// it is.
    pub fn retry_request(&self, request_id: u128) -> (r: Option<Dispatch>)
        requires
            self.wf(),
        ensures
            r == self.retry_request_spec(request_id),
    {
        if self.worker_ready && self.request_position(request_id).is_some() {
            Some(Dispatch { request_id, delay_ms: RETRY_DELAY_MS })
        } else {
            None
        }
    }

    /// Marks the worker as attached and issues the initial fetch.
    pub fn attach_worker(&mut self) -> (r: Option<Dispatch>)
        requires
            old(self).wf(),
        ensures
            final(self).wf(),
            final(self).ready(),
            match r {
                Some(d) => {
                    &&& d.delay_ms == 0
                    &&& !has_request(old(self).ledger(), d.request_id)
                    &&& final(self).ledger() == old(self).ledger().push(Pending { request_id: d.request_id, data: ListRequest::FetchAll, delay_ms: 0 })
                },
                None => final(self).ledger() == old(self).ledger(),
            },
            !old(self).ready() || old(self).ledger().len() == 0 ==> r is Some,
            final(self).records() == old(self).records(),
            final(self).edit_session() == old(self).edit_session(),
            final(self).error_slot() == old(self).error_slot(),
            final(self).create_form_state() == old(self).create_form_state(),
            final(self).update_form_state() == old(self).update_form_state(),
            final(self).filter_state() == old(self).filter_state(),
            final(self).sorter_state() == old(self).sorter_state(),
    {
        self.worker_ready = true;
        self.send_request(ListRequest::FetchAll)
    }

    /// Applies a response from the worker. A success changes the collection,
    /// resolves its request and clears the error slot. An error is always
    /// stored; a retryable one asks for its request to be sent again and
    /// keeps it in the ledger, any other one resolves it.
    pub fn handle_message(&mut self, message: Pending<ListMessage<T, E>>) -> (r: Option<Dispatch>)
        requires
            old(self).wf(),
        ensures
            final(self).wf(),
            final(self).records() == applied(old(self).records(), message.data),
            match message.data {
                ListMessage::Error(e) => {
                    &&& final(self).error_slot() == Some(e)
                    &&& if e.retryable() {
                        &&& final(self).ledger() == old(self).ledger()
                        &&& r == old(self).retry_request_spec(message.request_id)
                    } else {
                        &&& final(self).ledger() == resolved(old(self).ledger(), message.request_id)
                        &&& !has_request(final(self).ledger(), message.request_id)
                        &&& r is None
                    }
                },
                _ => {
                    &&& final(self).error_slot() is None
                    &&& final(self).ledger() == resolved(old(self).ledger(), message.request_id)
                    &&& r is None
                },
            },
            final(self).edit_session() == old(self).edit_session(),
            final(self).ready() == old(self).ready(),
            final(self).create_form_state() == old(self).create_form_state(),
            final(self).update_form_state() == old(self).update_form_state(),
            final(self).filter_state() == old(self).filter_state(),
            final(self).sorter_state() == old(self).sorter_state(),
    {
        let request_id = message.request_id;
        match message.data {
            ListMessage::FetchedAll(v) => {
                self.replace_all(v);
            },
            ListMessage::Created(x) => {
                self.upsert(x);
            },
            ListMessage::Updated(id, x) => {
                if let Some(i) = self.position(id) {
                    self.update_at(i, x);
                }
            },
            ListMessage::Deleted(id) => {
                self.remove(id);
            },
            ListMessage::Error(e) => {
                let r = if e.should_retry() {
                    self.retry_request(request_id)
                } else {
                    self.resolve_pending_request(request_id);
                    None
                };
                self.last_error = Some(e);
                return r;
            },
        }
        self.resolve_pending_request(request_id);
        self.last_error = None;
        None
    }

    /// What `retry_request` returns.
    pub open spec fn retry_request_spec(&self, request_id: u128) -> Option<Dispatch> {
        if self.ready() && has_request(self.ledger(), request_id) {
            Some(Dispatch { request_id, delay_ms: RETRY_DELAY_MS })
        } else {
            None
        }
    }

    /// How a call that may issue `request` leaves the ledger: on `Some(d)`
    /// the request was recorded under the fresh identifier `d.request_id`;
    /// on `None` nothing was recorded. Before a worker is attached nothing is
    /// ever recorded; with a worker and an empty ledger the request is always
    /// recorded (no drawn identifier can be taken).
    pub open spec fn issued(&self, after: &Self, request: Request<T>, r: Option<Dispatch>) -> bool {
        &&& match r {
            Some(d) => {
                &&& self.ready()
                &&& d.delay_ms == 0
                &&& !has_request(self.ledger(), d.request_id)
                &&& after.ledger() == self.ledger().push(Pending { request_id: d.request_id, data: request, delay_ms: 0 })
            },
            None => after.ledger() == self.ledger(),
        }
        &&& !self.ready() ==> r is None
        &&& self.ready() && self.ledger().len() == 0 ==> r is Some
    }

    /// The outstanding update or delete that addresses the record `id`.
    pub fn pending_item_operation(&self, id: i64) -> (r: PendingItemOperation)
        ensures
            r == pending_op(self.ledger(), id),
    {
        let ghost l = self.pending_requests@;
        let mut i: usize = 0;
        proof {
            assert(l.skip(0) =~= l);
        }
        while i < self.pending_requests.len()
            invariant
                i <= l.len(),
                l == self.pending_requests@,
                pending_op(l, id) == pending_op(l.skip(i as int), id),
            decreases l.len() - i,
        {
            let ghost rest = l.skip(i as int);
            proof {
                assert(rest[0] == l[i as int]);
                assert(rest.drop_first() =~= l.skip(i + 1));
            }
            match &self.pending_requests[i].data {
                ListRequest::Update(pid, _) => {
                    if *pid == id {
                        return PendingItemOperation::PendingUpdate;
                    }
                },
                ListRequest::Delete(pid) => {
                    if *pid == id {
                        return PendingItemOperation::PendingDelete;
                    }
                },
                _ => {},
            }
            i += 1;
        }
        PendingItemOperation::Nothing
    }

    /// Opens an edit session on the record `id`, with the update form filled
    /// in from it. Refused, with nothing changed, while another session is
    /// open or when there is no such record.
    pub fn begin_edit(&mut self, id: i64) -> (r: bool)
        requires
            old(self).wf(),
        ensures
            final(self).wf(),
            r == (old(self).edit_session() is None && has_id(old(self).records(), id)),
            r ==> final(self).edit_session() == Some(id),
            r ==> old(self).records()[index_of(old(self).records(), id)].fills(final(self).update_form_state()),
            !r ==> final(self).edit_session() == old(self).edit_session(),
            !r ==> final(self).update_form_state() == old(self).update_form_state(),
            final(self).records() == old(self).records(),
            final(self).ledger() == old(self).ledger(),
            final(self).ready() == old(self).ready(),
            final(self).error_slot() == old(self).error_slot(),
            final(self).create_form_state() == old(self).create_form_state(),
            final(self).filter_state() == old(self).filter_state(),
            final(self).sorter_state() == old(self).sorter_state(),
    {
        if self.editing.is_some() {
            return false;
        }
        match self.position(id) {
            Some(i) => {
                self.update_form = self.items[i].to_update_form();
                self.editing = Some(id);
                true
            },
            None => false,
        }
    }

    /// Closes the edit session without sending anything, and blanks the
    /// update form.
    pub fn cancel_edit(&mut self)
        requires
            old(self).wf(),
        ensures
            final(self).wf(),
            final(self).edit_session() is None,
            final(self).update_form_state().is_blank(),
            final(self).update_form_state().stored_error() is None,
            final(self).records() == old(self).records(),
            final(self).ledger() == old(self).ledger(),
            final(self).ready() == old(self).ready(),
            final(self).error_slot() == old(self).error_slot(),
            final(self).create_form_state() == old(self).create_form_state(),
            final(self).filter_state() == old(self).filter_state(),
            final(self).sorter_state() == old(self).sorter_state(),
    {
        self.editing = None;
        self.update_form.reset();
    }

    /// Acts on the update form of the record `id`: on cancel, closes the
    /// session; on submit, a valid form closes the session at once and sends
    /// the update, an invalid one keeps its rejection for display.
    pub fn handle_update_submit(&mut self, id: i64, submit: Submit) -> (r: Option<Dispatch>)
        requires
            old(self).wf(),
        ensures
            final(self).wf(),
            final(self).records() == old(self).records(),
            final(self).ready() == old(self).ready(),
            final(self).error_slot() == old(self).error_slot(),
            final(self).create_form_state() == old(self).create_form_state(),
            final(self).filter_state() == old(self).filter_state(),
            final(self).sorter_state() == old(self).sorter_state(),
            match submit {
                Submit::No => {
                    &&& r is None
                    &&& final(self).ledger() == old(self).ledger()
                    &&& final(self).edit_session() == old(self).edit_session()
                    &&& final(self).update_form_state() == old(self).update_form_state()
                },
                Submit::Cancel => {
                    &&& r is None
                    &&& final(self).ledger() == old(self).ledger()
                    &&& final(self).edit_session() is None
                    &&& final(self).update_form_state().is_blank()
                    &&& final(self).update_form_state().stored_error() is None
                },
                Submit::Yes => match old(self).update_form_state().outcome() {
                    Ok(output) => {
                        &&& old(self).issued(final(self), ListRequest::Update(id, output), r)
                        &&& final(self).edit_session() is None
                        &&& final(self).update_form_state().is_blank()
                        &&& final(self).update_form_state().stored_error() is None
                    },
                    Err(error) => {
                        &&& r is None
                        &&& final(self).ledger() == old(self).ledger()
                        &&& final(self).edit_session() == old(self).edit_session()
                        &&& final(self).update_form_state().stored_error() == Some(error)
                        &&& final(self).update_form_state().outcome() == old(self).update_form_state().outcome()
                    },
                },
            },
    {
        match submit {
            Submit::No => None,
            Submit::Cancel => {
                self.cancel_edit();
                None
            },
            Submit::Yes => {
                match self.update_form.submit() {
                    Some(output) => {
                        self.editing = None;
                        self.send_request(ListRequest::Update(id, output))
                    },
                    None => None,
                }
            },
        }
    }

    /// Submits the open edit session, as `handle_update_submit` does for
    /// its record; nothing happens when no session is open.
    pub fn submit_edit(&mut self) -> (r: Option<Dispatch>)
        requires
            old(self).wf(),
        ensures
            final(self).wf(),
            final(self).records() == old(self).records(),
            final(self).ready() == old(self).ready(),
            final(self).error_slot() == old(self).error_slot(),
            final(self).create_form_state() == old(self).create_form_state(),
            final(self).filter_state() == old(self).filter_state(),
            final(self).sorter_state() == old(self).sorter_state(),
            match old(self).edit_session() {
                None => {
                    &&& r is None
                    &&& final(self).ledger() == old(self).ledger()
                    &&& final(self).edit_session() is None
                    &&& final(self).update_form_state() == old(self).update_form_state()
                },
                Some(id) => match old(self).update_form_state().outcome() {
                    Ok(output) => {
                        &&& old(self).issued(final(self), ListRequest::Update(id, output), r)
                        &&& final(self).edit_session() is None
                        &&& final(self).update_form_state().is_blank()
                        &&& final(self).update_form_state().stored_error() is None
                    },
                    Err(error) => {
                        &&& r is None
                        &&& final(self).ledger() == old(self).ledger()
                        &&& final(self).edit_session() == Some(id)
                        &&& final(self).update_form_state().stored_error() == Some(error)
                        &&& final(self).update_form_state().outcome() == old(self).update_form_state().outcome()
                    },
                },
            },
    {
        match self.editing {
            Some(id) => self.handle_update_submit(id, Submit::Yes),
            None => None,
        }
    }

    /// Acts on the create form: on cancel, resets it; on submit, a valid
    /// form is blanked and its payload sent, an invalid one keeps its
    /// rejection for display.
    pub fn handle_create_submit(&mut self, submit: Submit) -> (r: Option<Dispatch>)
        requires
            old(self).wf(),
        ensures
            final(self).wf(),
            final(self).records() == old(self).records(),
            final(self).ready() == old(self).ready(),
            final(self).error_slot() == old(self).error_slot(),
            final(self).edit_session() == old(self).edit_session(),
            final(self).update_form_state() == old(self).update_form_state(),
            final(self).filter_state() == old(self).filter_state(),
            final(self).sorter_state() == old(self).sorter_state(),
            match submit {
                Submit::No => {
                    &&& r is None
                    &&& final(self).ledger() == old(self).ledger()
                    &&& final(self).create_form_state() == old(self).create_form_state()
                },
                Submit::Cancel => {
                    &&& r is None
                    &&& final(self).ledger() == old(self).ledger()
                    &&& final(self).create_form_state().is_blank()
                    &&& final(self).create_form_state().stored_error() is None
                },
                Submit::Yes => match old(self).create_form_state().outcome() {
                    Ok(output) => {
                        &&& old(self).issued(final(self), ListRequest::Create(output), r)
                        &&& final(self).create_form_state().is_blank()
                        &&& final(self).create_form_state().stored_error() is None
                    },
                    Err(error) => {
                        &&& r is None
                        &&& final(self).ledger() == old(self).ledger()
                        &&& final(self).create_form_state().stored_error() == Some(error)
                        &&& final(self).create_form_state().outcome() == old(self).create_form_state().outcome()
                    },
                },
            },
    {
        match submit {
            Submit::No => None,
            Submit::Cancel => {
                self.create_form.reset();
                None
            },
            Submit::Yes => {
                match self.create_form.submit() {
                    Some(output) => self.send_request(ListRequest::Create(output)),
                    None => None,
                }
            },
        }
    }

    /// What `render` yields: the kept records in sorted order, then the
    /// placeholders of the pending creates.
    pub open spec fn rendered(&self) -> Seq<RenderItem> {
        record_lines(
            sort_stable(kept(self.records(), self.filter_state()), entry_order(self.records(), self.sorter_state())),
            self.records(),
            self.edit_session(),
            self.ledger(),
        ) + placeholders(self.ledger())
    }

    /// The verdict of the filter on `item`; `(true, 0)` without a filter.
    pub fn filter(&self, item: &T) -> (r: (bool, u64))
        ensures
            r == verdict_of(self.filter_state(), *item),
    {
        match &self.filter {
            Some(f) => f.filter(item),
            None => (true, 0),
        }
    }

    fn kept_entries(&self) -> (r: Vec<(usize, u64)>)
        ensures
            r@ == kept(self.items@, self.filter),
            forall|k: int| 0 <= k < r@.len() ==> (#[trigger] r@[k]).0 < self.items@.len(),
    {
        let mut r: Vec<(usize, u64)> = Vec::new();
        let mut i: usize = 0;
        proof {
            assert(self.items@.take(0) =~= Seq::<T>::empty());
        }
        while i < self.items.len()
            invariant
                i <= self.items@.len(),
                r@ == kept(self.items@.take(i as int), self.filter),
                forall|k: int| 0 <= k < r@.len() ==> (#[trigger] r@[k]).0 < i,
            decreases self.items@.len() - i,
        {
            proof {
                assert(self.items@.take(i + 1).drop_last() =~= self.items@.take(i as int));
                assert(self.items@.take(i + 1).last() == self.items@[i as int]);
            }
            let v = self.filter(&self.items[i]);
            if v.0 {
                r.push((i, v.1));
            }
            i += 1;
        }
        proof {
            assert(self.items@.take(i as int) =~= self.items@);
        }
        r
    }

    fn compare_entries(&self, p: (usize, u64), q: (usize, u64)) -> (r: core::cmp::Ordering)
        requires
            p.0 < self.items@.len(),
            q.0 < self.items@.len(),
        ensures
            r == (entry_order(self.items@, self.sorter))(p, q),
    {
        match &self.sorter {
            Some(s) => {
                if s.enabled() {
                    return s.sort(&self.items[p.0], &self.items[q.0], p.1, q.1);
                }
            },
            None => {},
        }
        if p.1 > q.1 {
            core::cmp::Ordering::Less
        } else if p.1 < q.1 {
            core::cmp::Ordering::Greater
        } else {
            core::cmp::Ordering::Equal
        }
    }

    /// Stable insertion sort of the kept entries.
    fn sort_entries(&self, v: Vec<(usize, u64)>) -> (r: Vec<(usize, u64)>)
        requires
            forall|k: int| 0 <= k < v@.len() ==> (#[trigger] v@[k]).0 < self.items@.len(),
        ensures
            r@ == sort_stable(v@, entry_order(self.items@, self.sorter)),
            forall|k: int| 0 <= k < r@.len() ==> (#[trigger] r@[k]).0 < self.items@.len(),
    {
        let ghost cmp = entry_order(self.items@, self.sorter);
        let n = self.items.len();
        let mut r: Vec<(usize, u64)> = Vec::new();
        let mut i: usize = 0;
        proof {
            assert(v@.take(0) =~= Seq::<(usize, u64)>::empty());
        }
        while i < v.len()
            invariant
                i <= v@.len(),
                n == self.items@.len(),
                cmp == entry_order(self.items@, self.sorter),
                forall|k: int| 0 <= k < v@.len() ==> (#[trigger] v@[k]).0 < n,
                r@ == sort_stable(v@.take(i as int), cmp),
                forall|k: int| 0 <= k < r@.len() ==> (#[trigger] r@[k]).0 < n,
            decreases v@.len() - i,
        {
            let x = v[i];
            let mut j: usize = r.len();
            while j > 0 && matches!(self.compare_entries(r[j - 1], x), core::cmp::Ordering::Greater)
                invariant
                    j <= r@.len(),
                    x.0 < n,
                    n == self.items@.len(),
                    cmp == entry_order(self.items@, self.sorter),
                    forall|k: int| 0 <= k < r@.len() ==> (#[trigger] r@[k]).0 < n,
                    forall|k: int| j <= k < r@.len() ==> cmp(#[trigger] r@[k], x) == core::cmp::Ordering::Greater,
                decreases j,
            {
                j -= 1;
            }
            proof {
                lemma_insert_at(r@, x, cmp, j as int);
                assert(v@.take(i + 1).drop_last() =~= v@.take(i as int));
                assert(v@.take(i + 1).last() == x);
            }
            let ghost before = r@;
            r.insert(j, x);
            proof {
                assert forall|k: int| 0 <= k < r@.len() implies (#[trigger] r@[k]).0 < n by {
                    if k < j {
                        assert(r@[k] == before[k]);
                    } else if k > j {
                        assert(r@[k] == before[k - 1]);
                    }
                }
            }
            i += 1;
        }
        proof {
            assert(v@.take(i as int) =~= v@);
        }
        r
    }

    /// The render-ready list: the records that the filter keeps, sorted by
    /// the enabled sorter or else by descending score (ties in collection
    /// order), each with its edit and pending-operation annotations; then
    /// one placeholder per create request still outstanding.
    pub fn render(&self) -> (r: Vec<RenderItem>)
        ensures
            r@ == self.rendered(),
    {
        let entries = self.sort_entries(self.kept_entries());
        let ghost es = entries@;
        let mut r: Vec<RenderItem> = Vec::new();
        let mut i: usize = 0;
        while i < entries.len()
            invariant
                i <= es.len(),
                es == entries@,
                forall|k: int| 0 <= k < es.len() ==> (#[trigger] es[k]).0 < self.items@.len(),
                r@ == record_lines(es.take(i as int), self.items@, self.editing, self.pending_requests@),
            decreases es.len() - i,
        {
            let e = entries[i];
            let id = self.items[e.0].id();
            let editing = match self.editing {
                Some(eid) => eid == id,
                None => false,
            };
            let pending = self.pending_item_operation(id);
            r.push(RenderItem::Record { index: e.0, editing, pending });
            proof {
                assert(record_lines(es.take(i + 1), self.items@, self.editing, self.pending_requests@) =~= r@);
            }
            i += 1;
        }
        proof {
            assert(es.take(i as int) =~= es);
        }
        let ghost l = self.pending_requests@;
        let ghost head = r@;
        let mut j: usize = 0;
        proof {
            assert(l.take(0) =~= Seq::<Pending<Request<T>>>::empty());
            assert(head + placeholders(l.take(0)) =~= head);
        }
        while j < self.pending_requests.len()
            invariant
                j <= l.len(),
                l == self.pending_requests@,
                r@ == head + placeholders(l.take(j as int)),
            decreases l.len() - j,
        {
            proof {
                assert(l.take(j + 1).drop_last() =~= l.take(j as int));
                assert(l.take(j + 1).last() == l[j as int]);
            }
            if let ListRequest::Create(_) = &self.pending_requests[j].data {
                r.push(RenderItem::Placeholder { index: j });
                proof {
                    assert(head + placeholders(l.take(j + 1)) =~= r@);
                }
            }
            j += 1;
        }
        proof {
            assert(l.take(j as int) =~= l);
        }
        r
    }

    /// The confirmed records, in collection order.
    pub fn items(&self) -> (r: &Vec<T>)
        ensures
            r@ == self.records(),
    {
        &self.items
    }

    /// The outstanding requests, oldest first.
    pub fn pending_requests(&self) -> (r: &Vec<Pending<Request<T>>>)
        ensures
            r@ == self.ledger(),
    {
        &self.pending_requests
    }

    pub fn editing(&self) -> (r: Option<i64>)
        ensures
            r == self.edit_session(),
    {
        self.editing
    }

    pub fn is_ready(&self) -> (r: bool)
        ensures
            r == self.ready(),
    {
        self.worker_ready
    }

    /// The last error reported by the service, for display.
    pub fn last_error(&self) -> (r: &Option<E>)
        ensures
            *r == self.error_slot(),
    {
        &self.last_error
    }

    pub fn create_form(&self) -> (r: &T::CreateForm)
        ensures
            *r == self.create_form_state(),
    {
        &self.create_form
    }

    pub fn update_form(&self) -> (r: &T::UpdateForm)
        ensures
            *r == self.update_form_state(),
    {
        &self.update_form
    }

    pub fn create_form_mut(&mut self) -> (r: &mut T::CreateForm)
        ensures
            *r == old(self).create_form_state(),
            final(self).create_form_state() == *final(r),
            old(self).wf() ==> final(self).wf(),
            final(self).records() == old(self).records(),
            final(self).ledger() == old(self).ledger(),
            final(self).edit_session() == old(self).edit_session(),
            final(self).ready() == old(self).ready(),
            final(self).error_slot() == old(self).error_slot(),
            final(self).update_form_state() == old(self).update_form_state(),
            final(self).filter_state() == old(self).filter_state(),
            final(self).sorter_state() == old(self).sorter_state(),
    {
        &mut self.create_form
    }

    pub fn update_form_mut(&mut self) -> (r: &mut T::UpdateForm)
        ensures
            *r == old(self).update_form_state(),
            final(self).update_form_state() == *final(r),
            old(self).wf() ==> final(self).wf(),
            final(self).records() == old(self).records(),
            final(self).ledger() == old(self).ledger(),
            final(self).edit_session() == old(self).edit_session(),
            final(self).ready() == old(self).ready(),
            final(self).error_slot() == old(self).error_slot(),
            final(self).create_form_state() == old(self).create_form_state(),
            final(self).filter_state() == old(self).filter_state(),
            final(self).sorter_state() == old(self).sorter_state(),
    {
        &mut self.update_form
    }

    pub fn filter_mut(&mut self) -> (r: &mut Option<T::Filter>)
        ensures
            *r == old(self).filter_state(),
            final(self).filter_state() == *final(r),
            old(self).wf() ==> final(self).wf(),
            final(self).records() == old(self).records(),
            final(self).ledger() == old(self).ledger(),
            final(self).edit_session() == old(self).edit_session(),
            final(self).ready() == old(self).ready(),
            final(self).error_slot() == old(self).error_slot(),
            final(self).update_form_state() == old(self).update_form_state(),
            final(self).create_form_state() == old(self).create_form_state(),
            final(self).sorter_state() == old(self).sorter_state(),
    {
        &mut self.filter
    }

    pub fn sorter_mut(&mut self) -> (r: &mut Option<T::Sorter>)
        ensures
            *r == old(self).sorter_state(),
            final(self).sorter_state() == *final(r),
            old(self).wf() ==> final(self).wf(),
            final(self).records() == old(self).records(),
            final(self).ledger() == old(self).ledger(),
            final(self).edit_session() == old(self).edit_session(),
            final(self).ready() == old(self).ready(),
            final(self).error_slot() == old(self).error_slot(),
            final(self).update_form_state() == old(self).update_form_state(),
            final(self).filter_state() == old(self).filter_state(),
            final(self).create_form_state() == old(self).create_form_state(),
    {
        &mut self.sorter
    }

}


/// What the user asked of one displayed record.
pub enum ItemAction<T: ListItem> {
    Nothing,
    Edit,
    Update(UpdateOutput<T>),
    Delete,
}

impl<T: ListItem> ItemAction<T> {
    /// Carries out the action on the record `id`: editing opens a session,
    /// updating and deleting send the request.
    pub fn handle<E: Retryable>(self, state: &mut AsyncList<T, E>, id: i64) -> (r: Option<Dispatch>)
        requires
            old(state).wf(),
        ensures
            final(state).wf(),
            final(state).records() == old(state).records(),
            final(state).ready() == old(state).ready(),
            final(state).error_slot() == old(state).error_slot(),
            final(state).create_form_state() == old(state).create_form_state(),
            final(state).filter_state() == old(state).filter_state(),
            final(state).sorter_state() == old(state).sorter_state(),
            match self {
                ItemAction::Nothing => {
                    &&& r is None
                    &&& final(state).ledger() == old(state).ledger()
                    &&& final(state).edit_session() == old(state).edit_session()
                    &&& final(state).update_form_state() == old(state).update_form_state()
                },
                ItemAction::Edit => {
                    &&& r is None
                    &&& final(state).ledger() == old(state).ledger()
                    &&& if old(state).edit_session() is None && has_id(old(state).records(), id) {
                        &&& final(state).edit_session() == Some(id)
                        &&& old(state).records()[index_of(old(state).records(), id)].fills(final(state).update_form_state())
                    } else {
                        &&& final(state).edit_session() == old(state).edit_session()
                        &&& final(state).update_form_state() == old(state).update_form_state()
                    }
                },
                ItemAction::Update(output) => {
                    &&& old(state).issued(final(state), ListRequest::Update(id, output), r)
                    &&& final(state).edit_session() == old(state).edit_session()
                    &&& final(state).update_form_state() == old(state).update_form_state()
                },
                ItemAction::Delete => {
                    &&& old(state).issued(final(state), ListRequest::Delete(id), r)
                    &&& final(state).edit_session() == old(state).edit_session()
                    &&& final(state).update_form_state() == old(state).update_form_state()
                },
            },
    {
        match self {
            ItemAction::Nothing => None,
            ItemAction::Edit => {
                state.begin_edit(id);
                None
            },
            ItemAction::Update(output) => state.send_request(ListRequest::Update(id, output)),
            ItemAction::Delete => state.send_request(ListRequest::Delete(id)),
        }
    }
}

/// A filter that keeps every record with score 0.
#[derive(Debug, Default)]
pub struct NoFilter<T>(core::marker::PhantomData<T>);

impl<T> ListFilter<T> for NoFilter<T> {
    open spec fn verdict(&self, item: &T) -> (bool, u64) {
        (true, 0)
    }

    fn filter(&self, item: &T) -> (r: (bool, u64)) {
        (true, 0)
    }
}

/// A sorter that is always disabled and holds every pair equal.
#[derive(Debug, Default)]
pub struct NoSorter<T>(core::marker::PhantomData<T>);

impl<T> ListSorter<T> for NoSorter<T> {
    open spec fn is_enabled(&self) -> bool {
        false
    }

    open spec fn order(&self, a: &T, b: &T, score_a: u64, score_b: u64) -> core::cmp::Ordering {
        core::cmp::Ordering::Equal
    }

    fn enabled(&self) -> (r: bool) {
        false
    }

    fn sort(&self, a: &T, b: &T, score_a: u64, score_b: u64) -> (r: core::cmp::Ordering) {
        core::cmp::Ordering::Equal
    }
}

/// The collection never holds two records with one identifier.
pub proof fn lemma_records_unique<T: ListItem, E: Retryable>(list: &AsyncList<T, E>)
    requires
        list.wf(),
    ensures
        unique_ids(list.records()),
        unique_requests(list.ledger()),
        !list.ready() ==> list.ledger().len() == 0,
{
}

/// A retry reuses the identifier of the request it resends and leaves the
/// ledger as it was; resolving that request afterwards removes exactly one
/// ledger entry, the one with that identifier.
pub proof fn lemma_retry_then_resolve<T: ListItem, E: Retryable>(list: &AsyncList<T, E>, request_id: u128)
    requires
        list.wf(),
        has_request(list.ledger(), request_id),
    ensures
        list.retry_request_spec(request_id) matches Some(d) ==> d.request_id == request_id,
        list.ready() ==> list.retry_request_spec(request_id) is Some,
        ({
            let l = list.ledger();
            let i = request_index(l, request_id);
            &&& 0 <= i < l.len()
            &&& l[i].request_id == request_id
            &&& resolved(l, request_id) == l.remove(i)
            &&& resolved(l, request_id).len() == l.len() - 1
            &&& !has_request(resolved(l, request_id), request_id)
        }),
{
    lemma_resolved_unique(list.ledger(), request_id);
}

/// Rendering depends on nothing but the collection, the filter, the sorter,
/// the ledger and the edit session: equal inputs give equal output.
pub proof fn lemma_render_deterministic<T: ListItem, E: Retryable>(a: &AsyncList<T, E>, b: &AsyncList<T, E>)
    requires
        a.records() == b.records(),
        a.filter_state() == b.filter_state(),
        a.sorter_state() == b.sorter_state(),
        a.ledger() == b.ledger(),
        a.edit_session() == b.edit_session(),
    ensures
        a.rendered() == b.rendered(),
{
}

/// Stable sorting entries of equal score by score leaves them in place.
proof fn lemma_equal_scores_stay<T, S: ListSorter<T>>(s: Seq<(usize, u64)>, items: Seq<T>, sorter: Option<S>)
    requires
        sorter matches Some(x) ==> !x.is_enabled(),
        forall|k: int| 0 <= k < s.len() ==> (#[trigger] s[k]).1 == 0,
    ensures
        sort_stable(s, entry_order(items, sorter)) == s,
    decreases s.len(),
{
    if s.len() > 0 {
        let d = s.drop_last();
        lemma_equal_scores_stay(d, items, sorter);
        let cmp = entry_order(items, sorter);
        if d.len() > 0 {
            assert(cmp(d.last(), s.last()) == core::cmp::Ordering::Equal);
        }
        assert(d.push(s.last()) =~= s);
    }
}

/// When the filter keeps every record with score 0 (or there is none),
/// every record is kept, in order, with score 0.
proof fn lemma_kept_all<T, F: ListFilter<T>>(items: Seq<T>, filter: Option<F>)
    requires
        forall|x: T| #[trigger] verdict_of(filter, x) == (true, 0u64),
    ensures
        kept(items, filter) == Seq::new(items.len(), |i: int| (i as usize, 0u64)),
    decreases items.len(),
{
    if items.len() > 0 {
        lemma_kept_all(items.drop_last(), filter);
        assert(kept(items, filter) =~= Seq::new(items.len(), |i: int| (i as usize, 0u64)));
    }
}

/// The line of the record at position `i`, with its annotations.
pub open spec fn record_line<T: ListItem, E: Retryable>(list: &AsyncList<T, E>, i: int) -> RenderItem {
    let id = list.records()[i].key();
    RenderItem::Record {
        index: i as usize,
        editing: list.edit_session() == Some(id),
        pending: pending_op(list.ledger(), id),
    }
}

/// With the filter and the sorter both inactive, the records are rendered
/// in the order of the collection.
pub proof fn lemma_unfiltered_unsorted_in_order<T: ListItem, E: Retryable>(list: &AsyncList<T, E>)
    requires
        list.records().len() <= usize::MAX,
        forall|x: T| #[trigger] verdict_of(list.filter_state(), x) == (true, 0u64),
        list.sorter_state() matches Some(s) ==> !s.is_enabled(),
    ensures
        list.rendered().len() == list.records().len() + placeholders(list.ledger()).len(),
        forall|i: int| 0 <= i < list.records().len() ==> (#[trigger] list.rendered()[i]) == record_line(list, i),
{
    let items = list.records();
    lemma_kept_all(items, list.filter_state());
    let k = kept(items, list.filter_state());
    lemma_equal_scores_stay(k, items, list.sorter_state());
    let lines = record_lines(k, items, list.edit_session(), list.ledger());
    assert forall|i: int| 0 <= i < items.len() implies (#[trigger] list.rendered()[i]) == record_line(list, i) by {
        assert(sort_stable(k, entry_order(items, list.sorter_state())) == k);
        assert(lines.len() == items.len());
        assert(list.rendered() == lines + placeholders(list.ledger()));
        assert(list.rendered()[i] == lines[i]);
        assert(k[i] == (i as usize, 0u64));
        assert((i as usize) as int == i);
    }
}

/// Successful creates land whatever order their responses arrive in: both
/// records are in the collection either way.
pub proof fn lemma_creates_in_any_order<T: ListItem, E>(items: Seq<T>, a: T, b: T)
    requires
        unique_ids(items),
    ensures
        ({
            let ab = applied(applied(items, ListMessage::<T, E>::Created(a)), ListMessage::<T, E>::Created(b));
            let ba = applied(applied(items, ListMessage::<T, E>::Created(b)), ListMessage::<T, E>::Created(a));
            &&& unique_ids(ab) && has_id(ab, a.key()) && has_id(ab, b.key())
            &&& unique_ids(ba) && has_id(ba, a.key()) && has_id(ba, b.key())
        }),
{
    lemma_upserted_unique(items, a);
    lemma_upserted_unique(upserted(items, a), b);
    lemma_upserted_keeps(upserted(items, a), b, a.key());
    lemma_upserted_unique(items, b);
    lemma_upserted_unique(upserted(items, b), a);
    lemma_upserted_keeps(upserted(items, b), a, b.key());
}

/// Without an enabled sorter, the kept records are shown best score first,
/// records of equal score in collection order, and none is lost or repeated.
pub proof fn lemma_fallback_order<T: ListItem, E: Retryable>(list: &AsyncList<T, E>)
    requires
        list.records().len() <= usize::MAX,
        list.sorter_state() matches Some(s) ==> !s.is_enabled(),
    ensures
        ({
            let k = kept(list.records(), list.filter_state());
            let o = sort_stable(k, entry_order(list.records(), list.sorter_state()));
            &&& o.to_multiset() == k.to_multiset()
            &&& ranked(o)
        }),
{
    let items = list.records();
    let k = kept(items, list.filter_state());
    lemma_kept_by_position(items, list.filter_state());
    let cmp = entry_order(items, list.sorter_state());
    assert forall|p: (usize, u64), q: (usize, u64)| #[trigger] cmp(p, q) == score_order(p.1, q.1) by {}
    lemma_sort_by_score_ranked(k, cmp);
    lemma_sort_stable_multiset(k, cmp);
}

} // verus!


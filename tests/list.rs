use kreqo::errors::{ApiError, ServerError};
use kreqo::form::{Form, Submit};
use kreqo::list::{
    AsyncList, Dispatch, ItemAction, ListMessage, ListRequest, PendingItemOperation, RETRY_DELAY_MS,
};
use kreqo::render::RenderItem;
use kreqo::pending::Pending;
use kreqo::user_list::{UserSortBy, UserSortOption, UserSorter};
use kreqo::users::{Timestamp, User};

type Users = AsyncList<User, ServerError>;

fn user(id: i64, name: &str) -> User {
    User {
        id,
        anonymous: false,
        username: name.to_string(),
        created_at: None,
        permissions: Vec::new(),
    }
}

fn respond(list: &mut Users, d: Dispatch, m: ListMessage<User, ServerError>) -> Option<Dispatch> {
    list.handle_message(Pending::from_parts(d.request_id, m))
}

/// A list with a worker attached and `records` fetched.
fn loaded(filter: bool, sorter: bool, records: Vec<User>) -> Users {
    let mut list = Users::new(filter, sorter);
    let d = list.attach_worker().unwrap();
    assert_eq!(respond(&mut list, d, ListMessage::FetchedAll(records)), None);
    assert!(list.pending_requests().is_empty());
    list
}

fn ids(list: &Users) -> Vec<i64> {
    list.items().iter().map(|u| u.id).collect()
}

fn rendered_ids(list: &Users) -> Vec<i64> {
    list.render()
        .iter()
        .filter_map(|r| match r {
            RenderItem::Record { index, .. } => Some(list.items()[*index].id),
            RenderItem::Placeholder { .. } => None,
        })
        .collect()
}

fn retryable() -> ServerError {
    ServerError::API(ApiError::Request("connection refused".to_string()))
}

#[test]
fn render_keeps_insertion_order_without_filter_or_sorter() {
    let list = loaded(false, false, vec![user(1, "Bea"), user(2, "Al")]);
    let r = list.render();
    assert_eq!(
        r,
        vec![
            RenderItem::Record { index: 0, editing: false, pending: PendingItemOperation::Nothing },
            RenderItem::Record { index: 1, editing: false, pending: PendingItemOperation::Nothing },
        ]
    );
    assert_eq!(rendered_ids(&list), vec![1, 2]);
}

#[test]
fn retryable_delete_error_keeps_the_entry_until_deleted() {
    let mut list = loaded(false, false, vec![user(1, "Bea"), user(2, "Al")]);
    let d = ItemAction::<User>::Delete.handle(&mut list, 1).unwrap();
    assert_eq!(d.delay_ms, 0);
    let retry = respond(&mut list, d, ListMessage::Error(retryable()));
    assert_eq!(retry, Some(Dispatch { request_id: d.request_id, delay_ms: RETRY_DELAY_MS }));
    assert_eq!(list.pending_requests().len(), 1);
    assert!(matches!(list.pending_requests()[0].data, ListRequest::Delete(1)));
    assert_eq!(list.pending_requests()[0].request_id, d.request_id);
    assert_eq!(list.pending_item_operation(1), PendingItemOperation::PendingDelete);
    assert_eq!(list.last_error(), &Some(retryable()));
    assert_eq!(respond(&mut list, d, ListMessage::Deleted(1)), None);
    assert!(list.pending_requests().is_empty());
    assert_eq!(ids(&list), vec![2]);
    assert_eq!(list.last_error(), &None);
}

#[test]
fn pending_create_renders_one_placeholder_after_records() {
    let mut list = loaded(false, false, vec![user(1, "Bea"), user(2, "Al")]);
    let d = list
        .send_request(ListRequest::Create(("Cy".to_string(), "secret".to_string())))
        .unwrap();
    let r = list.render();
    assert_eq!(r.len(), 3);
    assert!(matches!(r[0], RenderItem::Record { index: 0, .. }));
    assert!(matches!(r[1], RenderItem::Record { index: 1, .. }));
    assert_eq!(r[2], RenderItem::Placeholder { index: 0 });
    let entry = list.pending_request(d.request_id).unwrap();
    match &entry.data {
        ListRequest::Create((name, _)) => assert_eq!(name, "Cy"),
        _ => panic!("expected a create request"),
    }
}

#[test]
fn creates_answered_out_of_order_both_land() {
    let mut list = loaded(false, false, Vec::new());
    let a = list.send_request(ListRequest::Create(("A".to_string(), "pa".to_string()))).unwrap();
    let b = list.send_request(ListRequest::Create(("B".to_string(), "pb".to_string()))).unwrap();
    assert_ne!(a.request_id, b.request_id);
    assert_eq!(respond(&mut list, b, ListMessage::Created(user(11, "B"))), None);
    assert_eq!(list.pending_requests().len(), 1);
    assert_eq!(respond(&mut list, a, ListMessage::Created(user(10, "A"))), None);
    assert!(list.pending_requests().is_empty());
    let mut got = ids(&list);
    got.sort();
    assert_eq!(got, vec![10, 11]);
}

#[test]
fn non_retryable_error_abandons_the_request() {
    let mut list = loaded(false, false, vec![user(3, "Cy")]);
    let d = list.send_request(ListRequest::Update(3, "Cyd".to_string())).unwrap();
    assert_eq!(list.pending_item_operation(3), PendingItemOperation::PendingUpdate);
    assert_eq!(respond(&mut list, d, ListMessage::Error(ServerError::Unauthorized)), None);
    assert!(list.pending_requests().is_empty());
    assert_eq!(list.last_error(), &Some(ServerError::Unauthorized));
    assert_eq!(list.pending_item_operation(3), PendingItemOperation::Nothing);
    assert_eq!(list.items()[0].username, "Cy");
}

#[test]
fn retry_reuses_the_identifier_and_resolution_removes_one_entry() {
    let mut list = loaded(false, false, vec![user(1, "Bea")]);
    let first = list.send_request(ListRequest::Delete(1)).unwrap();
    let second = list.send_request(ListRequest::FetchAll).unwrap();
    assert_eq!(
        list.retry_request(first.request_id),
        Some(Dispatch { request_id: first.request_id, delay_ms: RETRY_DELAY_MS })
    );
    assert_eq!(list.pending_requests().len(), 2);
    assert_eq!(list.retry_request(12345), None);
    respond(&mut list, first, ListMessage::Deleted(1));
    assert_eq!(list.pending_requests().len(), 1);
    assert_eq!(list.pending_requests()[0].request_id, second.request_id);
    assert!(list.pending_request(first.request_id).is_none());
}

#[test]
fn requests_before_the_worker_is_attached_are_dropped() {
    let mut list = Users::new(false, false);
    assert!(!list.is_ready());
    assert_eq!(list.send_request(ListRequest::Delete(1)), None);
    assert!(list.pending_requests().is_empty());
    assert_eq!(list.retry_request(1), None);
    let d = list.attach_worker().unwrap();
    assert!(list.is_ready());
    assert!(matches!(list.pending_request(d.request_id).unwrap().data, ListRequest::FetchAll));
}

#[test]
fn identifier_already_in_the_ledger_is_refused() {
    let mut list = loaded(false, false, Vec::new());
    let d = list.send_request_with_id(ListRequest::Delete(4), 77).unwrap();
    assert_eq!(d, Dispatch { request_id: 77, delay_ms: 0 });
    assert_eq!(list.send_request_with_id(ListRequest::Delete(5), 77), None);
    assert_eq!(list.pending_requests().len(), 1);
}

#[test]
fn begin_edit_is_refused_while_a_session_is_open() {
    let mut list = loaded(false, false, vec![user(1, "Bea"), user(2, "Al")]);
    assert!(!list.begin_edit(9));
    assert_eq!(list.editing(), None);
    assert!(list.begin_edit(1));
    assert_eq!(list.editing(), Some(1));
    assert_eq!(list.update_form().username(), "Bea");
    assert!(!list.begin_edit(2));
    assert_eq!(list.editing(), Some(1));
    assert_eq!(list.update_form().username(), "Bea");
    let r = list.render();
    assert_eq!(r[0], RenderItem::Record { index: 0, editing: true, pending: PendingItemOperation::Nothing });
    list.cancel_edit();
    assert_eq!(list.editing(), None);
    assert_eq!(list.update_form().username(), "");
    assert!(list.pending_requests().is_empty());
}

#[test]
fn submitting_an_edit_closes_the_session_and_sends_the_update() {
    let mut list = loaded(false, false, vec![user(1, "Bea")]);
    assert!(list.begin_edit(1));
    list.update_form_mut().set_username("Beatrix".to_string());
    let d = list.submit_edit().unwrap();
    assert_eq!(list.editing(), None);
    assert_eq!(list.update_form().username(), "");
    match &list.pending_request(d.request_id).unwrap().data {
        ListRequest::Update(1, name) => assert_eq!(name, "Beatrix"),
        _ => panic!("expected an update of record 1"),
    }
    assert_eq!(respond(&mut list, d, ListMessage::Updated(1, user(1, "Beatrix"))), None);
    assert_eq!(list.items()[0].username, "Beatrix");
}

#[test]
fn an_invalid_edit_stays_open_with_its_error() {
    let mut list = loaded(false, false, vec![user(1, "Bea")]);
    assert!(list.begin_edit(1));
    list.update_form_mut().set_username(String::new());
    assert_eq!(list.handle_update_submit(1, Submit::Yes), None);
    assert_eq!(list.editing(), Some(1));
    assert_eq!(list.update_form().last_error(), &Some(kreqo::auth_forms::UserError::EmptyUsername));
    assert!(list.pending_requests().is_empty());
    assert_eq!(list.handle_update_submit(1, Submit::No), None);
    assert_eq!(list.editing(), Some(1));
    assert_eq!(list.handle_update_submit(1, Submit::Cancel), None);
    assert_eq!(list.editing(), None);
}

#[test]
fn fetched_duplicates_keep_the_first_record() {
    let list = loaded(false, false, vec![user(1, "Bea"), user(2, "Al"), user(1, "Other")]);
    assert_eq!(ids(&list), vec![1, 2]);
    assert_eq!(list.items()[0].username, "Bea");
}

#[test]
fn created_with_a_known_identifier_replaces_the_record() {
    let mut list = loaded(false, false, vec![user(1, "Bea"), user(2, "Al")]);
    let d = list.send_request(ListRequest::Create(("X".to_string(), "p".to_string()))).unwrap();
    respond(&mut list, d, ListMessage::Created(user(1, "New")));
    assert_eq!(ids(&list), vec![1, 2]);
    assert_eq!(list.items()[0].username, "New");
}

#[test]
fn update_changing_the_identifier_keeps_them_unique() {
    let mut list = loaded(false, false, vec![user(1, "Bea"), user(2, "Al")]);
    let d = list.send_request(ListRequest::Update(1, "Al2".to_string())).unwrap();
    respond(&mut list, d, ListMessage::Updated(1, user(2, "Al2")));
    assert_eq!(ids(&list), vec![2]);
    assert_eq!(list.items()[0].username, "Al2");
    let d = list.send_request(ListRequest::Update(5, "nobody".to_string())).unwrap();
    respond(&mut list, d, ListMessage::Updated(5, user(5, "nobody")));
    assert_eq!(ids(&list), vec![2]);
}

#[test]
fn render_is_deterministic() {
    let mut list = loaded(true, true, vec![user(1, "Bea"), user(2, "Al"), user(3, "Albert")]);
    list.filter_mut().as_mut().unwrap().set_search("Al".to_string());
    *list.sorter_mut() = Some(UserSorter {
        enabled: true,
        sort_by: UserSortBy::Username,
        option: UserSortOption::Descending,
    });
    let first = list.render();
    let second = list.render();
    assert_eq!(first, second);
}

#[test]
fn sorter_orders_by_lowercased_username() {
    let mut list = loaded(false, true, vec![user(1, "Bob"), user(2, "alice"), user(3, "Carl")]);
    *list.sorter_mut() = Some(UserSorter {
        enabled: true,
        sort_by: UserSortBy::Username,
        option: UserSortOption::Ascending,
    });
    assert_eq!(rendered_ids(&list), vec![2, 1, 3]);
    list.sorter_mut().as_mut().unwrap().option = UserSortOption::Descending;
    assert_eq!(rendered_ids(&list), vec![3, 1, 2]);
}

#[test]
fn sorter_orders_by_id_and_by_signup_date() {
    let mut a = user(3, "a");
    a.created_at = Some(Timestamp { seconds: 100, nanos: 5 });
    let mut b = user(1, "b");
    b.created_at = Some(Timestamp { seconds: 100, nanos: 2 });
    let c = user(2, "c");
    let mut list = loaded(false, true, vec![a, b, c]);
    *list.sorter_mut() = Some(UserSorter {
        enabled: true,
        sort_by: UserSortBy::Id,
        option: UserSortOption::Ascending,
    });
    assert_eq!(rendered_ids(&list), vec![1, 2, 3]);
    list.sorter_mut().as_mut().unwrap().sort_by = UserSortBy::CreatedAt;
    assert_eq!(rendered_ids(&list), vec![2, 1, 3]);
    list.sorter_mut().as_mut().unwrap().enabled = false;
    assert_eq!(rendered_ids(&list), vec![3, 1, 2]);
}

#[test]
fn filter_keeps_similar_names_best_first() {
    let mut list = loaded(true, false, vec![user(1, "Bea"), user(2, "Albert"), user(3, "Al")]);
    assert_eq!(rendered_ids(&list), vec![1, 2, 3]);
    list.filter_mut().as_mut().unwrap().set_search("Al".to_string());
    assert_eq!(rendered_ids(&list), vec![3, 2]);
}

#[test]
fn create_form_submission_sends_a_create() {
    let mut list = loaded(false, false, Vec::new());
    let form = list.create_form_mut();
    form.set_username("dora".to_string());
    form.set_password("Xk9#mQ2!vL7@pR4z".to_string());
    form.set_password_confirmation("Xk9#mQ2!vL7@pR4z".to_string());
    let d = list.handle_create_submit(Submit::Yes).unwrap();
    assert!(list.create_form().last_error().is_none());
    match &list.pending_request(d.request_id).unwrap().data {
        ListRequest::Create((name, password)) => {
            assert_eq!(name, "dora");
            assert_eq!(password, "Xk9#mQ2!vL7@pR4z");
        }
        _ => panic!("expected a create request"),
    }
    assert_eq!(list.render().last(), Some(&RenderItem::Placeholder { index: 0 }));
    assert_eq!(list.handle_create_submit(Submit::Yes), None);
    assert_eq!(
        list.create_form().last_error(),
        &Some(kreqo::auth_forms::UserError::EmptyUsername)
    );
    assert_eq!(list.handle_create_submit(Submit::Cancel), None);
    assert!(list.create_form().last_error().is_none());
}

#[test]
fn item_actions_edit_and_update() {
    let mut list = loaded(false, false, vec![user(4, "Dee")]);
    assert_eq!(ItemAction::<User>::Nothing.handle(&mut list, 4), None);
    assert_eq!(ItemAction::<User>::Edit.handle(&mut list, 4), None);
    assert_eq!(list.editing(), Some(4));
    let d = ItemAction::<User>::Update("Dean".to_string()).handle(&mut list, 4).unwrap();
    assert!(matches!(list.pending_request(d.request_id).unwrap().data, ListRequest::Update(4, _)));
    assert_eq!(list.render()[0], RenderItem::Record {
        index: 0,
        editing: true,
        pending: PendingItemOperation::PendingUpdate,
    });
}

#[test]
fn update_to_a_new_identifier_stays_in_place() {
    let mut list = loaded(false, false, vec![user(1, "Bea"), user(2, "Al")]);
    let d = list.send_request(ListRequest::Update(1, "Cy".to_string())).unwrap();
    respond(&mut list, d, ListMessage::Updated(1, user(3, "Cy")));
    assert_eq!(ids(&list), vec![3, 2]);
    assert_eq!(list.items()[0].username, "Cy");
}

#[test]
fn fresh_filter_and_sorter_keep_insertion_order() {
    let list = loaded(true, true, vec![user(1, "Bea"), user(2, "Al")]);
    assert_eq!(rendered_ids(&list), vec![1, 2]);
    assert!(list.create_form().last_error().is_none());
    assert!(list.update_form().last_error().is_none());
}

#[test]
fn nothing_is_recorded_before_the_worker_and_fetch_always_lands() {
    let mut list = Users::new(true, true);
    assert_eq!(list.send_request(ListRequest::FetchAll), None);
    let d = list.attach_worker().unwrap();
    assert_eq!(list.pending_requests().len(), 1);
    assert_eq!(list.pending_requests()[0].request_id, d.request_id);
}

use kreqo::auth_forms::{signup_verdict, AuthRequest, UserError, UserLoginForm, UserSignupForm};
use kreqo::errors::{ApiError, Retryable, ServerError};
use kreqo::form::{Form, Submit};
use kreqo::list::{ListFilter, ListSorter, NoFilter, NoSorter};
use kreqo::pending::Pending;
use kreqo::user_list::{
    compare_text, CreateUserForm, UpdateUserForm, UserFilter, UserSortBy, UserSortOption,
    UserSorter, SCORE_HALF, SCORE_ONE,
};
use kreqo::users::{assemble_users, SqlUser, SqlUserPermission, User, UserPermission, UserRole};
use std::cmp::Ordering;

fn tokens(perms: &[UserPermission]) -> Vec<&str> {
    perms.iter().map(|p| p.token.as_str()).collect()
}

#[test]
fn role_permissions() {
    assert!(UserRole::Guest.permissions().is_empty());
    assert_eq!(
        tokens(&UserRole::Normal.permissions()),
        vec!["Users::View", "CurrentUser::Manage"]
    );
    assert_eq!(tokens(&UserRole::Admin.permissions()), vec!["Users::View", "Users::Manage"]);
    assert_eq!(UserRole::default(), UserRole::Guest);
    assert_eq!(UserPermission::new("Users::View").token, "Users::View");
}

#[test]
fn default_user_is_the_anonymous_guest() {
    let u = User::default();
    assert_eq!(u.id, 1);
    assert!(u.anonymous && u.is_anonymous());
    assert!(!u.is_authenticated() && !u.is_active());
    assert_eq!(u.username, "Guest");
    assert!(u.created_at.is_none() && u.permissions.is_empty());
}

#[test]
fn into_user_collects_distinct_tokens() {
    let sql = SqlUser {
        id: 7,
        anonymous: false,
        username: "eve".to_string(),
        password: "hash".to_string(),
        created_at: None,
    };
    let perms = vec![
        UserPermission::from(SqlUserPermission { user_id: 7, token: "Users::View".to_string() }),
        UserPermission::new("Users::Manage"),
        UserPermission::new("Users::View"),
    ];
    let u = sql.clone().into_user(Some(perms));
    assert_eq!(u.id, 7);
    assert_eq!(u.username, "eve");
    assert!(u.is_authenticated());
    assert_eq!(u.permissions, vec!["Users::View".to_string(), "Users::Manage".to_string()]);
    assert!(u.has("Users::Manage"));
    assert!(!u.has("CurrentUser::Manage"));
    assert!(sql.into_user(None).permissions.is_empty());
}

#[test]
fn only_request_failures_are_retried() {
    assert!(ServerError::API(ApiError::Request("timeout".to_string())).should_retry());
    assert!(ServerError::from_server_fn_error(ApiError::Request(String::new())).should_retry());
    assert!(!ServerError::API(ApiError::Response("bad".to_string())).should_retry());
    assert!(!ServerError::Unauthorized.should_retry());
    assert!(!ServerError::Database("down".to_string()).should_retry());
    assert!(!ServerError::PasswordHash("x".to_string()).should_retry());
}

#[test]
fn pending_envelopes() {
    let p = Pending::from((42u128, "x"));
    assert_eq!((p.request_id, p.data, p.delay_ms), (42, "x", 0));
    let q = p.with_delay(500);
    assert_eq!((q.request_id, q.delay_ms), (42, 500));
    let r = q.map_data(3u8);
    assert_eq!((r.request_id, r.data, r.delay_ms), (42, 3, 500));
    let a = Pending::new(1u8);
    let b = Pending::new(1u8);
    assert_eq!(a.delay_ms, 0);
    assert_ne!(a.request_id, b.request_id);
    let d: Pending<u8> = Pending::default();
    assert_eq!((d.data, d.delay_ms), (0, 0));
}

#[test]
fn update_form_validation() {
    let mut f = UpdateUserForm::blank();
    assert_eq!(f.validate(), Err(UserError::EmptyUsername));
    assert_eq!(f.submit(), None);
    assert_eq!(f.last_error(), &Some(UserError::EmptyUsername));
    f.set_username("zed".to_string());
    assert_eq!(f.submit(), Some("zed".to_string()));
    assert_eq!(f.username(), "");
    assert_eq!(f.last_error(), &None);
}

#[test]
fn create_form_validation() {
    let mut f = CreateUserForm::blank();
    assert_eq!(f.validate(), Err(UserError::EmptyUsername));
    f.set_fields("amy".to_string(), String::new(), String::new());
    assert_eq!(f.validate(), Err(UserError::EmptyPassword));
    f.set_fields("amy".to_string(), "pw1".to_string(), "pw2".to_string());
    assert_eq!(f.validate(), Err(UserError::PasswordConfirmationMismatch));
    f.set_fields("amy".to_string(), "pw1".to_string(), "pw1".to_string());
    assert_eq!(f.validate(), Ok(("amy".to_string(), "pw1".to_string())));
    assert_eq!(f.validate(), Err(UserError::EmptyUsername));
}

#[test]
fn signup_form_requires_a_strong_password() {
    let mut f = UserSignupForm::blank();
    assert_eq!(f.check(), Err(UserError::EmptyUsername));
    f.set_username("amy".to_string());
    assert_eq!(f.check(), Err(UserError::EmptyPassword));
    assert_eq!(f.score(), 0);
    f.set_password("password".to_string());
    assert_eq!(f.check(), Err(UserError::WeakPassword));
    assert!(f.score() < 4);
    f.set_password("Xk9#mQ2!vL7@pR4z".to_string());
    f.set_password_confirmation("Xk9#mQ2!vL7@pR4".to_string());
    assert_eq!(f.check(), Err(UserError::PasswordConfirmationMismatch));
    assert_eq!(f.score(), 4);
    f.set_password_confirmation("Xk9#mQ2!vL7@pR4z".to_string());
    assert_eq!(f.submit(), Some(("amy".to_string(), "Xk9#mQ2!vL7@pR4z".to_string())));
    assert_eq!(f.validate(), Err(UserError::EmptyUsername));
}

#[test]
fn login_form_submission() {
    let mut f = UserLoginForm::blank();
    assert_eq!(f.handle_submit(Submit::Yes, true), None);
    assert_eq!(f.last_error(), &Some(UserError::EmptyUsername));
    f.set_username("bo".to_string());
    assert_eq!(f.check(), Err(UserError::EmptyPassword));
    f.set_password("pw".to_string());
    assert_eq!(f.check(), Ok(()));
    assert_eq!(f.handle_submit(Submit::No, true), None);
    assert_eq!(
        f.handle_submit(Submit::Yes, true),
        Some(AuthRequest::Login("bo".to_string(), "pw".to_string()))
    );
    assert_eq!(f.last_error(), &None);
    f.set_username("bo".to_string());
    f.set_password("pw".to_string());
    assert_eq!(f.handle_submit(Submit::Yes, false), None);
    assert_eq!(f.check(), Err(UserError::EmptyUsername));
    f.set_username("x".to_string());
    assert_eq!(f.handle_submit(Submit::Cancel, true), None);
    assert_eq!(f.check(), Err(UserError::EmptyUsername));
}

#[test]
fn error_messages() {
    assert_eq!(UserError::EmptyUsername.message(), "username is required");
    assert_eq!(UserError::EmptyPassword.message(), "password is required");
    assert_eq!(
        UserError::PasswordConfirmationMismatch.message(),
        "password confirmation doesn't match"
    );
    assert_eq!(UserError::WeakPassword.message(), "password is too weak");
}

fn user(id: i64, name: &str) -> User {
    User { id, anonymous: false, username: name.to_string(), created_at: None, permissions: Vec::new() }
}

#[test]
fn user_filter_verdicts() {
    let mut f = UserFilter::default();
    assert_eq!(f.filter(&user(1, "anyone")), (true, 0));
    f.set_search("Al".to_string());
    assert_eq!(f.filter(&user(1, "Al")), (true, SCORE_ONE));
    assert_eq!(f.filter(&user(2, "Bea")), (false, 0));
    let (keep, score) = f.filter(&user(3, "Albert"));
    assert!(keep && score > SCORE_HALF && score < SCORE_ONE);
    assert_eq!(f.verdict_for(SCORE_HALF), (false, SCORE_HALF));
    assert_eq!(UserFilter::default().verdict_for(SCORE_ONE), (true, 0));
    assert_eq!(NoFilter::<User>::default().filter(&user(1, "x")), (true, 0));
}

#[test]
fn sort_settings_cycle() {
    assert_eq!(UserSortBy::default().next(), UserSortBy::Username);
    assert_eq!(UserSortBy::Username.next(), UserSortBy::CreatedAt);
    assert_eq!(UserSortBy::CreatedAt.next(), UserSortBy::Id);
    assert_eq!(UserSortOption::default().next(), UserSortOption::Descending);
    assert_eq!(UserSortOption::Descending.next(), UserSortOption::Ascending);
    assert_eq!(UserSortBy::Id.label(), "ID");
    assert_eq!(UserSortBy::CreatedAt.label(), "Signup date");
    assert_eq!(UserSortOption::Descending.label(), "Descending");
}

#[test]
fn user_sorter_comparisons() {
    let s = UserSorter::default();
    assert!(!s.enabled());
    assert_eq!(s.sort(&user(1, "a"), &user(2, "b"), 5, 3), Ordering::Less);
    assert_eq!(s.sort(&user(1, "a"), &user(2, "b"), 3, 3), Ordering::Equal);
    let s = UserSorter { enabled: true, sort_by: UserSortBy::Id, option: UserSortOption::Descending };
    assert_eq!(s.sort(&user(1, "a"), &user(2, "b"), 3, 3), Ordering::Greater);
    assert_eq!(s.sort(&user(1, "a"), &user(2, "b"), 2, 3), Ordering::Greater);
    assert_eq!(s.sort(&user(1, "a"), &user(2, "b"), 4, 3), Ordering::Less);
    let s = UserSorter { enabled: true, sort_by: UserSortBy::Username, option: UserSortOption::Ascending };
    assert_eq!(s.sort(&user(1, "alice"), &user(2, "Bob"), 0, 0), Ordering::Less);
    assert_eq!(s.sort(&user(1, "ALICE"), &user(2, "alice"), 0, 0), Ordering::Equal);
    assert!(!NoSorter::<User>::default().enabled());
    assert_eq!(NoSorter::<User>::default().sort(&user(1, "a"), &user(2, "b"), 9, 0), Ordering::Equal);
}

#[test]
fn text_comparison() {
    assert_eq!(compare_text("abc", "abd"), Ordering::Less);
    assert_eq!(compare_text("ab", "abc"), Ordering::Less);
    assert_eq!(compare_text("b", "abc"), Ordering::Greater);
    assert_eq!(compare_text("", ""), Ordering::Equal);
    assert_eq!(compare_text("é", "z"), Ordering::Greater);
}

#[test]
fn signup_verdict_by_score() {
    let s = |x: &str| x.to_string();
    assert_eq!(signup_verdict(&s(""), &s("pw"), &s("pw"), 4), Err(UserError::EmptyUsername));
    assert_eq!(signup_verdict(&s("a"), &s(""), &s(""), 4), Err(UserError::EmptyPassword));
    assert_eq!(signup_verdict(&s("a"), &s("pw"), &s("pw"), 3), Err(UserError::WeakPassword));
    assert_eq!(
        signup_verdict(&s("a"), &s("pw"), &s("px"), 4),
        Err(UserError::PasswordConfirmationMismatch)
    );
    assert_eq!(signup_verdict(&s("a"), &s("pw"), &s("pw"), 4), Ok(()));
}

fn sql(id: i64, name: &str) -> SqlUser {
    SqlUser {
        id,
        anonymous: false,
        username: name.to_string(),
        password: "hash".to_string(),
        created_at: None,
    }
}

fn row(user_id: i64, token: &str) -> SqlUserPermission {
    SqlUserPermission { user_id, token: token.to_string() }
}

#[test]
fn assemble_users_files_permissions_per_user() {
    let users = assemble_users(
        vec![sql(2, "bo"), sql(3, "cy"), sql(4, "di")],
        vec![
            row(3, "Users::View"),
            row(2, "CurrentUser::Manage"),
            row(3, "Users::Manage"),
            row(9, "Users::View"),
            row(3, "Users::View"),
        ],
    );
    assert_eq!(users.iter().map(|u| u.id).collect::<Vec<_>>(), vec![2, 3, 4]);
    assert_eq!(users[0].permissions, vec!["CurrentUser::Manage".to_string()]);
    assert_eq!(
        users[1].permissions,
        vec!["Users::View".to_string(), "Users::Manage".to_string()]
    );
    assert!(users[2].permissions.is_empty());
    assert_eq!(users[1].username, "cy");
    assert!(assemble_users(Vec::new(), vec![row(1, "x")]).is_empty());
}

use kreqo::access::{authorize_user_change, authorize_user_view, GUEST_ID};
use kreqo::errors::ServerError;
use kreqo::users::User;

fn with_perms(id: i64, perms: &[&str]) -> User {
    User {
        id,
        anonymous: false,
        username: format!("user{id}"),
        created_at: None,
        permissions: perms.iter().map(|p| p.to_string()).collect(),
    }
}

#[test]
fn guest_account_cannot_be_changed() {
    let admin = with_perms(2, &["Users::View", "Users::Manage"]);
    assert_eq!(authorize_user_change(&admin, GUEST_ID), Err(ServerError::Unauthorized));
}

#[test]
fn own_account_needs_either_manage_permission() {
    let normal = with_perms(5, &["Users::View", "CurrentUser::Manage"]);
    assert_eq!(authorize_user_change(&normal, 5), Ok(()));
    assert_eq!(authorize_user_change(&normal, 6), Err(ServerError::Unauthorized));
    let admin = with_perms(7, &["Users::Manage"]);
    assert_eq!(authorize_user_change(&admin, 7), Ok(()));
    assert_eq!(authorize_user_change(&admin, 6), Ok(()));
    let bare = with_perms(8, &[]);
    assert_eq!(authorize_user_change(&bare, 8), Err(ServerError::Unauthorized));
}

#[test]
fn viewing_needs_the_view_permission() {
    assert_eq!(authorize_user_view(&with_perms(3, &["Users::View"])), Ok(()));
    assert_eq!(authorize_user_view(&User::default()), Err(ServerError::Unauthorized));
}

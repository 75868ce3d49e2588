use vstd::prelude::*;

use crate::errors::ServerError;
use crate::users::{views_of, User};

verus! {

/// The account that can never be renamed or deleted: the guest.
pub const GUEST_ID: i64 = 1;

/// Whether `user` holds the permission `token`.
pub open spec fn holds(user: User, token: Seq<char>) -> bool {
    views_of(user.permissions@).contains(token)
}

/// Who may rename or delete the account `target`: nobody for the guest;
/// for one's own account, a holder of `Users::Manage` or
/// `CurrentUser::Manage`; for another account, a holder of `Users::Manage`.
pub open spec fn may_change(current: User, target: i64) -> bool {
    if target == GUEST_ID {
        false
    } else if target == current.id {
        holds(current, "Users::Manage"@) || holds(current, "CurrentUser::Manage"@)
    } else {
        holds(current, "Users::Manage"@)
    }
}

/// Refuses a rename or delete of `target` by `current` that the rule above
/// does not allow.
pub fn authorize_user_change(current: &User, target: i64) -> (r: Result<(), ServerError>)
    ensures
        r is Ok <==> may_change(*current, target),
        r matches Err(e) ==> e == ServerError::Unauthorized,
{
    if target == GUEST_ID {
        return Err(ServerError::Unauthorized);
    }
    let allowed = if target == current.id {
        current.has("Users::Manage") || current.has("CurrentUser::Manage")
    } else {
        current.has("Users::Manage")
    };
    if allowed {
        Ok(())
    } else {
        Err(ServerError::Unauthorized)
    }
}

/// Refuses listing or reading accounts to a user without `Users::View`.
pub fn authorize_user_view(current: &User) -> (r: Result<(), ServerError>)
    ensures
        r is Ok <==> holds(*current, "Users::View"@),
        r matches Err(e) ==> e == ServerError::Unauthorized,
{
    if current.has("Users::View") {
        Ok(())
    } else {
        Err(ServerError::Unauthorized)
    }
}

} // verus!

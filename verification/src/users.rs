//! The user directory: registration, profile rename, deactivation and
//! the read-side activity gate.

use vstd::prelude::*;
use vstd::string::StrSliceExecFns;

use crate::Handle;
use crate::UniGradingError;
use crate::model::MAX_NAME_LEN;
use crate::model::UserView;
use crate::model::nonempty;
use crate::model::valid_name;

verus! {

/// The role a directory user holds.
#[derive(Clone, Copy, Debug, PartialEq, Eq, Structural)]
pub enum UserRole {
    Teacher,
    Student,
}

/// A directory user record: an authority that owns it, a profile name,
/// a role, and an activity flag that gates role-checked actions.
pub struct User {
    pub authority: Handle,
    pub username: String,
    pub role: UserRole,
    pub created_at: i64,
    pub is_active: bool,
}

impl View for User {
    type V = UserView;

    open spec fn view(&self) -> UserView {
        UserView {
            authority: self.authority,
            username: self.username@,
            role: self.role,
            created_at: self.created_at,
            is_active: self.is_active,
        }
    }
}

/// The ghost image of an optional role-verification record.
pub open spec fn opt_user_view(u: Option<User>) -> Option<UserView> {
    match u {
        Option::Some(user) => Option::Some(user@),
        Option::None => Option::None,
    }
}

/// Creates the user record for `authority`: active, stamped with `now`.
/// The username must be non-empty and at most `MAX_NAME_LEN` characters.
pub fn register_user(authority: Handle, username: String, role: UserRole, now: i64) -> (r: Result<
    User,
    UniGradingError,
>)
    ensures
        r is Ok <==> valid_name(username@),
        !nonempty(username@) ==> (r matches Err(e) && e == UniGradingError::InvalidUsername),
        username@.len() > MAX_NAME_LEN ==> (r matches Err(e) && e
            == UniGradingError::UsernameTooLong),
        r matches Ok(u) ==> u@ == (UserView {
            authority,
            username: username@,
            role,
            created_at: now,
            is_active: true,
        }),
{
    let len = username.as_str().unicode_len();
    if len == 0 {
        return Err(UniGradingError::InvalidUsername);
    }
    if len > MAX_NAME_LEN {
        return Err(UniGradingError::UsernameTooLong);
    }
    Ok(User { authority, username, role, created_at: now, is_active: true })
}

/// Renames the profile. Only the owning authority may do so; a rejected
/// call leaves the record untouched.
pub fn update_user_profile(authority: Handle, user: &mut User, new_username: String) -> (r: Result<
    (),
    UniGradingError,
>)
    ensures
        r is Ok <==> valid_name(new_username@) && old(user).authority == authority,
        !nonempty(new_username@) ==> (r matches Err(e) && e == UniGradingError::InvalidUsername),
        new_username@.len() > MAX_NAME_LEN ==> (r matches Err(e) && e
            == UniGradingError::UsernameTooLong),
        valid_name(new_username@) && old(user).authority != authority ==> (r matches Err(e) && e
            == UniGradingError::Unauthorized),
        r is Err ==> final(user)@ == old(user)@,
        r is Ok ==> final(user)@ == (UserView { username: new_username@, ..old(user)@ }),
{
    let len = new_username.as_str().unicode_len();
    if len == 0 {
        return Err(UniGradingError::InvalidUsername);
    }
    if len > MAX_NAME_LEN {
        return Err(UniGradingError::UsernameTooLong);
    }
    if user.authority != authority {
        return Err(UniGradingError::Unauthorized);
    }
    user.username = new_username;
    Ok(())
}

/// Marks the record inactive. Only the owning authority may do so;
/// deactivating an already inactive record is accepted and idempotent.
pub fn deactivate_user(authority: Handle, user: &mut User) -> (r: Result<(), UniGradingError>)
    ensures
        r is Ok <==> old(user).authority == authority,
        old(user).authority != authority ==> (r matches Err(e) && e
            == UniGradingError::Unauthorized),
        r is Err ==> final(user)@ == old(user)@,
        r is Ok ==> final(user)@ == (UserView { is_active: false, ..old(user)@ }),
{
    if user.authority != authority {
        return Err(UniGradingError::Unauthorized);
    }
    user.is_active = false;
    Ok(())
}

/// The read-side gate: succeeds exactly when the record is still active,
/// so a caller that fetches the record afterwards sees an active user.
pub fn get_user_info(user: &User) -> (r: Result<(), UniGradingError>)
    ensures
        r is Ok <==> user.is_active,
        !user.is_active ==> (r matches Err(e) && e == UniGradingError::UserDeactivated),
{
    if !user.is_active {
        return Err(UniGradingError::UserDeactivated);
    }
    Ok(())
}

} // verus!

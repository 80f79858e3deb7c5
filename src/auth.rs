//! The authenticated user of a request, with a freshly resolved role.
use vstd::prelude::*;
use crate::error::{STATUS_FORBIDDEN, STATUS_INTERNAL};
use crate::role::{Timestamp, UserRole, ADMIN_USER_ID};
use crate::session::Session;
use crate::users::UserTable;

verus! {

/// A logged-in user and the role resolved for it on this request.
#[derive(Debug, Clone, Copy, PartialEq, Eq, Structural)]
pub struct UserAuth {
    pub id: i64,
    pub role: UserRole,
}

/// Why a request has no authenticated user.
#[derive(Debug, Clone, Copy, PartialEq, Eq, Structural)]
pub enum UserAuthError {
    NotLoggedIn,
    /// The session's user has no row.
    InternalError,
}

impl UserAuthError {
    /// HTTP status that this error is answered with.
    pub fn status(&self) -> (r: u16)
        ensures
            r == (match *self {
                UserAuthError::NotLoggedIn => STATUS_FORBIDDEN,
                UserAuthError::InternalError => STATUS_INTERNAL,
            }),
    {
        match self {
            UserAuthError::NotLoggedIn => STATUS_FORBIDDEN,
            UserAuthError::InternalError => STATUS_INTERNAL,
        }
    }
}

impl UserAuth {
    /// The session's user, with its role resolved again at `now`.
    pub fn from_session(session: &Session, users: &UserTable, now: Timestamp) -> (r: Result<
        UserAuth,
        UserAuthError,
    >)
        requires
            users.wf(),
        ensures
            session.data is None ==> r == Err::<UserAuth, UserAuthError>(UserAuthError::NotLoggedIn),
            session.data matches Some(d) ==> {
                &&& (d.user_id == ADMIN_USER_ID || users.has_id(d.user_id)) ==> r == Ok::<
                    UserAuth,
                    UserAuthError,
                >(UserAuth { id: d.user_id, role: users.role_at(d.user_id, now) })
                &&& !(d.user_id == ADMIN_USER_ID || users.has_id(d.user_id)) ==> r == Err::<
                    UserAuth,
                    UserAuthError,
                >(UserAuthError::InternalError)
            },
    {
        match &session.data {
            None => Err(UserAuthError::NotLoggedIn),
            Some(d) => match UserRole::from_db(users, d.user_id, now) {
                Ok(role) => Ok(UserAuth { id: d.user_id, role }),
                Err(_) => Err(UserAuthError::InternalError),
            },
        }
    }
}

} // verus!

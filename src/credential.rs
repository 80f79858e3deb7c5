//! Checking a submitted username and password against the stored hash.
use vstd::prelude::*;
use crate::error::{STATUS_FORBIDDEN, STATUS_INTERNAL, STATUS_UNAUTHORIZED};
use crate::primitives::{argon2_accepts, argon2_verify, phc_well_formed};
use crate::users::UserTable;

verus! {

/// A submitted login form.
#[derive(Debug)]
pub struct LoginCredential {
    pub username: String,
    pub password: String,
}

/// Failure of a login.
#[derive(Debug, Clone, Copy, PartialEq, Eq, Structural)]
pub enum LoginError {
    /// The session is already logged in.
    AlreadyLoggedIn,
    /// Unknown user or wrong password; which of the two is not told.
    Unauthorized,
    /// A stored hash is missing or malformed, or a session could not be made.
    InternalError,
}

impl LoginError {
    /// HTTP status that this error is answered with.
    pub fn status(&self) -> (r: u16)
        ensures
            r == (match *self {
                LoginError::AlreadyLoggedIn => STATUS_FORBIDDEN,
                LoginError::Unauthorized => STATUS_UNAUTHORIZED,
                LoginError::InternalError => STATUS_INTERNAL,
            }),
    {
        match self {
            LoginError::AlreadyLoggedIn => STATUS_FORBIDDEN,
            LoginError::Unauthorized => STATUS_UNAUTHORIZED,
            LoginError::InternalError => STATUS_INTERNAL,
        }
    }
}

impl LoginCredential {
    /// The outcome of checking this credential against `users`: `None` for an
    /// unknown name or a wrong password, the user's id on a match, and an
    /// internal error when the stored hash is missing or malformed.
    pub open spec fn outcome(&self, users: &UserTable) -> Result<Option<i64>, LoginError> {
        if !users.has_name(self.username@) {
            Ok(None)
        } else {
            let row = users.row_named(self.username@);
            match row.password {
                None => Err(LoginError::InternalError),
                Some(phc) => if !phc_well_formed(phc@) {
                    Err(LoginError::InternalError)
                } else if argon2_accepts(phc@, self.password@) {
                    Ok(Some(row.id))
                } else {
                    Ok(None)
                },
            }
        }
    }

    /// Checks the credential; no hash is computed for an unknown name.
    pub fn validate(&self, users: &UserTable) -> (r: Result<Option<i64>, LoginError>)
        requires
            users.wf(),
        ensures
            r == self.outcome(users),
    {
        match users.find_by_name(&self.username) {
            None => Ok(None),
            Some(i) => {
                let row = &users.users[i];
                match &row.password {
                    None => Err(LoginError::InternalError),
                    Some(phc) => match argon2_verify(phc.as_str(), self.password.as_str()) {
                        None => Err(LoginError::InternalError),
                        Some(true) => Ok(Some(row.id)),
                        Some(false) => Ok(None),
                    },
                }
            },
        }
    }
}

} // verus!

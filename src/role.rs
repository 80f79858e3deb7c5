use vstd::prelude::*;

verus! {

/// An instant, in whole seconds since the Unix epoch (UTC).
pub type Timestamp = i64;

/// The user that is always resolved to [`UserRole::Admin`].
pub const ADMIN_USER_ID: i64 = 1;

/// Effective authorization level of a user.
#[derive(Debug, Clone, Copy, PartialEq, Eq, Structural)]
pub enum UserRole {
    /// A banned user may have partial viewing permission
    Banned,
    /// A regular user with read-only permission
    Viewer,
    /// A user who can post topics, posts, and replies
    Author,
    /// A user who can edit/delete others' content
    Moderator,
    /// Superuser
    Admin,
}

/// The moderation columns of one user row, as read at resolution time.
#[derive(Debug, Clone, Copy, PartialEq, Eq, Structural)]
pub struct ModerationStatus {
    pub banned_at: Option<Timestamp>,
    pub muted_until: Option<Timestamp>,
    pub moderator_assigned_at: Option<Timestamp>,
}

/// Role given by the moderation columns alone: ban over mute over moderator
/// over author.
pub open spec fn role_from_status(status: ModerationStatus, now: Timestamp) -> UserRole {
    if status.banned_at is Some && status.banned_at->0 < now {
        UserRole::Banned
    } else if status.muted_until is Some && now < status.muted_until->0 {
        UserRole::Viewer
    } else if status.moderator_assigned_at is Some && status.moderator_assigned_at->0 < now {
        UserRole::Moderator
    } else {
        UserRole::Author
    }
}

/// Effective role of `user_id` at `now`; the admin user overrides everything.
pub open spec fn resolved_role(user_id: i64, status: ModerationStatus, now: Timestamp) -> UserRole {
    if user_id == ADMIN_USER_ID {
        UserRole::Admin
    } else {
        role_from_status(status, now)
    }
}

impl ModerationStatus {
    /// A user with no moderation state at all.
    pub fn clear() -> (r: ModerationStatus)
        ensures
            r.banned_at is None,
            r.muted_until is None,
            r.moderator_assigned_at is None,
    {
        ModerationStatus { banned_at: None, muted_until: None, moderator_assigned_at: None }
    }
}

impl UserRole {
    /// Role from one user's moderation columns at `now`.
    pub fn from_row(status: &ModerationStatus, now: Timestamp) -> (r: UserRole)
        ensures
            r == role_from_status(*status, now),
    {
        let banned = match status.banned_at {
            Some(b) => b < now,
            None => false,
        };
        let muted = match status.muted_until {
            Some(m) => now < m,
            None => false,
        };
        let moderator = match status.moderator_assigned_at {
            Some(m) => m < now,
            None => false,
        };
        if banned {
            UserRole::Banned
        } else if muted {
            UserRole::Viewer
        } else if moderator {
            UserRole::Moderator
        } else {
            UserRole::Author
        }
    }

    /// Effective role of `user_id`, given its moderation columns, at `now`.
    pub fn resolve(user_id: i64, status: &ModerationStatus, now: Timestamp) -> (r: UserRole)
        ensures
            r == resolved_role(user_id, *status, now),
    {
        if user_id == ADMIN_USER_ID {
            UserRole::Admin
        } else {
            UserRole::from_row(status, now)
        }
    }

    /// Whether this role may create topics, posts and replies.
    pub fn can_post(&self) -> (r: bool)
        ensures
            r == (*self == UserRole::Author || *self == UserRole::Moderator || *self
                == UserRole::Admin),
    {
        match self {
            UserRole::Author | UserRole::Moderator | UserRole::Admin => true,
            _ => false,
        }
    }
}

/// Only the admin user resolves to `Admin`, at every instant and whatever its
/// moderation columns hold; every other user gets the role that the first
/// matching rule gives (ban, then mute, then moderator assignment, else author).
pub proof fn lemma_resolution_priority(user_id: i64, status: ModerationStatus, now: Timestamp)
    ensures
        (resolved_role(user_id, status, now) == UserRole::Admin) <==> user_id == ADMIN_USER_ID,
        user_id != ADMIN_USER_ID ==> {
            let r = resolved_role(user_id, status, now);
            &&& (status.banned_at is Some && status.banned_at->0 < now) ==> r == UserRole::Banned
            &&& (!(status.banned_at is Some && status.banned_at->0 < now) && status.muted_until is Some
                && now < status.muted_until->0) ==> r == UserRole::Viewer
            &&& r == UserRole::Moderator ==> status.moderator_assigned_at is Some
                && status.moderator_assigned_at->0 < now
            &&& r == UserRole::Author ==> !(status.banned_at is Some && status.banned_at->0 < now)
                && !(status.muted_until is Some && now < status.muted_until->0)
                && !(status.moderator_assigned_at is Some && status.moderator_assigned_at->0 < now)
        },
{
}

} // verus!

//! Whether a topic or post may be shown to a session.
use vstd::prelude::*;
use crate::role::{Timestamp, UserRole};
use crate::session::Session;

verus! {

/// The visibility rule for an entity with this author, public flag and
/// soft-deletion state.
pub open spec fn visible_to(author: i64, public: bool, deleted: bool, session: Session) -> bool {
    if deleted {
        session.has_role(UserRole::Admin) || session.has_role(UserRole::Moderator)
    } else if !public {
        session.has_role(UserRole::Admin) || session.has_role(UserRole::Moderator)
            || session.uid() == Some(author)
    } else {
        true
    }
}

/// Decides the visibility rule; `deleted_at` is the soft-deletion instant.
pub fn is_visible(author: i64, public: bool, deleted_at: &Option<Timestamp>, session: &Session) -> (r:
    bool)
    ensures
        r == visible_to(author, public, deleted_at is Some, *session),
{
    if deleted_at.is_some() {
        session.is_admin() || session.is_moderator()
    } else if !public {
        session.is_admin() || session.is_moderator() || session.user_id() == Some(author)
    } else {
        true
    }
}

/// An entity is visible exactly when it is live and public, or the session is
/// an admin or a moderator, or it is live and the session's user wrote it.
pub proof fn lemma_visibility_rule(author: i64, public: bool, deleted: bool, session: Session)
    ensures
        visible_to(author, public, deleted, session) <==> ((!deleted && public) || session.has_role(
            UserRole::Admin,
        ) || session.has_role(UserRole::Moderator) || (!deleted && session.uid() == Some(author))),
{
}

} // verus!

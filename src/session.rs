//! The per-request session handle and the session operations behind it.
use vstd::prelude::*;
use crate::error::STATUS_INTERNAL;
use crate::primitives::{decimal_string, decimal_text, fresh_session_id, is_url_safe_char, now_unix};
use crate::role::{Timestamp, UserRole, ADMIN_USER_ID};
use crate::session_store::{digest_of_id, unexpired, SessionStore};
use crate::users::UserTable;

verus! {

/// What a logged-in client carries: its user, the opaque session id, and the
/// role captured at login.
#[derive(Debug)]
pub struct SessionData {
    pub user_id: i64,
    pub session_id: String,
    pub role: UserRole,
}

impl Clone for SessionData {
    fn clone(&self) -> (r: SessionData)
        ensures
            r == *self,
    {
        SessionData { user_id: self.user_id, session_id: self.session_id.clone(), role: self.role }
    }
}

/// Failure of a session operation.
#[derive(Debug, Clone, Copy, PartialEq, Eq, Structural)]
pub enum SessionError {
    /// The user to log in has no row.
    UnknownUser(i64),
    /// The fresh session id's digest is already stored.
    DigestCollision,
}

impl SessionError {
    /// HTTP status that this error is answered with.
    pub fn status(&self) -> (r: u16)
        ensures
            r == STATUS_INTERNAL,
    {
        STATUS_INTERNAL
    }
}

/// The per-request session handle: anonymous, or authenticated with data.
#[derive(Debug)]
pub struct Session {
    pub data: Option<SessionData>,
}

/// Whether the role of a user is known to `users`: the admin, or a user that has a row.
pub open spec fn user_known(users: &UserTable, user_id: i64) -> bool {
    user_id == ADMIN_USER_ID || users.has_id(user_id)
}

/// Creates a session for `user_id` with the given id at `now`: stores the
/// id's digest and resolves the role.
pub fn new_session_with_id(
    store: &mut SessionStore,
    users: &UserTable,
    user_id: i64,
    expires_at: Option<Timestamp>,
    session_id: String,
    now: Timestamp,
) -> (r: Result<SessionData, SessionError>)
    requires
        old(store).wf(),
        users.wf(),
    ensures
        final(store).wf(),
        !user_known(users, user_id) ==> r == Err::<SessionData, SessionError>(
            SessionError::UnknownUser(user_id),
        ) && *final(store) == *old(store),
        user_known(users, user_id) ==> SessionStore::insert_step(
            *old(store),
            *final(store),
            session_id@,
            user_id,
            expires_at,
            r is Ok,
        ),
        user_known(users, user_id) && r is Err ==> r == Err::<SessionData, SessionError>(
            SessionError::DigestCollision,
        ),
        r matches Ok(d) ==> d.user_id == user_id && d.session_id@ == session_id@ && d.role
            == users.role_at(user_id, now),
{
    let role = match UserRole::from_db(users, user_id, now) {
        Ok(role) => role,
        Err(_) => {
            return Err(SessionError::UnknownUser(user_id));
        },
    };
    match store.insert(&session_id, user_id, expires_at) {
        Ok(()) => Ok(SessionData { user_id, session_id, role }),
        Err(_) => Err(SessionError::DigestCollision),
    }
}

/// Creates a session for `user_id` under a fresh random id, resolving the
/// role at `now`, the request's instant.
pub fn new_session(
    store: &mut SessionStore,
    users: &UserTable,
    user_id: i64,
    expires_at: Option<Timestamp>,
    now: Timestamp,
) -> (r: Result<SessionData, SessionError>)
    requires
        old(store).wf(),
        users.wf(),
    ensures
        final(store).wf(),
        !user_known(users, user_id) ==> r == Err::<SessionData, SessionError>(
            SessionError::UnknownUser(user_id),
        ) && *final(store) == *old(store),
        user_known(users, user_id) && r is Err ==> r == Err::<SessionData, SessionError>(
            SessionError::DigestCollision,
        ) && final(store).rows@ == old(store).rows@,
        // Only a stored digest can make minting fail, so an empty store cannot.
        user_known(users, user_id) && old(store).rows@.len() == 0 ==> r is Ok,
        r matches Ok(d) ==> {
            &&& d.user_id == user_id
            &&& d.session_id@.len() == 21
            &&& forall|i: int| 0 <= i < 21 ==> is_url_safe_char(#[trigger] d.session_id@[i])
            &&& d.role == users.role_at(user_id, now)
            &&& SessionStore::insert_step(*old(store), *final(store), d.session_id@, user_id, expires_at, true)
        },
{
    let session_id = fresh_session_id();
    new_session_with_id(store, users, user_id, expires_at, session_id, now)
}

/// Deletes the row of the session, if there is one; says whether a row was
/// deleted. A missing row is no error.
pub fn remove_session(store: &mut SessionStore, session: &Option<SessionData>) -> (removed: bool)
    requires
        old(store).wf(),
    ensures
        final(store).wf(),
        session is None ==> !removed && *final(store) == *old(store),
        session matches Some(d) ==> SessionStore::remove_step(
            *old(store),
            *final(store),
            d.session_id@,
            d.user_id,
            removed,
        ),
{
    match session {
        Some(s) => store.remove(&s.session_id, s.user_id),
        None => false,
    }
}

/// Whether the session has a row that is unexpired at `now`.
pub fn verify_session(store: &SessionStore, session: &SessionData, now: Timestamp) -> (r: bool)
    requires
        store.wf(),
    ensures
        r == store.has_live_row(digest_of_id(session.session_id@), session.user_id, now),
{
    store.verify(&session.session_id, session.user_id, now)
}

impl Session {
    /// Whether the session is authenticated with this role.
    pub open spec fn has_role(&self, role: UserRole) -> bool {
        self.data matches Some(d) && d.role == role
    }

    /// The user of the session, if authenticated.
    pub open spec fn uid(&self) -> Option<i64> {
        match self.data {
            Some(d) => Some(d.user_id),
            None => None,
        }
    }

    /// Who the session is, for messages: the user id in decimal, or `Anonymous`.
    pub open spec fn cred_text(&self) -> Seq<char> {
        match self.data {
            Some(d) => decimal_text(d.user_id as int),
            None => "Anonymous"@,
        }
    }

    /// Whether the session may create topics, posts and replies.
    pub open spec fn may_post(&self) -> bool {
        self.has_role(UserRole::Author) || self.has_role(UserRole::Moderator) || self.has_role(
            UserRole::Admin,
        )
    }

    /// What a call of [`Self::purge`] does: the handle becomes anonymous; the
    /// row of its former data, if any, is removed from the store.
    pub open spec fn purge_step(
        before: Session,
        after: Session,
        store_before: SessionStore,
        store_after: SessionStore,
        removed: bool,
    ) -> bool {
        &&& after.data is None
        &&& before.data is None ==> !removed && store_after == store_before
        &&& before.data matches Some(d) ==> SessionStore::remove_step(
            store_before,
            store_after,
            d.session_id@,
            d.user_id,
            removed,
        )
    }

    /// A handle with no session data.
    pub fn anonymous() -> (r: Session)
        ensures
            r.data is None,
    {
        Session { data: None }
    }

    /// A handle carrying what the request's cookie held, if anything.
    pub fn from_data(data: Option<SessionData>) -> (r: Session)
        ensures
            r.data == data,
    {
        Session { data }
    }

    /// The current session data.
    pub fn get(&self) -> (r: Option<&SessionData>)
        ensures
            r is None <==> self.data is None,
            r matches Some(d) ==> self.data == Some(*d),
    {
        self.data.as_ref()
    }

    /// Logs in `user_id` at `now`: first purges the current session, then
    /// mints a new one and attaches it to the handle.
    pub fn insert(
        &mut self,
        store: &mut SessionStore,
        users: &UserTable,
        user_id: i64,
        expires_at: Option<Timestamp>,
        now: Timestamp,
    ) -> (r: Result<SessionData, SessionError>)
        requires
            old(store).wf(),
            users.wf(),
        ensures
            final(store).wf(),
            user_known(users, user_id) && old(store).rows@.len() == 0 ==> r is Ok,
            r is Err ==> final(self).data is None,
            r is Err ==> exists|mid: SessionStore, removed: bool|
                #[trigger] Self::purge_step(*old(self), Session { data: None }, *old(store), mid, removed)
                    && mid.rows@ == final(store).rows@,
            r matches Ok(d) ==> exists|mid: SessionStore, removed: bool|
                #[trigger] Self::purge_step(*old(self), Session { data: None }, *old(store), mid, removed)
                    && SessionStore::insert_step(
                    mid,
                    *final(store),
                    d.session_id@,
                    user_id,
                    expires_at,
                    true,
                ),
            r matches Ok(d) ==> forall|t: Timestamp|
                unexpired(expires_at, t) ==> #[trigger] final(store).has_live_row(
                    digest_of_id(d.session_id@),
                    user_id,
                    t,
                ),
            r matches Ok(d) ==> final(self).data == Some(d) && d.user_id == user_id
                && d.role == users.role_at(user_id, now) && d.session_id@.len() == 21 && (forall|i: int|
                0 <= i < 21 ==> is_url_safe_char(#[trigger] d.session_id@[i])) && final(store).has_row(
                digest_of_id(d.session_id@),
                user_id,
            ),
            (r == Err::<SessionData, SessionError>(SessionError::UnknownUser(user_id))) <==> !user_known(
                users,
                user_id,
            ),
            old(self).data matches Some(d) ==> !final(store).has_row(
                digest_of_id(d.session_id@),
                d.user_id,
            ) || (r matches Ok(n) && digest_of_id(n.session_id@) == digest_of_id(d.session_id@)
                && n.user_id == d.user_id),
    {
        let ghost prior = self.data;
        let removed = self.purge(store);
        let ghost mid = *store;
        assert(Self::purge_step(*old(self), Session { data: None }, *old(store), mid, removed));
        let r = new_session(store, users, user_id, expires_at, now);
        match r {
            Ok(d) => {
                proof {
                    let n = mid.rows@.len() as int;
                    assert(store.row_triples()[n] == (digest_of_id(d.session_id@), user_id, expires_at));
                    assert(store.rows@.len() == n + 1) by {
                        assert(store.row_triples().len() == store.rows@.len());
                    }
                    assert(store.rows@[n].digest@ == digest_of_id(d.session_id@));
                    assert(store.rows@[n].user_id == user_id);
                    assert(store.rows@[n].expires_at == expires_at);
                    if let Some(p) = prior {
                        if store.has_row(digest_of_id(p.session_id@), p.user_id) {
                            let j = choose|j: int|
                                0 <= j < store.rows@.len() && #[trigger] store.rows@[j].digest@
                                    == digest_of_id(p.session_id@) && store.rows@[j].user_id == p.user_id;
                            assert(store.row_triples()[j].0 == store.rows@[j].digest@);
                            assert(store.row_triples()[j].1 == store.rows@[j].user_id);
                            if j < n {
                                assert(store.row_triples()[j] == mid.row_triples()[j]);
                                assert(mid.rows@[j].digest@ == store.rows@[j].digest@);
                                assert(mid.has_row(digest_of_id(p.session_id@), p.user_id));
                            }
                        }
                    }
                }
                self.data = Some(d.clone());
                Ok(d)
            },
            Err(e) => {
                proof {
                    if let Some(p) = prior {
                        if store.has_row(digest_of_id(p.session_id@), p.user_id) {
                            let j = choose|j: int|
                                0 <= j < store.rows@.len() && #[trigger] store.rows@[j].digest@
                                    == digest_of_id(p.session_id@) && store.rows@[j].user_id == p.user_id;
                            assert(mid.rows@[j] == store.rows@[j]);
                        }
                    }
                }
                Err(e)
            },
        }
    }

    /// Logs out: removes the current session's row, if authenticated, and
    /// makes the handle anonymous. Says whether a row was deleted.
    pub fn purge(&mut self, store: &mut SessionStore) -> (removed: bool)
        requires
            old(store).wf(),
        ensures
            final(store).wf(),
            Self::purge_step(*old(self), *final(self), *old(store), *final(store), removed),
    {
        let removed = remove_session(store, &self.data);
        self.data = None;
        removed
    }

    /// Whether the session is authenticated and its row is unexpired at `now`.
    pub open spec fn verify_at_spec(&self, store: &SessionStore, now: Timestamp) -> bool {
        self.data matches Some(d) && store.has_live_row(digest_of_id(d.session_id@), d.user_id, now)
    }

    /// Whether the session is authenticated and its row is unexpired at `now`.
    pub fn verify_at(&self, store: &SessionStore, now: Timestamp) -> (r: bool)
        requires
            store.wf(),
        ensures
            r == self.verify_at_spec(store, now),
    {
        match &self.data {
            Some(d) => verify_session(store, d, now),
            None => false,
        }
    }

    /// Whether the session is authenticated and its row is unexpired now.
    pub fn verify(&self, store: &SessionStore) -> (r: bool)
        requires
            store.wf(),
        ensures
            r ==> (self.data matches Some(d) && store.has_row(digest_of_id(d.session_id@), d.user_id)),
            self.data is None ==> !r,
            (self.data matches Some(d) && forall|t: Timestamp| store.has_live_row(
                digest_of_id(d.session_id@),
                d.user_id,
                t,
            )) ==> r,
    {
        let now = now_unix();
        self.verify_at(store, now)
    }

    /// Extends the session's validity; sessions are currently not renewed.
    pub fn renew(&self) {
    }

    /// The user of the session, if authenticated.
    pub fn user_id(&self) -> (r: Option<i64>)
        ensures
            r == self.uid(),
    {
        match &self.data {
            Some(d) => Some(d.user_id),
            None => None,
        }
    }

    pub fn is_anonymous(&self) -> (r: bool)
        ensures
            r == self.data is None,
    {
        self.data.is_none()
    }

    fn role_is(&self, role: UserRole) -> (r: bool)
        ensures
            r == self.has_role(role),
    {
        match &self.data {
            Some(d) => d.role == role,
            None => false,
        }
    }

    pub fn is_viewer(&self) -> (r: bool)
        ensures
            r == self.has_role(UserRole::Viewer),
    {
        self.role_is(UserRole::Viewer)
    }

    pub fn is_author(&self) -> (r: bool)
        ensures
            r == self.has_role(UserRole::Author),
    {
        self.role_is(UserRole::Author)
    }

    pub fn is_moderator(&self) -> (r: bool)
        ensures
            r == self.has_role(UserRole::Moderator),
    {
        self.role_is(UserRole::Moderator)
    }

    pub fn is_admin(&self) -> (r: bool)
        ensures
            r == self.has_role(UserRole::Admin),
    {
        self.role_is(UserRole::Admin)
    }

    /// Author, moderator or admin.
    pub fn can_post(&self) -> (r: bool)
        ensures
            r == self.may_post(),
    {
        self.is_author() || self.is_moderator() || self.is_admin()
    }

    /// Who the session is, for messages: the user id in decimal, or `Anonymous`.
    pub fn cred_str(&self) -> (r: String)
        ensures
            r@ == self.cred_text(),
    {
        match &self.data {
            Some(d) => decimal_string(d.user_id),
            None => String::from_str("Anonymous"),
        }
    }
}

/// Logging out twice leaves the handle anonymous and deletes at most one row:
/// the second logout deletes nothing and leaves the store as it was.
pub proof fn lemma_purge_idempotent(
    h0: Session,
    h1: Session,
    h2: Session,
    s0: SessionStore,
    s1: SessionStore,
    s2: SessionStore,
    removed1: bool,
    removed2: bool,
)
    requires
        Session::purge_step(h0, h1, s0, s1, removed1),
        Session::purge_step(h1, h2, s1, s2, removed2),
    ensures
        h1.data is None,
        h2.data is None,
        !removed2,
        s2 == s1,
        removed1 ==> h0.data is Some,
{
}

} // verus!

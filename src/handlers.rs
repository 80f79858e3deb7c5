//! The decisions behind the login, logout, index and topic pages.
use vstd::prelude::*;
use crate::credential::{LoginCredential, LoginError};
use crate::forum::Topic;
use crate::primitives::{decimal_string, decimal_text};
use crate::role::Timestamp;
use crate::session::{user_known, Session, SessionData};
use crate::session_store::{digest_of_id, unexpired, SessionStore};
use crate::users::UserTable;

verus! {

/// The index page's greeting for a session.
pub open spec fn greeting_text(session: Session) -> Seq<char> {
    match session.data {
        Some(d) => "Hello, user "@ + decimal_text(d.user_id as int) + "!"@,
        None => "Hello, Anonymous!"@,
    }
}

/// The index page's greeting: the user's id, or `Anonymous`.
pub fn greeting(session: &Session) -> (r: String)
    ensures
        r@ == greeting_text(*session),
{
    match &session.data {
        Some(d) => {
            let mut s = String::from_str("Hello, user ");
            let id = decimal_string(d.user_id);
            s.append(id.as_str());
            s.append("!");
            s
        },
        None => String::from_str("Hello, Anonymous!"),
    }
}

/// The topic page's text: `Got topic <id>: <title>`.
pub fn topic_summary(topic: &Topic) -> (r: String)
    ensures
        r@ == "Got topic "@ + decimal_text(topic.id as int) + ": "@ + topic.title@,
{
    let mut s = String::from_str("Got topic ");
    let id = decimal_string(topic.id);
    s.append(id.as_str());
    s.append(": ");
    s.append(topic.title.as_str());
    s
}

/// Whether the login form may be shown: not to a session that verifies at `now`.
pub fn login_form_at(session: &Session, store: &SessionStore, now: Timestamp) -> (r: Result<
    (),
    LoginError,
>)
    requires
        store.wf(),
    ensures
        r is Err <==> session.verify_at_spec(store, now),
        r is Err ==> r == Err::<(), LoginError>(LoginError::AlreadyLoggedIn),
{
    if session.verify_at(store, now) {
        Err(LoginError::AlreadyLoggedIn)
    } else {
        Ok(())
    }
}

/// Completes a login once the credential was checked: `outcome` is what
/// [`LoginCredential::validate`] returned. On a match the current session is
/// replaced by a new one for the user, made at `now`; otherwise nothing
/// changes.
pub fn finish_login(
    session: &mut Session,
    store: &mut SessionStore,
    users: &UserTable,
    outcome: Result<Option<i64>, LoginError>,
    expires_at: Option<Timestamp>,
    now: Timestamp,
) -> (r: Result<SessionData, LoginError>)
    requires
        old(store).wf(),
        users.wf(),
    ensures
        final(store).wf(),
        outcome is Err ==> r == Err::<SessionData, LoginError>(LoginError::InternalError)
            && *final(store) == *old(store) && *final(session) == *old(session),
        outcome == Ok::<Option<i64>, LoginError>(None) ==> r == Err::<SessionData, LoginError>(
            LoginError::Unauthorized,
        ) && *final(store) == *old(store) && *final(session) == *old(session),
        outcome matches Ok(Some(uid)) ==> {
            &&& r is Err ==> r == Err::<SessionData, LoginError>(LoginError::InternalError)
                && final(session).data is None
            &&& user_known(users, uid) && old(store).rows@.len() == 0 ==> r is Ok
            &&& old(session).data matches Some(p) ==> !final(store).has_row(
                digest_of_id(p.session_id@),
                p.user_id,
            ) || (r matches Ok(n) && digest_of_id(n.session_id@) == digest_of_id(p.session_id@)
                && n.user_id == p.user_id)
        },
        r matches Ok(d) ==> {
            &&& outcome == Ok::<Option<i64>, LoginError>(Some(d.user_id))
            &&& final(session).data == Some(d)
            &&& d.role == users.role_at(d.user_id, now)
            &&& final(store).has_row(digest_of_id(d.session_id@), d.user_id)
            &&& forall|t: Timestamp|
                unexpired(expires_at, t) ==> #[trigger] final(store).has_live_row(
                    digest_of_id(d.session_id@),
                    d.user_id,
                    t,
                )
        },
{
    let user_id = match outcome {
        Err(_) => {
            return Err(LoginError::InternalError);
        },
        Ok(None) => {
            return Err(LoginError::Unauthorized);
        },
        Ok(Some(uid)) => uid,
    };
    match session.insert(store, users, user_id, expires_at, now) {
        Ok(d) => Ok(d),
        Err(_) => Err(LoginError::InternalError),
    }
}

/// Logs in with a submitted credential at `now`: on a match the current
/// session is replaced by a new one for the user; otherwise nothing changes.
pub fn login(
    session: &mut Session,
    store: &mut SessionStore,
    users: &UserTable,
    cred: &LoginCredential,
    expires_at: Option<Timestamp>,
    now: Timestamp,
) -> (r: Result<SessionData, LoginError>)
    requires
        old(store).wf(),
        users.wf(),
    ensures
        final(store).wf(),
        cred.outcome(users) is Err ==> r == Err::<SessionData, LoginError>(LoginError::InternalError)
            && *final(store) == *old(store) && *final(session) == *old(session),
        cred.outcome(users) == Ok::<Option<i64>, LoginError>(None) ==> r == Err::<
            SessionData,
            LoginError,
        >(LoginError::Unauthorized) && *final(store) == *old(store) && *final(session)
            == *old(session),
        cred.outcome(users) matches Ok(Some(uid)) ==> {
            &&& r is Err ==> r == Err::<SessionData, LoginError>(LoginError::InternalError)
                && final(session).data is None
            &&& old(store).rows@.len() == 0 ==> r is Ok
            &&& old(session).data matches Some(p) ==> !final(store).has_row(
                digest_of_id(p.session_id@),
                p.user_id,
            ) || (r matches Ok(n) && digest_of_id(n.session_id@) == digest_of_id(p.session_id@)
                && n.user_id == p.user_id)
        },
        r matches Ok(d) ==> {
            &&& cred.outcome(users) == Ok::<Option<i64>, LoginError>(Some(d.user_id))
            &&& final(session).data == Some(d)
            &&& d.role == users.role_at(d.user_id, now)
            &&& final(store).has_row(digest_of_id(d.session_id@), d.user_id)
            &&& forall|t: Timestamp|
                unexpired(expires_at, t) ==> #[trigger] final(store).has_live_row(
                    digest_of_id(d.session_id@),
                    d.user_id,
                    t,
                )
        },
{
    let outcome = cred.validate(users);
    proof {
        if outcome is Ok && outcome->Ok_0 is Some {
            let i = choose|i: int|
                0 <= i < users.users@.len() && #[trigger] users.users@[i].name@ == cred.username@;
            assert(users.users@[i].id == outcome->Ok_0->Some_0);
            assert(user_known(users, outcome->Ok_0->Some_0));
        }
    }
    finish_login(session, store, users, outcome, expires_at, now)
}

} // verus!

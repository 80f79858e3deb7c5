use argon2::PasswordHasher;
use reforum::credential::{LoginCredential, LoginError};
use reforum::forum::{ForumStore, Topic, TopicError};
use reforum::handlers::{finish_login, greeting, login, login_form_at};
use reforum::role::{ModerationStatus, UserRole};
use reforum::session::{new_session_with_id, remove_session, verify_session, Session, SessionError};
use reforum::session_store::SessionStore;
use reforum::users::UserTable;
use sha2::Digest;

const DAY: i64 = 24 * 60 * 60;
const NOW: i64 = 1_700_000_000;

fn phc_of(password: &str) -> String {
    let salt = argon2::password_hash::SaltString::encode_b64(b"fixed-test-salt!").unwrap();
    argon2::Argon2::default().hash_password(password.as_bytes(), &salt).unwrap().to_string()
}

/// Users: 1 root (admin), 2 alice, 3 mallory (banned a day ago), 4 nohash, 5 broken.
fn users() -> UserTable {
    let mut users = UserTable::new();
    users.register("root".to_string(), Some(phc_of("root-pw"))).unwrap();
    users.register("alice".to_string(), Some(phc_of("correct horse"))).unwrap();
    users.register("mallory".to_string(), Some(phc_of("mallory-pw"))).unwrap();
    users.register("nohash".to_string(), None).unwrap();
    users.register("broken".to_string(), Some("not a phc string".to_string())).unwrap();
    let banned = ModerationStatus { banned_at: Some(NOW - DAY), muted_until: None, moderator_assigned_at: None };
    users.set_moderation(3, banned).unwrap();
    users
}

fn cred(username: &str, password: &str) -> LoginCredential {
    LoginCredential { username: username.to_string(), password: password.to_string() }
}

#[test]
fn insert_then_verify_then_remove() {
    let users = users();
    let mut store = SessionStore::new();
    let d = new_session_with_id(&mut store, &users, 2, None, "abc".to_string(), NOW).unwrap();
    assert_eq!((d.user_id, d.session_id.as_str(), d.role), (2, "abc", UserRole::Author));
    assert!(verify_session(&store, &d, NOW));
    assert!(remove_session(&mut store, &Some(d.clone())));
    assert!(!verify_session(&store, &d, NOW));
    assert!(!remove_session(&mut store, &Some(d)));
    assert!(!remove_session(&mut store, &None));
}

#[test]
fn stored_key_is_the_sha256_digest() {
    let users = users();
    let mut store = SessionStore::new();
    new_session_with_id(&mut store, &users, 2, None, "opaque-id".to_string(), NOW).unwrap();
    let expected = sha2::Sha256::digest(b"opaque-id").to_vec();
    assert_eq!(store.rows.len(), 1);
    assert_eq!(store.rows[0].digest, expected);
    assert_eq!(store.rows[0].digest.len(), 32);
    assert_ne!(store.rows[0].digest, b"opaque-id".to_vec());
}

#[test]
fn expired_sessions_do_not_verify() {
    let users = users();
    let mut store = SessionStore::new();
    let d = new_session_with_id(&mut store, &users, 2, Some(NOW + 60), "e".to_string(), NOW).unwrap();
    assert!(verify_session(&store, &d, NOW + 59));
    assert!(!verify_session(&store, &d, NOW + 60));
    let s = Session::from_data(Some(d));
    assert!(s.verify_at(&store, NOW));
    assert!(!s.verify_at(&store, NOW + 61));
    assert!(!Session::anonymous().verify_at(&store, NOW));
}

#[test]
fn verify_needs_the_right_user() {
    let users = users();
    let mut store = SessionStore::new();
    let mut d = new_session_with_id(&mut store, &users, 2, None, "k".to_string(), NOW).unwrap();
    d.user_id = 3;
    assert!(!verify_session(&store, &d, NOW));
    // a removal for the wrong user deletes nothing
    assert!(!remove_session(&mut store, &Some(d)));
    assert_eq!(store.rows.len(), 1);
}

#[test]
fn digest_collision_is_an_error() {
    let users = users();
    let mut store = SessionStore::new();
    new_session_with_id(&mut store, &users, 2, None, "same".to_string(), NOW).unwrap();
    let e = new_session_with_id(&mut store, &users, 3, None, "same".to_string(), NOW).unwrap_err();
    assert_eq!(e, SessionError::DigestCollision);
    assert_eq!(e.status(), 500);
    assert_eq!(store.rows.len(), 1);
}

#[test]
fn unknown_user_gets_no_session() {
    let users = users();
    let mut store = SessionStore::new();
    let e = new_session_with_id(&mut store, &users, 40, None, "x".to_string(), NOW).unwrap_err();
    assert_eq!(e, SessionError::UnknownUser(40));
    assert!(store.rows.is_empty());
}

#[test]
fn handle_insert_uses_fresh_ids() {
    let users = users();
    let mut store = SessionStore::new();
    let mut s = Session::anonymous();
    let first = s.insert(&mut store, &users, 2, None, NOW).unwrap();
    assert_eq!(first.session_id.chars().count(), 21);
    assert!(first.session_id.chars().all(|c| c.is_ascii_alphanumeric() || c == '_' || c == '-'));
    assert!(s.verify(&store));
    let second = s.insert(&mut store, &users, 2, None, NOW).unwrap();
    assert_ne!(first.session_id, second.session_id);
    // the earlier session was purged before the new one was made
    assert_eq!(store.rows.len(), 1);
    assert!(!verify_session(&store, &first, NOW));
    assert!(verify_session(&store, &second, NOW));
    assert_eq!(s.get().map(|d| d.session_id.clone()), Some(second.session_id.clone()));
}

#[test]
fn purge_twice_is_idempotent() {
    let users = users();
    let mut store = SessionStore::new();
    let mut s = Session::anonymous();
    s.insert(&mut store, &users, 2, None, NOW).unwrap();
    assert!(s.purge(&mut store));
    assert!(s.is_anonymous());
    assert!(!s.purge(&mut store));
    assert!(s.is_anonymous());
    assert!(store.rows.is_empty());
    assert!(!s.verify(&store));
}

#[test]
fn anonymous_index() {
    assert_eq!(greeting(&Session::anonymous()), "Hello, Anonymous!");
}

#[test]
fn happy_path_login() {
    let users = users();
    let mut store = SessionStore::new();
    let mut s = Session::anonymous();
    let d = login(&mut s, &mut store, &users, &cred("alice", "correct horse"), None, NOW).unwrap();
    assert_eq!(d.user_id, 2);
    assert_eq!(d.role, UserRole::Author);
    assert!(s.verify(&store));
    assert_eq!(greeting(&s), "Hello, user 2!");
    assert_eq!(login_form_at(&s, &store, NOW), Err(LoginError::AlreadyLoggedIn));
    assert_eq!(LoginError::AlreadyLoggedIn.status(), 403);
}

#[test]
fn wrong_password() {
    let users = users();
    let mut store = SessionStore::new();
    let mut s = Session::anonymous();
    let e = login(&mut s, &mut store, &users, &cred("alice", "wrong horse"), None, NOW).unwrap_err();
    assert_eq!(e, LoginError::Unauthorized);
    assert_eq!(e.status(), 401);
    assert!(s.is_anonymous());
    assert!(store.rows.is_empty());
    assert_eq!(login_form_at(&s, &store, NOW), Ok(()));
}

#[test]
fn unknown_user_is_unauthorized_like_a_wrong_password() {
    let users = users();
    assert_eq!(cred("nobody", "x").validate(&users), Ok(None));
    assert_eq!(cred("alice", "x").validate(&users), Ok(None));
    assert_eq!(cred("alice", "correct horse").validate(&users), Ok(Some(2)));
    let mut store = SessionStore::new();
    let mut s = Session::anonymous();
    assert_eq!(login(&mut s, &mut store, &users, &cred("nobody", "x"), None, NOW).unwrap_err(), LoginError::Unauthorized);
}

#[test]
fn malformed_or_missing_hash_is_internal() {
    let users = users();
    assert_eq!(cred("broken", "x").validate(&users), Err(LoginError::InternalError));
    assert_eq!(cred("nohash", "x").validate(&users), Err(LoginError::InternalError));
    assert_eq!(LoginError::InternalError.status(), 500);
    let mut store = SessionStore::new();
    let mut s = Session::anonymous();
    assert_eq!(login(&mut s, &mut store, &users, &cred("broken", "x"), None, NOW).unwrap_err(), LoginError::InternalError);
    assert!(store.rows.is_empty());
}

#[test]
fn banned_user_login() {
    let users = users();
    let mut store = SessionStore::new();
    let mut s = Session::anonymous();
    let d = login(&mut s, &mut store, &users, &cred("mallory", "mallory-pw"), None, NOW).unwrap();
    assert_eq!(d.role, UserRole::Banned);
    assert!(!s.can_post());
    let mut forum = ForumStore::new();
    let e = Topic::insert_topic(&mut forum, &s, "t", true, "b", NOW).unwrap_err();
    assert_eq!(e, TopicError::Forbidden("3".to_string()));
    assert_eq!(e.status(), 403);
    assert!(forum.topics.is_empty() && forum.posts.is_empty());
}

#[test]
fn admin_login_is_admin() {
    let users = users();
    let mut store = SessionStore::new();
    let mut s = Session::anonymous();
    let d = login(&mut s, &mut store, &users, &cred("root", "root-pw"), Some(i64::MAX), NOW).unwrap();
    assert_eq!(d.role, UserRole::Admin);
    assert!(s.is_admin());
    s.renew();
}

#[test]
fn role_is_resolved_at_the_given_instant() {
    let users = users();
    let mut store = SessionStore::new();
    let mut s = Session::anonymous();
    // two days before "now" the ban had not started
    let d = s.insert(&mut store, &users, 3, None, NOW - 2 * DAY).unwrap();
    assert_eq!(d.role, UserRole::Author);
    let d = s.insert(&mut store, &users, 3, None, NOW).unwrap();
    assert_eq!(d.role, UserRole::Banned);
}

#[test]
fn relogin_removes_the_prior_row() {
    let users = users();
    let mut store = SessionStore::new();
    let mut s = Session::anonymous();
    let first = login(&mut s, &mut store, &users, &cred("alice", "correct horse"), None, NOW).unwrap();
    let second = login(&mut s, &mut store, &users, &cred("alice", "correct horse"), None, NOW).unwrap();
    assert!(!verify_session(&store, &first, NOW));
    assert!(verify_session(&store, &second, NOW));
    assert_eq!(store.rows.len(), 1);
    assert!(store.rows.iter().all(|r| r.digest.len() == 32 && r.digest != second.session_id.as_bytes()));
}

#[test]
fn finish_login_maps_the_outcome() {
    let users = users();
    let mut store = SessionStore::new();
    let mut s = Session::anonymous();
    assert_eq!(finish_login(&mut s, &mut store, &users, Ok(None), None, NOW).unwrap_err(), LoginError::Unauthorized);
    assert_eq!(finish_login(&mut s, &mut store, &users, Err(LoginError::InternalError), None, NOW).unwrap_err(), LoginError::InternalError);
    assert_eq!(finish_login(&mut s, &mut store, &users, Ok(Some(40)), None, NOW).unwrap_err(), LoginError::InternalError);
    assert!(store.rows.is_empty());
    let d = finish_login(&mut s, &mut store, &users, Ok(Some(2)), None, NOW).unwrap();
    assert_eq!(d.user_id, 2);
}

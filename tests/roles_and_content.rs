use reforum::auth::{UserAuth, UserAuthError};
use reforum::filter::Pagination;
use reforum::forum::{ForumStore, Post, PostError, Topic, TopicError};
use reforum::handlers::{greeting, topic_summary};
use reforum::role::{ModerationStatus, UserRole};
use reforum::session::{Session, SessionData};
use reforum::users::{UserRecord, UserTable};

const DAY: i64 = 24 * 60 * 60;
const NOW: i64 = 1_700_000_000;

fn status(banned: Option<i64>, muted: Option<i64>, moderator: Option<i64>) -> ModerationStatus {
    ModerationStatus { banned_at: banned, muted_until: muted, moderator_assigned_at: moderator }
}

fn session_of(user_id: i64, role: UserRole) -> Session {
    Session::from_data(Some(SessionData { user_id, session_id: "sid".to_string(), role }))
}

fn hidden_topic(author: i64) -> Topic {
    Topic {
        id: 1,
        author_user_id: author,
        title: "secret".to_string(),
        number_posts: 1,
        public: false,
        created_at: NOW,
        updated_at: None,
        deleted_at: None,
        last_updated_by: None,
        views_from_users: 0,
    }
}

#[test]
fn admin_overrides_every_moderation_column() {
    let all = status(Some(NOW - DAY), Some(NOW + DAY), Some(NOW - DAY));
    assert_eq!(UserRole::resolve(1, &all, NOW), UserRole::Admin);
    assert_eq!(UserRole::resolve(2, &all, NOW), UserRole::Banned);
}

#[test]
fn resolution_priority() {
    assert_eq!(UserRole::resolve(5, &status(None, None, None), NOW), UserRole::Author);
    assert_eq!(UserRole::resolve(5, &status(None, None, Some(NOW - 1)), NOW), UserRole::Moderator);
    assert_eq!(UserRole::resolve(5, &status(None, Some(NOW + 1), Some(NOW - 1)), NOW), UserRole::Viewer);
    assert_eq!(UserRole::resolve(5, &status(Some(NOW - 1), Some(NOW + 1), Some(NOW - 1)), NOW), UserRole::Banned);
}

#[test]
fn future_ban_and_past_mute_do_not_apply() {
    assert_eq!(UserRole::resolve(5, &status(Some(NOW + DAY), None, None), NOW), UserRole::Author);
    assert_eq!(UserRole::resolve(5, &status(None, Some(NOW - DAY), None), NOW), UserRole::Author);
    assert_eq!(UserRole::resolve(5, &status(None, None, Some(NOW + DAY)), NOW), UserRole::Author);
    // The comparisons are strict.
    assert_eq!(UserRole::resolve(5, &status(Some(NOW), Some(NOW), Some(NOW)), NOW), UserRole::Author);
}

#[test]
fn from_db_reads_the_users_table() {
    let mut users = UserTable::new();
    assert_eq!(users.register("root".to_string(), None), Ok(1));
    assert_eq!(users.register("mod".to_string(), None), Ok(2));
    assert!(users.set_moderation(2, status(None, None, Some(NOW - DAY))).is_ok());
    assert_eq!(UserRole::from_db(&users, 1, NOW), Ok(UserRole::Admin));
    assert_eq!(UserRole::from_db(&users, 2, NOW), Ok(UserRole::Moderator));
    assert_eq!(UserRole::from_db(&users, 9, NOW), Err(reforum::error::StoreError::NotFound(9)));
    assert_eq!(reforum::error::StoreError::NotFound(9).status(), 404);
}

#[test]
fn duplicate_username_conflicts() {
    let mut users = UserTable::new();
    assert_eq!(users.register("alice".to_string(), None), Ok(1));
    let e = users.register("alice".to_string(), None).unwrap_err();
    assert_eq!(e, reforum::error::StoreError::Conflict);
    assert_eq!(e.status(), 409);
    assert_eq!(users.users.len(), 1);
}

#[test]
fn hidden_topic_visibility_scenario() {
    let t = hidden_topic(7);
    assert!(t.is_visible_to(&session_of(7, UserRole::Author)));
    assert!(!t.is_visible_to(&session_of(8, UserRole::Author)));
    assert!(t.is_visible_to(&session_of(8, UserRole::Moderator)));
    assert!(t.is_visible_to(&session_of(1, UserRole::Admin)));
    assert!(!t.is_visible_to(&Session::anonymous()));
}

#[test]
fn hidden_topic_query_statuses() {
    let mut store = ForumStore::new();
    let (t, _) = Topic::insert_topic(&mut store, &session_of(7, UserRole::Author), "secret", false, "body", NOW).unwrap();
    assert!(Topic::query(&store, &session_of(7, UserRole::Author), t.id).is_ok());
    let e = Topic::query(&store, &session_of(8, UserRole::Author), t.id).unwrap_err();
    assert_eq!(e, TopicError::Forbidden("8".to_string()));
    assert_eq!(e.status(), 403);
    assert!(Topic::query(&store, &session_of(8, UserRole::Moderator), t.id).is_ok());
    assert!(Topic::query(&store, &session_of(1, UserRole::Admin), t.id).is_ok());
    let e = Topic::query(&store, &Session::anonymous(), t.id).unwrap_err();
    assert_eq!(e, TopicError::Forbidden("Anonymous".to_string()));
    assert_eq!(e.status(), 403);
    assert_eq!(Topic::query(&store, &Session::anonymous(), 99).unwrap_err(), TopicError::NotFound(99));
    assert_eq!(TopicError::NotFound(99).status(), 404);
    assert_eq!(Topic::query_visibility(&store, &session_of(8, UserRole::Author), t.id), Ok(false));
    assert_eq!(Topic::query_visibility(&store, &session_of(7, UserRole::Viewer), t.id), Ok(true));
}

#[test]
fn visibility_rule_on_all_flags() {
    let author = session_of(7, UserRole::Author);
    let other = session_of(8, UserRole::Author);
    let moderator = session_of(8, UserRole::Moderator);
    // live and public: everyone
    assert!(Topic::topic_is_visible_to(7, true, &None, &other));
    assert!(Topic::topic_is_visible_to(7, true, &None, &Session::anonymous()));
    // deleted: only admin and moderator, not even the author
    assert!(!Topic::topic_is_visible_to(7, true, &Some(NOW), &author));
    assert!(Topic::topic_is_visible_to(7, false, &Some(NOW), &moderator));
    assert!(Topic::topic_is_visible_to(7, false, &Some(NOW), &session_of(1, UserRole::Admin)));
    // a banned or viewer author still sees their own hidden topic
    assert!(Topic::topic_is_visible_to(7, false, &None, &session_of(7, UserRole::Banned)));
}

#[test]
fn deleted_post_scenario() {
    let mut store = ForumStore::new();
    let author = session_of(7, UserRole::Author);
    let (t, first) = Topic::insert_topic(&mut store, &author, "open", true, "first", NOW).unwrap();
    let reply = Topic::insert_reply(&mut store, &author, t.id, "gone", true, NOW).unwrap();
    assert!(Post::soft_delete(&mut store, &session_of(8, UserRole::Moderator), reply.id, NOW + 5).is_ok());
    assert_eq!(store.posts[1].deleted_at, Some(NOW + 5));
    assert_eq!(store.posts[1].last_updated_by, Some(8));
    assert!(Post::query_by_post_id(&store, &session_of(1, UserRole::Admin), reply.id).is_ok());
    assert!(Post::query_by_post_id(&store, &session_of(8, UserRole::Moderator), reply.id).is_ok());
    let e = Post::query_by_post_id(&store, &author, reply.id).unwrap_err();
    assert_eq!(e, PostError::Forbidden("7".to_string()));
    assert_eq!(e.status(), 403);
    assert!(Post::query_by_post_id(&store, &session_of(8, UserRole::Author), reply.id).is_err());
    assert_eq!(Post::query_by_post_id(&store, &author, 77).unwrap_err(), PostError::NotFound(77));
    assert_eq!(PostError::NotFound(77).status(), 404);
    // the listing leaves it out for the author, keeps it for the moderator
    let seen: Vec<i64> = Post::query_by_topic_id(&store, &author, t.id).unwrap().iter().map(|p| p.id).collect();
    assert_eq!(seen, vec![first.id]);
    let seen: Vec<i64> = Post::query_by_topic_id(&store, &session_of(8, UserRole::Moderator), t.id).unwrap().iter().map(|p| p.id).collect();
    assert_eq!(seen, vec![first.id, reply.id]);
}

#[test]
fn post_in_hidden_topic_needs_topic_visibility() {
    let mut store = ForumStore::new();
    let author = session_of(7, UserRole::Author);
    let (_, first) = Topic::insert_topic(&mut store, &author, "hidden", false, "p", NOW).unwrap();
    store.posts[0].public = true;
    assert!(Post::query_by_post_id(&store, &author, first.id).is_ok());
    assert!(Post::query_by_post_id(&store, &session_of(8, UserRole::Author), first.id).is_err());
}

#[test]
fn create_topic_makes_topic_and_first_post() {
    let mut store = ForumStore::new();
    let (t, p) = Topic::insert_topic(&mut store, &session_of(4, UserRole::Author), "Hello", true, "World", NOW).unwrap();
    assert_eq!((t.id, t.author_user_id, t.title.as_str(), t.number_posts, t.public), (1, 4, "Hello", 1, true));
    assert_eq!((p.id, p.topic_id, p.author_user_id, p.body.as_str(), p.post_number), (1, 1, 4, "World", 1));
    assert_eq!(store.topics.len(), 1);
    assert_eq!(store.posts.len(), 1);
    assert_eq!(topic_summary(&t), "Got topic 1: Hello");
}

#[test]
fn create_topic_failure_leaves_nothing() {
    let mut store = ForumStore::new();
    for role in [UserRole::Banned, UserRole::Viewer] {
        let e = Topic::insert_topic(&mut store, &session_of(4, role), "T", true, "B", NOW).unwrap_err();
        assert_eq!(e, TopicError::Forbidden("4".to_string()));
        assert_eq!(e.status(), 403);
    }
    let e = Topic::insert_topic(&mut store, &Session::anonymous(), "T", true, "B", NOW).unwrap_err();
    assert_eq!(e, TopicError::Forbidden("Anonymous".to_string()));
    assert!(store.topics.is_empty());
    assert!(store.posts.is_empty());
    // an exhausted id space fails as an internal error, still atomically
    store.topics.push(hidden_topic(4));
    store.topics[0].id = i64::MAX;
    store.topics[0].number_posts = 0;
    let e = Topic::insert_topic(&mut store, &session_of(4, UserRole::Author), "T", true, "B", NOW).unwrap_err();
    assert_eq!(e, TopicError::Internal);
    assert_eq!(e.status(), 500);
    assert_eq!(store.topics.len(), 1);
    assert!(store.posts.is_empty());
}

#[test]
fn post_numbers_are_gapless_per_topic() {
    let mut store = ForumStore::new();
    let s = session_of(3, UserRole::Author);
    let (a, _) = Topic::insert_topic(&mut store, &s, "A", true, "a1", NOW).unwrap();
    let (b, _) = Topic::insert_topic(&mut store, &s, "B", true, "b1", NOW).unwrap();
    let a2 = Topic::insert_reply(&mut store, &s, a.id, "a2", true, NOW).unwrap();
    let b2 = Topic::insert_reply(&mut store, &s, b.id, "b2", true, NOW).unwrap();
    let a3 = Topic::insert_reply(&mut store, &s, a.id, "a3", true, NOW).unwrap();
    assert_eq!((a2.post_number, a3.post_number, b2.post_number), (2, 3, 2));
    let numbers: Vec<i64> = store.posts.iter().filter(|p| p.topic_id == a.id).map(|p| p.post_number).collect();
    assert_eq!(numbers, vec![1, 2, 3]);
    assert_eq!(store.topics[0].number_posts, 3);
    assert_eq!(store.topics[1].number_posts, 2);
    assert_eq!(Topic::insert_reply(&mut store, &s, 42, "x", true, NOW).unwrap_err(), TopicError::NotFound(42));
}

#[test]
fn greeting_for_anonymous() {
    assert_eq!(greeting(&Session::anonymous()), "Hello, Anonymous!");
    assert_eq!(greeting(&session_of(12, UserRole::Author)), "Hello, user 12!");
    assert_eq!(session_of(-3, UserRole::Author).cred_str(), "-3");
}

#[test]
fn role_predicates() {
    let a = Session::anonymous();
    assert!(a.is_anonymous() && !a.is_viewer() && !a.is_author() && !a.is_moderator() && !a.is_admin() && !a.can_post());
    assert_eq!(a.user_id(), None);
    let m = session_of(5, UserRole::Moderator);
    assert!(!m.is_anonymous() && m.is_moderator() && m.can_post());
    assert_eq!(m.user_id(), Some(5));
    assert!(session_of(5, UserRole::Viewer).is_viewer());
    assert!(!session_of(5, UserRole::Viewer).can_post());
    assert!(!session_of(5, UserRole::Banned).can_post());
    assert!(session_of(1, UserRole::Admin).can_post());
    assert!(UserRole::Author.can_post() && !UserRole::Banned.can_post());
}

#[test]
fn user_auth_resolves_role_again() {
    let mut users = UserTable::new();
    users.register("root".to_string(), None).unwrap();
    users.register("bob".to_string(), None).unwrap();
    users.set_moderation(2, status(Some(NOW - DAY), None, None)).unwrap();
    let stale = session_of(2, UserRole::Author);
    assert_eq!(UserAuth::from_session(&stale, &users, NOW), Ok(UserAuth { id: 2, role: UserRole::Banned }));
    assert_eq!(UserAuth::from_session(&Session::anonymous(), &users, NOW), Err(UserAuthError::NotLoggedIn));
    assert_eq!(UserAuthError::NotLoggedIn.status(), 403);
    assert_eq!(UserAuth::from_session(&session_of(9, UserRole::Author), &users, NOW), Err(UserAuthError::InternalError));
}

#[test]
fn pagination_offset_clamps_to_zero() {
    assert_eq!(Pagination { page: 3 }.limit(), 10);
    assert_eq!(Pagination { page: 3 }.offset(), 0);
    assert_eq!(Pagination { page: 0 }.offset(), 0);
    assert_eq!(Pagination { page: -2 }.offset(), -20);
}

#[test]
fn settings_address() {
    let s = reforum::configuration::Settings {
        session_cookie_name: reforum::configuration::SessionCookieName("sid".to_string()),
        database: reforum::configuration::SQLite3Settings { connection: "forum.db".to_string() },
        listen: "127.0.0.1".to_string(),
        port: 8080,
    };
    assert_eq!(s.address(), "127.0.0.1:8080");
}

#[test]
fn to_eyre_keeps_the_message() {
    let r = reforum::error::to_eyre("pool closed");
    assert_eq!(r.to_string(), "pool closed");
}

#[test]
fn topic_posts_lists_visible_posts_in_order() {
    let mut store = ForumStore::new();
    let author = session_of(7, UserRole::Author);
    let (t, first) = Topic::insert_topic(&mut store, &author, "t", true, "one", NOW).unwrap();
    let hidden = Topic::insert_reply(&mut store, &author, t.id, "two", false, NOW).unwrap();
    let third = Topic::insert_reply(&mut store, &author, t.id, "three", true, NOW).unwrap();
    let (other, _) = Topic::insert_topic(&mut store, &author, "u", true, "elsewhere", NOW).unwrap();
    let ids = |v: Vec<Post>| v.iter().map(|p| p.id).collect::<Vec<i64>>();
    assert_eq!(ids(t.posts(&store, &author)), vec![first.id, hidden.id, third.id]);
    assert_eq!(ids(t.posts(&store, &Session::anonymous())), vec![first.id, third.id]);
    assert_eq!(ids(other.posts(&store, &author)).len(), 1);
}

#[test]
fn soft_delete_counts_live_posts_and_keeps_numbering() {
    let mut store = ForumStore::new();
    let author = session_of(7, UserRole::Author);
    let (t, first) = Topic::insert_topic(&mut store, &author, "t", true, "one", NOW).unwrap();
    let second = Topic::insert_reply(&mut store, &author, t.id, "two", true, NOW).unwrap();
    assert_eq!(store.topics[0].number_posts, 2);
    // another author may not delete it; a viewer author may not either
    let e = Post::soft_delete(&mut store, &session_of(8, UserRole::Author), second.id, NOW).unwrap_err();
    assert_eq!(e, PostError::Forbidden("8".to_string()));
    assert!(Post::soft_delete(&mut store, &session_of(7, UserRole::Viewer), second.id, NOW).is_err());
    assert_eq!(store.topics[0].number_posts, 2);
    // its author may
    assert!(Post::soft_delete(&mut store, &author, second.id, NOW).is_ok());
    assert_eq!(store.topics[0].number_posts, 1);
    // again: nothing changes
    assert!(Post::soft_delete(&mut store, &session_of(1, UserRole::Admin), second.id, NOW + 1).is_ok());
    assert_eq!(store.topics[0].number_posts, 1);
    assert_eq!(store.posts[1].deleted_at, Some(NOW));
    // numbering goes on from all posts, deleted ones included
    let third = Topic::insert_reply(&mut store, &author, t.id, "three", true, NOW).unwrap();
    assert_eq!((first.post_number, second.post_number, third.post_number), (1, 2, 3));
    assert_eq!(store.topics[0].number_posts, 2);
    assert_eq!(store.count_posts_of(t.id), 3);
    assert_eq!(Post::soft_delete(&mut store, &author, 99, NOW).unwrap_err(), PostError::NotFound(99));
}

#[test]
fn moderator_promotion_and_demotion() {
    let mut users = UserTable::new();
    users.register("root".to_string(), None).unwrap();
    users.register("carol".to_string(), None).unwrap();
    assert!(users.assign_moderator(2, NOW - DAY).is_ok());
    assert_eq!(UserRole::from_db(&users, 2, NOW), Ok(UserRole::Moderator));
    assert_eq!(users.assign_moderator(2, NOW), Err(reforum::error::StoreError::Conflict));
    assert_eq!(users.assign_moderator(9, NOW), Err(reforum::error::StoreError::NotFound(9)));
    assert!(users.unassign_moderator(2, NOW, "inactive".to_string()).is_ok());
    assert_eq!(UserRole::from_db(&users, 2, NOW), Ok(UserRole::Author));
    assert_eq!(users.past_moderators.len(), 1);
    assert_eq!(users.past_moderators[0].user_id, 2);
    assert_eq!(users.past_moderators[0].unassigned_at, NOW);
    assert_eq!(users.past_moderators[0].reason, "inactive");
    assert_eq!(users.unassign_moderator(2, NOW, "again".to_string()), Err(reforum::error::StoreError::NotFound(2)));
    assert_eq!(users.past_moderators.len(), 1);
    // a moderator assignment in the future does not count yet
    assert!(users.assign_moderator(2, NOW + DAY).is_ok());
    assert_eq!(UserRole::from_db(&users, 2, NOW), Ok(UserRole::Author));
}

#[test]
fn exhausted_user_ids_are_an_internal_error() {
    let mut users = UserTable::new();
    users.users.push(UserRecord {
        id: i64::MAX,
        name: "last".to_string(),
        password: None,
        moderation: status(None, None, None),
    });
    let e = users.register("next".to_string(), None).unwrap_err();
    assert_eq!(e, reforum::error::StoreError::Internal);
    assert_eq!(e.status(), 500);
    assert_eq!(users.users.len(), 1);
    assert_eq!(users.register("last".to_string(), None), Err(reforum::error::StoreError::Conflict));
}

#[test]
fn tables_are_rebuilt_only_from_consistent_rows() {
    let row = |id: i64, name: &str| UserRecord { id, name: name.to_string(), password: None, moderation: status(None, None, None) };
    assert!(UserTable::from_rows(vec![row(1, "a"), row(3, "b")], vec![]).is_some());
    assert!(UserTable::from_rows(vec![row(2, "a"), row(2, "b")], vec![]).is_none());
    assert!(UserTable::from_rows(vec![row(1, "a"), row(2, "a")], vec![]).is_none());
    assert!(UserTable::from_rows(vec![row(0, "a")], vec![]).is_none());

    let mut store = ForumStore::new();
    let s = session_of(7, UserRole::Author);
    let (t, _) = Topic::insert_topic(&mut store, &s, "t", true, "one", NOW).unwrap();
    let reply = Topic::insert_reply(&mut store, &s, t.id, "two", true, NOW).unwrap();
    Post::soft_delete(&mut store, &s, reply.id, NOW).unwrap();
    let rebuilt = ForumStore::from_rows(store.topics.clone(), store.posts.clone()).expect("consistent");
    assert_eq!(rebuilt.topics[0].number_posts, 1);
    let mut bad_count = store.topics.clone();
    bad_count[0].number_posts = 2;
    assert!(ForumStore::from_rows(bad_count, store.posts.clone()).is_none());
    let mut bad_number = store.posts.clone();
    bad_number[1].post_number = 5;
    assert!(ForumStore::from_rows(store.topics.clone(), bad_number).is_none());
    let mut orphan = store.posts.clone();
    orphan[1].topic_id = 9;
    assert!(ForumStore::from_rows(store.topics.clone(), orphan).is_none());
}

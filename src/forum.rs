//! Topics and their posts: creation, replies, and visibility-checked queries.
use vstd::prelude::*;
use crate::error::{STATUS_FORBIDDEN, STATUS_INTERNAL, STATUS_NOT_FOUND};
use crate::role::{Timestamp, UserRole};
use crate::session::Session;
use crate::visibility::{is_visible, visible_to};

verus! {

/// A topic row.
#[derive(Debug)]
pub struct Topic {
    pub id: i64,
    pub author_user_id: i64,
    pub title: String,
    pub number_posts: i64,
    pub public: bool,
    pub created_at: Timestamp,
    pub updated_at: Option<Timestamp>,
    pub deleted_at: Option<Timestamp>,
    pub last_updated_by: Option<i64>,
    pub views_from_users: i64,
}

/// A post row; `post_number` is its 1-based place within its topic.
#[derive(Debug)]
pub struct Post {
    pub id: i64,
    pub topic_id: i64,
    pub author_user_id: i64,
    pub body: String,
    pub post_number: i64,
    pub public: bool,
    pub created_at: Timestamp,
    pub updated_at: Option<Timestamp>,
    pub deleted_at: Option<Timestamp>,
    pub last_updated_by: Option<i64>,
}

impl Clone for Topic {
    fn clone(&self) -> (r: Topic)
        ensures
            r == *self,
    {
        Topic {
            id: self.id,
            author_user_id: self.author_user_id,
            title: self.title.clone(),
            number_posts: self.number_posts,
            public: self.public,
            created_at: self.created_at,
            updated_at: self.updated_at,
            deleted_at: self.deleted_at,
            last_updated_by: self.last_updated_by,
            views_from_users: self.views_from_users,
        }
    }
}

impl Clone for Post {
    fn clone(&self) -> (r: Post)
        ensures
            r == *self,
    {
        Post {
            id: self.id,
            topic_id: self.topic_id,
            author_user_id: self.author_user_id,
            body: self.body.clone(),
            post_number: self.post_number,
            public: self.public,
            created_at: self.created_at,
            updated_at: self.updated_at,
            deleted_at: self.deleted_at,
            last_updated_by: self.last_updated_by,
        }
    }
}

/// Failure of a topic operation.
#[derive(Debug, Clone, PartialEq, Eq)]
pub enum TopicError {
    NotFound(i64),
    /// The session (named by its credential text) may not do this.
    Forbidden(String),
    /// The session claims a posting role but has no user, or an id space is used up.
    Internal,
}

impl TopicError {
    /// HTTP status that this error is answered with.
    pub fn status(&self) -> (r: u16)
        ensures
            r == (match *self {
                TopicError::NotFound(_) => STATUS_NOT_FOUND,
                TopicError::Forbidden(_) => STATUS_FORBIDDEN,
                TopicError::Internal => STATUS_INTERNAL,
            }),
    {
        match self {
            TopicError::NotFound(_) => STATUS_NOT_FOUND,
            TopicError::Forbidden(_) => STATUS_FORBIDDEN,
            TopicError::Internal => STATUS_INTERNAL,
        }
    }
}

/// Failure of a post lookup.
#[derive(Debug, Clone, PartialEq, Eq)]
pub enum PostError {
    NotFound(i64),
    Forbidden(String),
}

impl PostError {
    /// HTTP status that this error is answered with.
    pub fn status(&self) -> (r: u16)
        ensures
            r == (match *self {
                PostError::NotFound(_) => STATUS_NOT_FOUND,
                PostError::Forbidden(_) => STATUS_FORBIDDEN,
            }),
    {
        match self {
            PostError::NotFound(_) => STATUS_NOT_FOUND,
            PostError::Forbidden(_) => STATUS_FORBIDDEN,
        }
    }
}

/// How many of `posts` belong to topic `topic_id`.
pub open spec fn posts_in_topic(posts: Seq<Post>, topic_id: i64) -> nat
    decreases posts.len(),
{
    if posts.len() == 0 {
        0
    } else {
        posts_in_topic(posts.drop_last(), topic_id) + if posts.last().topic_id == topic_id {
            1nat
        } else {
            0nat
        }
    }
}

/// How many of `posts` belong to topic `topic_id` and are not soft-deleted.
pub open spec fn live_posts_in_topic(posts: Seq<Post>, topic_id: i64) -> nat
    decreases posts.len(),
{
    if posts.len() == 0 {
        0
    } else {
        live_posts_in_topic(posts.drop_last(), topic_id) + if posts.last().topic_id == topic_id
            && posts.last().deleted_at is None {
            1nat
        } else {
            0nat
        }
    }
}

/// The posts of topic `topic_id` that `session` may see, in creation order.
pub open spec fn visible_posts_of(posts: Seq<Post>, topic_id: i64, session: Session) -> Seq<Post>
    decreases posts.len(),
{
    if posts.len() == 0 {
        Seq::empty()
    } else {
        let p = posts.last();
        let rest = visible_posts_of(posts.drop_last(), topic_id, session);
        if p.topic_id == topic_id && visible_to(p.author_user_id, p.public, p.deleted_at is Some, session) {
            rest.push(p)
        } else {
            rest
        }
    }
}

impl Topic {
    /// Whether `session` may see this topic.
    pub open spec fn visible_for(&self, session: Session) -> bool {
        visible_to(self.author_user_id, self.public, self.deleted_at is Some, session)
    }
}

impl Post {
    /// Whether `session` may see this post, its topic aside.
    pub open spec fn visible_for(&self, session: Session) -> bool {
        visible_to(self.author_user_id, self.public, self.deleted_at is Some, session)
    }
}

/// Topics and posts, in creation order.
pub struct ForumStore {
    pub topics: Vec<Topic>,
    pub posts: Vec<Post>,
}

impl ForumStore {
    /// Ids increase with creation; every post belongs to a stored topic and
    /// is numbered by its place in that topic; each topic counts its posts
    /// that are not soft-deleted.
    pub open spec fn wf(&self) -> bool {
        &&& forall|i: int, j: int|
            0 <= i < j < self.topics@.len() ==> #[trigger] self.topics@[i].id
                < #[trigger] self.topics@[j].id
        &&& forall|i: int| 0 <= i < self.topics@.len() ==> #[trigger] self.topics@[i].id >= 1
        &&& forall|i: int, j: int|
            0 <= i < j < self.posts@.len() ==> #[trigger] self.posts@[i].id
                < #[trigger] self.posts@[j].id
        &&& forall|i: int| 0 <= i < self.posts@.len() ==> #[trigger] self.posts@[i].id >= 1
        &&& forall|i: int|
            0 <= i < self.posts@.len() ==> self.has_topic(#[trigger] self.posts@[i].topic_id)
        &&& forall|i: int|
            0 <= i < self.posts@.len() ==> #[trigger] self.posts@[i].post_number == posts_in_topic(
                self.posts@.take(i + 1),
                self.posts@[i].topic_id,
            )
        &&& forall|i: int|
            0 <= i < self.topics@.len() ==> #[trigger] self.topics@[i].number_posts
                == live_posts_in_topic(self.posts@, self.topics@[i].id)
    }

    /// Whether a topic with this id exists.
    pub open spec fn has_topic(&self, id: i64) -> bool {
        exists|i: int| 0 <= i < self.topics@.len() && #[trigger] self.topics@[i].id == id
    }

    /// The topic with this id, when [`Self::has_topic`].
    pub open spec fn topic_of(&self, id: i64) -> Topic {
        self.topics@[choose|i: int| 0 <= i < self.topics@.len() && #[trigger] self.topics@[i].id == id]
    }

    /// Whether a post with this id exists.
    pub open spec fn has_post(&self, id: i64) -> bool {
        exists|i: int| 0 <= i < self.posts@.len() && #[trigger] self.posts@[i].id == id
    }

    /// The post with this id, when [`Self::has_post`].
    pub open spec fn post_of(&self, id: i64) -> Post {
        self.posts@[choose|i: int| 0 <= i < self.posts@.len() && #[trigger] self.posts@[i].id == id]
    }

    /// The id the next topic gets, if the id space allows one.
    pub open spec fn next_topic_id(&self) -> int {
        if self.topics@.len() == 0 { 1 } else { self.topics@.last().id + 1 }
    }

    /// The id the next post gets, if the id space allows one.
    pub open spec fn next_post_id(&self) -> int {
        if self.posts@.len() == 0 { 1 } else { self.posts@.last().id + 1 }
    }

    /// An empty store.
    pub fn new() -> (r: ForumStore)
        ensures
            r.wf(),
            r.topics@.len() == 0,
            r.posts@.len() == 0,
    {
        ForumStore { topics: Vec::new(), posts: Vec::new() }
    }

    /// Index of the topic with this id.
    pub fn find_topic(&self, id: i64) -> (r: Option<usize>)
        requires
            self.wf(),
        ensures
            r is None <==> !self.has_topic(id),
            r matches Some(i) ==> i < self.topics@.len() && self.topics@[i as int].id == id
                && self.topic_of(id) == self.topics@[i as int],
    {
        let mut i: usize = 0;
        while i < self.topics.len()
            invariant
                self.wf(),
                i <= self.topics@.len(),
                forall|k: int| 0 <= k < i ==> #[trigger] self.topics@[k].id != id,
            decreases self.topics@.len() - i,
        {
            if self.topics[i].id == id {
                proof {
                    let j = choose|j: int| 0 <= j < self.topics@.len() && #[trigger] self.topics@[j].id == id;
                    if j > i {
                        assert(self.topics@[i as int].id < self.topics@[j].id);
                    }
                }
                return Some(i);
            }
            i += 1;
        }
        None
    }

    /// How many posts topic `topic_id` has, soft-deleted ones included.
    pub fn count_posts_of(&self, topic_id: i64) -> (r: u64)
        ensures
            r == posts_in_topic(self.posts@, topic_id),
    {
        let mut count: u64 = 0;
        let mut i: usize = 0;
        while i < self.posts.len()
            invariant
                i <= self.posts@.len(),
                count == posts_in_topic(self.posts@.take(i as int), topic_id),
            decreases self.posts@.len() - i,
        {
            proof {
                assert(self.posts@.take(i + 1).drop_last() =~= self.posts@.take(i as int));
                lemma_count_bounded(self.posts@.take(i as int), topic_id);
            }
            if self.posts[i].topic_id == topic_id {
                count = count + 1;
            }
            i += 1;
        }
        proof {
            assert(self.posts@.take(self.posts@.len() as int) =~= self.posts@);
        }
        count
    }

    /// Index of the post with this id.
    pub fn find_post(&self, id: i64) -> (r: Option<usize>)
        requires
            self.wf(),
        ensures
            r is None <==> !self.has_post(id),
            r matches Some(i) ==> i < self.posts@.len() && self.posts@[i as int].id == id
                && self.post_of(id) == self.posts@[i as int],
    {
        let mut i: usize = 0;
        while i < self.posts.len()
            invariant
                self.wf(),
                i <= self.posts@.len(),
                forall|k: int| 0 <= k < i ==> #[trigger] self.posts@[k].id != id,
            decreases self.posts@.len() - i,
        {
            if self.posts[i].id == id {
                proof {
                    let j = choose|j: int| 0 <= j < self.posts@.len() && #[trigger] self.posts@[j].id == id;
                    if j > i {
                        assert(self.posts@[i as int].id < self.posts@[j].id);
                    }
                }
                return Some(i);
            }
            i += 1;
        }
        None
    }
}

/// Appending a post adds one to its own topic's count and nothing to the others.
pub proof fn lemma_count_push(posts: Seq<Post>, p: Post, topic_id: i64)
    ensures
        posts_in_topic(posts.push(p), topic_id) == posts_in_topic(posts, topic_id) + if p.topic_id
            == topic_id {
            1nat
        } else {
            0nat
        },
{
    assert(posts.push(p).drop_last() =~= posts);
}

/// Appending a live post adds one to its own topic's live count only.
pub proof fn lemma_live_count_push(posts: Seq<Post>, p: Post, topic_id: i64)
    ensures
        live_posts_in_topic(posts.push(p), topic_id) == live_posts_in_topic(posts, topic_id) + if p.topic_id
            == topic_id && p.deleted_at is None {
            1nat
        } else {
            0nat
        },
{
    assert(posts.push(p).drop_last() =~= posts);
}

/// A topic has no more live posts than posts.
pub proof fn lemma_live_count_le(posts: Seq<Post>, topic_id: i64)
    ensures
        live_posts_in_topic(posts, topic_id) <= posts_in_topic(posts, topic_id),
    decreases posts.len(),
{
    if posts.len() > 0 {
        lemma_live_count_le(posts.drop_last(), topic_id);
    }
}

/// Replacing a post by one of the same topic keeps every topic's count, and
/// soft-deleting a live post takes one from its topic's live count.
pub proof fn lemma_count_update(posts: Seq<Post>, i: int, q: Post, topic_id: i64)
    requires
        0 <= i < posts.len(),
        q.topic_id == posts[i].topic_id,
    ensures
        posts_in_topic(posts.update(i, q), topic_id) == posts_in_topic(posts, topic_id),
        live_posts_in_topic(posts.update(i, q), topic_id) + (if posts[i].topic_id == topic_id
            && posts[i].deleted_at is None {
            1nat
        } else {
            0nat
        }) == live_posts_in_topic(posts, topic_id) + (if q.topic_id == topic_id && q.deleted_at is None {
            1nat
        } else {
            0nat
        }),
    decreases posts.len(),
{
    let u = posts.update(i, q);
    if i == posts.len() - 1 {
        assert(u.drop_last() =~= posts.drop_last());
    } else {
        assert(u.drop_last() =~= posts.drop_last().update(i, q));
        lemma_count_update(posts.drop_last(), i, q, topic_id);
    }
}

/// A topic that no post names has no posts.
pub proof fn lemma_count_absent(posts: Seq<Post>, topic_id: i64)
    requires
        forall|i: int| 0 <= i < posts.len() ==> #[trigger] posts[i].topic_id != topic_id,
    ensures
        posts_in_topic(posts, topic_id) == 0,
        live_posts_in_topic(posts, topic_id) == 0,
    decreases posts.len(),
{
    if posts.len() > 0 {
        let rest = posts.drop_last();
        assert forall|i: int| 0 <= i < rest.len() implies #[trigger] rest[i].topic_id != topic_id by {
            assert(rest[i] == posts[i]);
        }
        lemma_count_absent(rest, topic_id);
    }
    lemma_live_count_le(posts, topic_id);
}

/// A count never exceeds the number of posts counted.
pub proof fn lemma_count_bounded(posts: Seq<Post>, topic_id: i64)
    ensures
        posts_in_topic(posts, topic_id) <= posts.len(),
    decreases posts.len(),
{
    if posts.len() > 0 {
        lemma_count_bounded(posts.drop_last(), topic_id);
    }
}

impl ForumStore {
    /// Keeps the numbering invariant across appending post `p`, whose number
    /// is one more than its topic's count, and the matching count update.
    proof fn lemma_push_post_keeps_numbering(old_posts: Seq<Post>, p: Post)
        requires
            forall|i: int|
                0 <= i < old_posts.len() ==> #[trigger] old_posts[i].post_number == posts_in_topic(
                    old_posts.take(i + 1),
                    old_posts[i].topic_id,
                ),
            p.post_number == posts_in_topic(old_posts, p.topic_id) + 1,
        ensures
            forall|i: int|
                0 <= i < old_posts.len() + 1 ==> #[trigger] old_posts.push(p)[i].post_number
                    == posts_in_topic(old_posts.push(p).take(i + 1), old_posts.push(p)[i].topic_id),
    {
        let np = old_posts.push(p);
        assert forall|i: int| 0 <= i < old_posts.len() + 1 implies #[trigger] np[i].post_number
            == posts_in_topic(np.take(i + 1), np[i].topic_id) by {
            if i < old_posts.len() {
                assert(np.take(i + 1) =~= old_posts.take(i + 1));
            } else {
                assert(np.take(i + 1) =~= old_posts.push(p));
                assert(old_posts.push(p).drop_last() =~= old_posts);
            }
        }
    }
}

impl Topic {
    /// Whether `session` may see this topic.
    pub fn is_visible_to(&self, session: &Session) -> (r: bool)
        ensures
            r == self.visible_for(*session),
    {
        Self::topic_is_visible_to(self.author_user_id, self.public, &self.deleted_at, session)
    }

    /// The visibility rule on a topic's author, public flag and deletion instant.
    pub fn topic_is_visible_to(
        author_user_id: i64,
        public: bool,
        deleted_at: &Option<Timestamp>,
        session: &Session,
    ) -> (r: bool)
        ensures
            r == visible_to(author_user_id, public, deleted_at is Some, *session),
    {
        is_visible(author_user_id, public, deleted_at, session)
    }

    /// The topic with this id, if the session may see it.
    pub fn query(store: &ForumStore, session: &Session, id: i64) -> (r: Result<Topic, TopicError>)
        requires
            store.wf(),
        ensures
            !store.has_topic(id) ==> r == Err::<Topic, TopicError>(TopicError::NotFound(id)),
            store.has_topic(id) && !store.topic_of(id).visible_for(*session) ==> (r matches Err(
                TopicError::Forbidden(s),
            ) && s@ == session.cred_text()),
            store.has_topic(id) && store.topic_of(id).visible_for(*session) ==> r == Ok::<
                Topic,
                TopicError,
            >(store.topic_of(id)),
    {
        match store.find_topic(id) {
            None => Err(TopicError::NotFound(id)),
            Some(i) => {
                let topic = &store.topics[i];
                if topic.is_visible_to(session) {
                    Ok(topic.clone())
                } else {
                    Err(TopicError::Forbidden(session.cred_str()))
                }
            },
        }
    }

    /// Whether the session may see the topic with this id.
    pub fn query_visibility(store: &ForumStore, session: &Session, id: i64) -> (r: Result<
        bool,
        TopicError,
    >)
        requires
            store.wf(),
        ensures
            !store.has_topic(id) ==> r == Err::<bool, TopicError>(TopicError::NotFound(id)),
            store.has_topic(id) ==> r == Ok::<bool, TopicError>(
                store.topic_of(id).visible_for(*session),
            ),
    {
        match store.find_topic(id) {
            None => Err(TopicError::NotFound(id)),
            Some(i) => {
                let t = &store.topics[i];
                Ok(Self::topic_is_visible_to(t.author_user_id, t.public, &t.deleted_at, session))
            },
        }
    }

    /// Creates a topic together with its first post, as one unit: on any
    /// failure the store is left exactly as it was.
    pub fn insert_topic(
        store: &mut ForumStore,
        session: &Session,
        title: &str,
        public: bool,
        body: &str,
        now: Timestamp,
    ) -> (r: Result<(Topic, Post), TopicError>)
        requires
            old(store).wf(),
        ensures
            final(store).wf(),
            r is Err ==> *final(store) == *old(store),
            !session.may_post() ==> (r matches Err(TopicError::Forbidden(s)) && s@
                == session.cred_text()),
            session.may_post() && r is Err ==> r == Err::<(Topic, Post), TopicError>(
                TopicError::Internal,
            ),
            session.may_post() && old(store).next_topic_id() <= i64::MAX && old(store).next_post_id()
                <= i64::MAX ==> r is Ok,
            r matches Ok((t, p)) ==> {
                &&& session.uid() == Some(t.author_user_id)
                &&& t.id == old(store).next_topic_id()
                &&& t.title@ == title@
                &&& t.number_posts == 1
                &&& t.public == public
                &&& t.created_at == now
                &&& t.updated_at is None && t.deleted_at is None && t.last_updated_by is None
                &&& t.views_from_users == 0
                &&& p.id == old(store).next_post_id()
                &&& p.topic_id == t.id
                &&& p.author_user_id == t.author_user_id
                &&& p.body@ == body@
                &&& p.post_number == 1
                &&& p.public == public
                &&& p.created_at == now
                &&& p.updated_at is None && p.deleted_at is None && p.last_updated_by is None
                &&& final(store).topics@ == old(store).topics@.push(t)
                &&& final(store).posts@ == old(store).posts@.push(p)
            },
    {
        if !session.can_post() {
            return Err(TopicError::Forbidden(session.cred_str()));
        }
        let user_id = match session.user_id() {
            Some(u) => u,
            None => {
                return Err(TopicError::Internal);
            },
        };
        let nt = store.topics.len();
        let topic_id: i64 = if nt == 0 {
            1
        } else {
            let last = store.topics[nt - 1].id;
            if last == i64::MAX {
                return Err(TopicError::Internal);
            }
            last + 1
        };
        let np = store.posts.len();
        let post_id: i64 = if np == 0 {
            1
        } else {
            let last = store.posts[np - 1].id;
            if last == i64::MAX {
                return Err(TopicError::Internal);
            }
            last + 1
        };
        let topic = Topic {
            id: topic_id,
            author_user_id: user_id,
            title: title.to_owned(),
            number_posts: 1,
            public,
            created_at: now,
            updated_at: None,
            deleted_at: None,
            last_updated_by: None,
            views_from_users: 0,
        };
        let post = Post {
            id: post_id,
            topic_id,
            author_user_id: user_id,
            body: body.to_owned(),
            post_number: 1,
            public,
            created_at: now,
            updated_at: None,
            deleted_at: None,
            last_updated_by: None,
        };
        let ghost old_topics = store.topics@;
        let ghost old_posts = store.posts@;
        proof {
            assert forall|k: int| 0 <= k < old_topics.len() implies old_topics[k].id < topic_id by {
                if k < nt - 1 {
                    assert(old_topics[k].id < old_topics[nt - 1].id);
                }
            }
            assert forall|k: int| 0 <= k < old_posts.len() implies old_posts[k].id < post_id by {
                if k < np - 1 {
                    assert(old_posts[k].id < old_posts[np - 1].id);
                }
            }
            assert forall|k: int| 0 <= k < old_posts.len() implies #[trigger] old_posts[k].topic_id
                != topic_id by {
                assert(store.has_topic(old_posts[k].topic_id));
                let j = choose|j: int|
                    0 <= j < old_topics.len() && #[trigger] old_topics[j].id == old_posts[k].topic_id;
                assert(old_topics[j].id < topic_id);
            }
            lemma_count_absent(old_posts, topic_id);
            Self::lemma_count_push_all(old_posts, post);
            ForumStore::lemma_push_post_keeps_numbering(old_posts, post);
        }
        let t = topic.clone();
        let p = post.clone();
        store.topics.push(topic);
        store.posts.push(post);
        proof {
            let ts = store.topics@;
            let ps = store.posts@;
            assert forall|k: int| 0 <= k < ps.len() implies store.has_topic(#[trigger] ps[k].topic_id) by {
                if k < old_posts.len() {
                    assert(old(store).has_topic(old_posts[k].topic_id));
                    let j = choose|j: int|
                        0 <= j < old_topics.len() && #[trigger] old_topics[j].id == old_posts[k].topic_id;
                    assert(ts[j].id == ps[k].topic_id);
                } else {
                    assert(ts[nt as int].id == ps[k].topic_id);
                }
            }
            assert forall|k: int| 0 <= k < ts.len() implies #[trigger] ts[k].number_posts
                == live_posts_in_topic(ps, ts[k].id) by {
                lemma_live_count_push(old_posts, p, ts[k].id);
            }
        }
        Ok((t, p))
    }

    /// Every stored post keeps its topic's count when a post of another topic
    /// is appended: a statement of [`lemma_count_push`] for all topics at once.
    proof fn lemma_count_push_all(posts: Seq<Post>, p: Post)
        ensures
            forall|tid: i64|
                #[trigger] posts_in_topic(posts.push(p), tid) == posts_in_topic(posts, tid) + if p.topic_id
                    == tid {
                    1nat
                } else {
                    0nat
                },
    {
        assert forall|tid: i64|
            #[trigger] posts_in_topic(posts.push(p), tid) == posts_in_topic(posts, tid) + if p.topic_id
                == tid {
                1nat
            } else {
                0nat
            } by {
            lemma_count_push(posts, p, tid);
        }
    }
}

impl Topic {
    /// Appends a reply to a topic the session may see; the reply is numbered
    /// one past the topic's posts so far, and the topic's count of posts that
    /// are not soft-deleted grows by one.
    pub fn insert_reply(
        store: &mut ForumStore,
        session: &Session,
        topic_id: i64,
        body: &str,
        public: bool,
        now: Timestamp,
    ) -> (r: Result<Post, TopicError>)
        requires
            old(store).wf(),
        ensures
            final(store).wf(),
            r is Err ==> *final(store) == *old(store),
            !session.may_post() ==> (r matches Err(TopicError::Forbidden(s)) && s@
                == session.cred_text()),
            session.may_post() && !old(store).has_topic(topic_id) ==> r == Err::<Post, TopicError>(
                TopicError::NotFound(topic_id),
            ),
            session.may_post() && old(store).has_topic(topic_id) && !old(store).topic_of(
                topic_id,
            ).visible_for(*session) ==> (r matches Err(TopicError::Forbidden(s)) && s@
                == session.cred_text()),
            session.may_post() && old(store).has_topic(topic_id) && old(store).topic_of(
                topic_id,
            ).visible_for(*session) && old(store).next_post_id() <= i64::MAX && old(store).topic_of(
                topic_id,
            ).number_posts < i64::MAX && posts_in_topic(old(store).posts@, topic_id) < i64::MAX
                ==> r is Ok,
            r matches Ok(p) ==> {
                &&& session.uid() == Some(p.author_user_id)
                &&& p.id == old(store).next_post_id()
                &&& p.topic_id == topic_id
                &&& p.body@ == body@
                &&& p.post_number == posts_in_topic(old(store).posts@, topic_id) + 1
                &&& p.public == public
                &&& p.created_at == now
                &&& p.updated_at is None && p.deleted_at is None && p.last_updated_by is None
                &&& final(store).posts@ == old(store).posts@.push(p)
                &&& final(store).topics@.len() == old(store).topics@.len()
                &&& forall|k: int|
                    0 <= k < old(store).topics@.len() ==> {
                        let (a, b) = (old(store).topics@[k], #[trigger] final(store).topics@[k]);
                        b == if a.id == topic_id {
                            Topic { number_posts: (a.number_posts + 1) as i64, ..a }
                        } else {
                            a
                        }
                    }
            },
    {
        if !session.can_post() {
            return Err(TopicError::Forbidden(session.cred_str()));
        }
        let user_id = match session.user_id() {
            Some(u) => u,
            None => {
                return Err(TopicError::Internal);
            },
        };
        let ti = match store.find_topic(topic_id) {
            Some(ti) => ti,
            None => {
                return Err(TopicError::NotFound(topic_id));
            },
        };
        if !store.topics[ti].is_visible_to(session) {
            return Err(TopicError::Forbidden(session.cred_str()));
        }
        let count = store.topics[ti].number_posts;
        if count == i64::MAX {
            return Err(TopicError::Internal);
        }
        let total = store.count_posts_of(topic_id);
        if total >= 0x7fff_ffff_ffff_ffff {
            return Err(TopicError::Internal);
        }
        let np = store.posts.len();
        let post_id: i64 = if np == 0 {
            1
        } else {
            let last = store.posts[np - 1].id;
            if last == i64::MAX {
                return Err(TopicError::Internal);
            }
            last + 1
        };
        let post = Post {
            id: post_id,
            topic_id,
            author_user_id: user_id,
            body: body.to_owned(),
            post_number: total as i64 + 1,
            public,
            created_at: now,
            updated_at: None,
            deleted_at: None,
            last_updated_by: None,
        };
        let ghost old_topics = store.topics@;
        let ghost old_posts = store.posts@;
        proof {
            assert forall|k: int| 0 <= k < old_posts.len() implies old_posts[k].id < post_id by {
                if k < np - 1 {
                    assert(old_posts[k].id < old_posts[np - 1].id);
                }
            }
            Self::lemma_count_push_all(old_posts, post);
            ForumStore::lemma_push_post_keeps_numbering(old_posts, post);
        }
        let p = post.clone();
        store.posts.push(post);
        let mut topic = store.topics.remove(ti);
        topic.number_posts = count + 1;
        store.topics.insert(ti, topic);
        proof {
            let ts = store.topics@;
            let ps = store.posts@;
            assert forall|k: int| 0 <= k < old_topics.len() implies #[trigger] ts[k] == if old_topics[k].id
                == topic_id {
                Topic { number_posts: (old_topics[k].number_posts + 1) as i64, ..old_topics[k] }
            } else {
                old_topics[k]
            } by {
                if k != ti {
                    assert(ts[k] == old_topics[k]);
                    if k < ti {
                        assert(old_topics[k].id < old_topics[ti as int].id);
                    } else {
                        assert(old_topics[ti as int].id < old_topics[k].id);
                    }
                }
            }
            assert forall|a: int, b: int| 0 <= a < b < ts.len() implies #[trigger] ts[a].id
                < #[trigger] ts[b].id by {
                assert(old_topics[a].id < old_topics[b].id);
            }
            assert forall|k: int| 0 <= k < ts.len() implies #[trigger] ts[k].id >= 1 by {
                assert(old_topics[k].id >= 1);
            }
            assert forall|k: int| 0 <= k < ps.len() implies store.has_topic(#[trigger] ps[k].topic_id) by {
                if k < old_posts.len() {
                    assert(old(store).has_topic(old_posts[k].topic_id));
                    let j = choose|j: int|
                        0 <= j < old_topics.len() && #[trigger] old_topics[j].id == old_posts[k].topic_id;
                    assert(ts[j].id == ps[k].topic_id);
                } else {
                    assert(ts[ti as int].id == ps[k].topic_id);
                }
            }
            assert forall|k: int| 0 <= k < ts.len() implies #[trigger] ts[k].number_posts
                == live_posts_in_topic(ps, ts[k].id) by {
                assert(old_topics[k].number_posts == live_posts_in_topic(old_posts, old_topics[k].id));
                lemma_live_count_push(old_posts, p, ts[k].id);
            }
        }
        Ok(p)
    }
}

impl Topic {
    /// The posts of this topic that the session may see, in creation order.
    pub fn posts(&self, store: &ForumStore, session: &Session) -> (r: Vec<Post>)
        ensures
            r@ == visible_posts_of(store.posts@, self.id, *session),
    {
        let mut out: Vec<Post> = Vec::new();
        let mut i: usize = 0;
        while i < store.posts.len()
            invariant
                i <= store.posts@.len(),
                out@ == visible_posts_of(store.posts@.take(i as int), self.id, *session),
            decreases store.posts@.len() - i,
        {
            let p = &store.posts[i];
            proof {
                assert(store.posts@.take(i + 1).drop_last() =~= store.posts@.take(i as int));
            }
            if p.topic_id == self.id && p.is_visible_to(session) {
                out.push(p.clone());
            }
            i += 1;
        }
        proof {
            assert(store.posts@.take(store.posts@.len() as int) =~= store.posts@);
        }
        out
    }
}

impl Post {
    /// Whether `session` may see this post, its topic aside.
    pub fn is_visible_to(&self, session: &Session) -> (r: bool)
        ensures
            r == self.visible_for(*session),
    {
        is_visible(self.author_user_id, self.public, &self.deleted_at, session)
    }

    /// The post with this id, if the session may see both it and its topic.
    pub fn query_by_post_id(store: &ForumStore, session: &Session, post_id: i64) -> (r: Result<
        Post,
        PostError,
    >)
        requires
            store.wf(),
        ensures
            !store.has_post(post_id) ==> r == Err::<Post, PostError>(PostError::NotFound(post_id)),
            store.has_post(post_id) ==> {
                let p = store.post_of(post_id);
                let shown = p.visible_for(*session) && store.topic_of(p.topic_id).visible_for(
                    *session,
                );
                &&& shown ==> r == Ok::<Post, PostError>(p)
                &&& !shown ==> (r matches Err(PostError::Forbidden(s)) && s@ == session.cred_text())
            },
    {
        match store.find_post(post_id) {
            None => Err(PostError::NotFound(post_id)),
            Some(i) => {
                let post = &store.posts[i];
                proof {
                    assert(store.has_topic(post.topic_id));
                }
                let topic_shown = match store.find_topic(post.topic_id) {
                    Some(ti) => store.topics[ti].is_visible_to(session),
                    None => false,
                };
                if post.is_visible_to(session) && topic_shown {
                    Ok(post.clone())
                } else {
                    Err(PostError::Forbidden(session.cred_str()))
                }
            },
        }
    }

    /// The posts of a topic that the session may see, in creation order; the
    /// topic itself must exist and be visible.
    pub fn query_by_topic_id(store: &ForumStore, session: &Session, topic_id: i64) -> (r: Result<
        Vec<Post>,
        TopicError,
    >)
        requires
            store.wf(),
        ensures
            !store.has_topic(topic_id) ==> r == Err::<Vec<Post>, TopicError>(
                TopicError::NotFound(topic_id),
            ),
            store.has_topic(topic_id) && !store.topic_of(topic_id).visible_for(*session) ==> (r matches Err(
                TopicError::Forbidden(s),
            ) && s@ == session.cred_text()),
            store.has_topic(topic_id) && store.topic_of(topic_id).visible_for(*session) ==> (r matches Ok(
                v,
            ) && v@ == visible_posts_of(store.posts@, topic_id, *session)),
    {
        match store.find_topic(topic_id) {
            None => Err(TopicError::NotFound(topic_id)),
            Some(ti) => {
                let topic = &store.topics[ti];
                if topic.is_visible_to(session) {
                    Ok(topic.posts(store, session))
                } else {
                    Err(TopicError::Forbidden(session.cred_str()))
                }
            },
        }
    }
}

impl Post {
    /// Whether `session` may soft-delete this post: an admin, a moderator,
    /// or its author while allowed to post.
    pub open spec fn deletable_by(&self, session: Session) -> bool {
        session.has_role(UserRole::Admin) || session.has_role(UserRole::Moderator) || (session.uid()
            == Some(self.author_user_id) && session.may_post())
    }

    /// Soft-deletes a post at `now`: it stays stored, marked deleted and
    /// updated by the session's user, and its topic counts one live post
    /// less. Deleting a deleted post changes nothing.
    pub fn soft_delete(store: &mut ForumStore, session: &Session, post_id: i64, now: Timestamp) -> (r:
        Result<(), PostError>)
        requires
            old(store).wf(),
        ensures
            final(store).wf(),
            r is Err ==> *final(store) == *old(store),
            !old(store).has_post(post_id) ==> r == Err::<(), PostError>(PostError::NotFound(post_id)),
            old(store).has_post(post_id) && !old(store).post_of(post_id).deletable_by(*session) ==> (r matches Err(
                PostError::Forbidden(s),
            ) && s@ == session.cred_text()),
            old(store).has_post(post_id) && old(store).post_of(post_id).deletable_by(*session) ==> {
                let p = old(store).post_of(post_id);
                &&& r is Ok
                &&& p.deleted_at is Some ==> *final(store) == *old(store)
                &&& p.deleted_at is None ==> {
                    &&& final(store).posts@.len() == old(store).posts@.len()
                    &&& forall|k: int|
                        0 <= k < old(store).posts@.len() ==> {
                            let (a, b) = (old(store).posts@[k], #[trigger] final(store).posts@[k]);
                            b == if a.id == post_id {
                                Post { deleted_at: Some(now), last_updated_by: session.uid(), ..a }
                            } else {
                                a
                            }
                        }
                    &&& final(store).topics@.len() == old(store).topics@.len()
                    &&& forall|k: int|
                        0 <= k < old(store).topics@.len() ==> {
                            let (a, b) = (old(store).topics@[k], #[trigger] final(store).topics@[k]);
                            b == if a.id == p.topic_id {
                                Topic { number_posts: (a.number_posts - 1) as i64, ..a }
                            } else {
                                a
                            }
                        }
                }
            },
    {
        let i = match store.find_post(post_id) {
            None => {
                return Err(PostError::NotFound(post_id));
            },
            Some(i) => i,
        };
        let allowed = session.is_admin() || session.is_moderator() || (session.user_id() == Some(
            store.posts[i].author_user_id,
        ) && session.can_post());
        if !allowed {
            return Err(PostError::Forbidden(session.cred_str()));
        }
        if store.posts[i].deleted_at.is_some() {
            return Ok(());
        }
        let tid = store.posts[i].topic_id;
        proof {
            assert(store.has_topic(store.posts@[i as int].topic_id));
        }
        let ti = match store.find_topic(tid) {
            Some(ti) => ti,
            None => {
                return Err(PostError::NotFound(post_id));
            },
        };
        let ghost old_posts = store.posts@;
        let ghost old_topics = store.topics@;
        let mut post = store.posts.remove(i);
        post.deleted_at = Some(now);
        post.last_updated_by = session.user_id();
        let ghost q = post;
        store.posts.insert(i, post);
        proof {
            assert(store.posts@ =~= old_posts.update(i as int, q));
            lemma_count_update(old_posts, i as int, q, tid);
        }
        let count = store.topics[ti].number_posts;
        let mut topic = store.topics.remove(ti);
        topic.number_posts = count - 1;
        store.topics.insert(ti, topic);
        proof {
            let ps = store.posts@;
            let ts = store.topics@;
            assert forall|k: int| 0 <= k < old_posts.len() implies #[trigger] ps[k] == if old_posts[k].id
                == post_id {
                Post { deleted_at: Some(now), last_updated_by: session.uid(), ..old_posts[k] }
            } else {
                old_posts[k]
            } by {
                if k != i {
                    if k < i {
                        assert(old_posts[k].id < old_posts[i as int].id);
                    } else {
                        assert(old_posts[i as int].id < old_posts[k].id);
                    }
                }
            }
            assert forall|k: int| 0 <= k < old_topics.len() implies #[trigger] ts[k] == if old_topics[k].id
                == tid {
                Topic { number_posts: (old_topics[k].number_posts - 1) as i64, ..old_topics[k] }
            } else {
                old_topics[k]
            } by {
                if k != ti {
                    assert(ts[k] == old_topics[k]);
                    if k < ti {
                        assert(old_topics[k].id < old_topics[ti as int].id);
                    } else {
                        assert(old_topics[ti as int].id < old_topics[k].id);
                    }
                }
            }
            assert forall|a: int, b: int| 0 <= a < b < ts.len() implies #[trigger] ts[a].id
                < #[trigger] ts[b].id by {
                assert(old_topics[a].id < old_topics[b].id);
            }
            assert forall|k: int| 0 <= k < ts.len() implies #[trigger] ts[k].id >= 1 by {
                assert(old_topics[k].id >= 1);
            }
            assert forall|a: int, b: int| 0 <= a < b < ps.len() implies #[trigger] ps[a].id
                < #[trigger] ps[b].id by {
                assert(old_posts[a].id < old_posts[b].id);
            }
            assert forall|k: int| 0 <= k < ps.len() implies #[trigger] ps[k].id >= 1 by {
                assert(old_posts[k].id >= 1);
            }
            assert forall|k: int| 0 <= k < ps.len() implies store.has_topic(#[trigger] ps[k].topic_id) by {
                assert(old(store).has_topic(old_posts[k].topic_id));
                let j = choose|j: int|
                    0 <= j < old_topics.len() && #[trigger] old_topics[j].id == old_posts[k].topic_id;
                assert(ts[j].id == ps[k].topic_id);
            }
            assert forall|k: int| 0 <= k < ps.len() implies #[trigger] ps[k].post_number
                == posts_in_topic(ps.take(k + 1), ps[k].topic_id) by {
                assert(old_posts[k].post_number == posts_in_topic(
                    old_posts.take(k + 1),
                    old_posts[k].topic_id,
                ));
                if k < i {
                    assert(ps.take(k + 1) =~= old_posts.take(k + 1));
                } else {
                    assert(ps.take(k + 1) =~= old_posts.take(k + 1).update(i as int, q));
                    lemma_count_update(old_posts.take(k + 1), i as int, q, ps[k].topic_id);
                }
            }
            assert forall|k: int| 0 <= k < ts.len() implies #[trigger] ts[k].number_posts
                == live_posts_in_topic(ps, ts[k].id) by {
                assert(old_topics[k].number_posts == live_posts_in_topic(old_posts, old_topics[k].id));
                lemma_count_update(old_posts, i as int, q, ts[k].id);
            }
        }
        Ok(())
    }
}

/// How many of the first `end` posts belong to topic `topic_id`, only the
/// live ones when `live_only`.
fn count_prefix(posts: &Vec<Post>, end: usize, topic_id: i64, live_only: bool) -> (r: u64)
    requires
        end <= posts@.len(),
    ensures
        live_only ==> r == live_posts_in_topic(posts@.take(end as int), topic_id),
        !live_only ==> r == posts_in_topic(posts@.take(end as int), topic_id),
{
    let mut count: u64 = 0;
    let mut i: usize = 0;
    while i < end
        invariant
            end <= posts@.len(),
            i <= end,
            live_only ==> count == live_posts_in_topic(posts@.take(i as int), topic_id),
            !live_only ==> count == posts_in_topic(posts@.take(i as int), topic_id),
        decreases end - i,
    {
        proof {
            assert(posts@.take(i + 1).drop_last() =~= posts@.take(i as int));
            lemma_count_bounded(posts@.take(i as int), topic_id);
            lemma_live_count_le(posts@.take(i as int), topic_id);
        }
        if posts[i].topic_id == topic_id && (!live_only || posts[i].deleted_at.is_none()) {
            count = count + 1;
        }
        i += 1;
    }
    count
}

impl ForumStore {
    /// A store holding exactly the given topics and posts, if they meet the
    /// store's invariant; `None` if they do not.
    pub fn from_rows(topics: Vec<Topic>, posts: Vec<Post>) -> (r: Option<ForumStore>)
        ensures
            r is None <==> !(ForumStore { topics, posts }).wf(),
            r matches Some(f) ==> f.topics@ == topics@ && f.posts@ == posts@,
    {
        let ghost whole = ForumStore { topics, posts };
        let nt = topics.len();
        let mut i: usize = 0;
        while i < nt
            invariant
                nt == topics@.len(),
                i <= nt,
                forall|a: int, b: int| 0 <= a < b < i ==> #[trigger] topics@[a].id < #[trigger] topics@[b].id,
                forall|a: int| 0 <= a < i ==> #[trigger] topics@[a].id >= 1,
            decreases nt - i,
        {
            if topics[i].id < 1 || (i > 0 && topics[i - 1].id >= topics[i].id) {
                return None;
            }
            proof {
                assert forall|a: int, b: int| 0 <= a < b < i + 1 implies #[trigger] topics@[a].id
                    < #[trigger] topics@[b].id by {
                    if b == i && a < i - 1 {
                        assert(topics@[a].id < topics@[i - 1].id);
                    }
                }
            }
            i += 1;
        }
        let np = posts.len();
        let mut i: usize = 0;
        while i < np
            invariant
                nt == topics@.len(),
                np == posts@.len(),
                whole.topics == topics && whole.posts == posts,
                i <= np,
                forall|a: int, b: int| 0 <= a < b < i ==> #[trigger] posts@[a].id < #[trigger] posts@[b].id,
                forall|a: int| 0 <= a < i ==> #[trigger] posts@[a].id >= 1,
                forall|a: int| 0 <= a < i ==> whole.has_topic(#[trigger] posts@[a].topic_id),
                forall|a: int|
                    0 <= a < i ==> #[trigger] posts@[a].post_number == posts_in_topic(
                        posts@.take(a + 1),
                        posts@[a].topic_id,
                    ),
            decreases np - i,
        {
            if posts[i].id < 1 || (i > 0 && posts[i - 1].id >= posts[i].id) {
                return None;
            }
            let tid = posts[i].topic_id;
            let mut k: usize = 0;
            let mut found = false;
            while k < nt
                invariant
                    nt == topics@.len(),
                    k <= nt,
                    found ==> whole.has_topic(tid),
                    !found ==> forall|b: int| 0 <= b < k ==> #[trigger] topics@[b].id != tid,
                    whole.topics == topics,
                decreases nt - k,
            {
                if topics[k].id == tid {
                    found = true;
                }
                k += 1;
            }
            if !found {
                return None;
            }
            let count = count_prefix(&posts, i + 1, tid, false);
            if (posts[i].post_number as i128) != (count as i128) {
                return None;
            }
            proof {
                assert forall|a: int, b: int| 0 <= a < b < i + 1 implies #[trigger] posts@[a].id
                    < #[trigger] posts@[b].id by {
                    if b == i && a < i - 1 {
                        assert(posts@[a].id < posts@[i - 1].id);
                    }
                }
            }
            i += 1;
        }
        let mut i: usize = 0;
        while i < nt
            invariant
                nt == topics@.len(),
                np == posts@.len(),
                i <= nt,
                forall|a: int|
                    0 <= a < i ==> #[trigger] topics@[a].number_posts == live_posts_in_topic(
                        posts@,
                        topics@[a].id,
                    ),
            decreases nt - i,
        {
            let live = count_prefix(&posts, np, topics[i].id, true);
            proof {
                assert(posts@.take(np as int) =~= posts@);
            }
            if (topics[i].number_posts as i128) != (live as i128) {
                return None;
            }
            i += 1;
        }
        Some(ForumStore { topics, posts })
    }
}

/// Counting over a longer prefix never gives less.
proof fn lemma_count_prefix_monotone(posts: Seq<Post>, a: int, b: int, topic_id: i64)
    requires
        0 <= a <= b <= posts.len(),
    ensures
        posts_in_topic(posts.take(a), topic_id) <= posts_in_topic(posts.take(b), topic_id),
    decreases b - a,
{
    if a < b {
        assert(posts.take(b).drop_last() =~= posts.take(b - 1));
        lemma_count_prefix_monotone(posts, a, b - 1, topic_id);
    }
}

/// A topic with posts has a last one, whose prefix holds them all.
proof fn lemma_last_of_topic(posts: Seq<Post>, topic_id: i64)
    requires
        posts_in_topic(posts, topic_id) >= 1,
    ensures
        exists|i: int|
            0 <= i < posts.len() && #[trigger] posts[i].topic_id == topic_id && posts_in_topic(
                posts.take(i + 1),
                topic_id,
            ) == posts_in_topic(posts, topic_id),
    decreases posts.len(),
{
    let n = posts.len() as int;
    if posts.last().topic_id == topic_id {
        assert(posts.take(n) =~= posts);
        assert(posts[n - 1].topic_id == topic_id);
    } else {
        let rest = posts.drop_last();
        lemma_last_of_topic(rest, topic_id);
        let i = choose|i: int|
            0 <= i < rest.len() && #[trigger] rest[i].topic_id == topic_id && posts_in_topic(
                rest.take(i + 1),
                topic_id,
            ) == posts_in_topic(rest, topic_id);
        assert(rest.take(i + 1) =~= posts.take(i + 1));
        assert(posts[i].topic_id == topic_id);
    }
}

/// Within every topic the posts, in creation order, are numbered 1, 2, 3, ...
/// without gaps, the last one carrying the number of posts the topic has; the
/// topic's post count is the number of those not soft-deleted.
pub proof fn lemma_post_numbers_gapless(store: &ForumStore)
    requires
        store.wf(),
    ensures
        forall|i: int| 0 <= i < store.posts@.len() ==> #[trigger] store.posts@[i].post_number >= 1,
        forall|i: int, j: int|
            0 <= i < j < store.posts@.len() && store.posts@[i].topic_id == store.posts@[j].topic_id
                ==> #[trigger] store.posts@[i].post_number < #[trigger] store.posts@[j].post_number,
        forall|j: int|
            0 <= j < store.posts@.len() && #[trigger] store.posts@[j].post_number > 1 ==> exists|i: int|
                0 <= i < j && #[trigger] store.posts@[i].topic_id == store.posts@[j].topic_id
                    && store.posts@[i].post_number == store.posts@[j].post_number - 1,
        forall|t: int|
            0 <= t < store.topics@.len() ==> #[trigger] store.topics@[t].number_posts
                == live_posts_in_topic(store.posts@, store.topics@[t].id),
        forall|t: int|
            0 <= t < store.topics@.len() && #[trigger] posts_in_topic(
                store.posts@,
                store.topics@[t].id,
            ) >= 1 ==> exists|i: int|
                0 <= i < store.posts@.len() && #[trigger] store.posts@[i].topic_id
                    == store.topics@[t].id && store.posts@[i].post_number == posts_in_topic(
                    store.posts@,
                    store.topics@[t].id,
                ),
{
    let ps = store.posts@;
    assert forall|i: int| 0 <= i < ps.len() implies #[trigger] ps[i].post_number >= 1 by {
        assert(ps.take(i + 1).drop_last() =~= ps.take(i));
    }
    assert forall|i: int, j: int|
        0 <= i < j < ps.len() && ps[i].topic_id == ps[j].topic_id implies #[trigger] ps[i].post_number
        < #[trigger] ps[j].post_number by {
        assert(ps.take(j + 1).drop_last() =~= ps.take(j));
        lemma_count_prefix_monotone(ps, i + 1, j, ps[j].topic_id);
    }
    assert forall|j: int| 0 <= j < ps.len() && #[trigger] ps[j].post_number > 1 implies exists|i: int|
        0 <= i < j && #[trigger] ps[i].topic_id == ps[j].topic_id && ps[i].post_number
            == ps[j].post_number - 1 by {
        let tid = ps[j].topic_id;
        assert(ps.take(j + 1).drop_last() =~= ps.take(j));
        let pre = ps.take(j);
        lemma_last_of_topic(pre, tid);
        let i = choose|i: int|
            0 <= i < pre.len() && #[trigger] pre[i].topic_id == tid && posts_in_topic(
                pre.take(i + 1),
                tid,
            ) == posts_in_topic(pre, tid);
        assert(pre.take(i + 1) =~= ps.take(i + 1));
        assert(ps[i].topic_id == tid);
    }
    assert forall|t: int|
        0 <= t < store.topics@.len() && #[trigger] posts_in_topic(ps, store.topics@[t].id) >= 1 implies exists|
        i: int,
    |
        0 <= i < ps.len() && #[trigger] ps[i].topic_id == store.topics@[t].id && ps[i].post_number
            == posts_in_topic(ps, store.topics@[t].id) by {
        lemma_last_of_topic(ps, store.topics@[t].id);
    }
}

} // verus!

//! Session rows, keyed by the SHA-256 digest of the opaque session id.
use vstd::prelude::*;
use vstd::utf8::encode_utf8;
use crate::error::StoreError;
use crate::primitives::{is_url_safe_char, sha256, sha256_of};
use crate::role::Timestamp;

verus! {

/// The stored form of a session id: the digest of its UTF-8 bytes.
pub open spec fn digest_of_id(session_id: Seq<char>) -> Seq<u8> {
    sha256_of(encode_utf8(session_id))
}

/// Whether a session that expires at `expires_at` is still valid at `now`.
pub open spec fn unexpired(expires_at: Option<Timestamp>, now: Timestamp) -> bool {
    match expires_at {
        None => true,
        Some(e) => now < e,
    }
}

/// One row of the sessions table. The plain session id is never stored.
#[derive(Debug)]
pub struct SessionRow {
    pub digest: Vec<u8>,
    pub user_id: i64,
    pub expires_at: Option<Timestamp>,
}

/// The sessions table.
pub struct SessionStore {
    pub rows: Vec<SessionRow>,
    /// The plain id behind each row's digest.
    pub ids: Ghost<Seq<Seq<char>>>,
    /// Every session id this store was ever handed for insertion.
    pub emitted: Ghost<Set<Seq<char>>>,
}

impl SessionStore {
    pub open spec fn wf(&self) -> bool {
        &&& self.ids@.len() == self.rows@.len()
        &&& forall|i: int|
            0 <= i < self.rows@.len() ==> #[trigger] self.rows@[i].digest@ == digest_of_id(
                self.ids@[i],
            )
        &&& forall|i: int| 0 <= i < self.rows@.len() ==> self.emitted@.contains(#[trigger] self.ids@[i])
        &&& forall|i: int| 0 <= i < self.rows@.len() ==> (#[trigger] self.rows@[i]).digest@.len() == 32
        &&& forall|i: int, j: int|
            0 <= i < self.rows@.len() && 0 <= j < self.rows@.len() && i != j
                ==> #[trigger] self.rows@[i].digest@ != #[trigger] self.rows@[j].digest@
    }

    /// Whether some row holds this digest.
    pub open spec fn has_digest(&self, digest: Seq<u8>) -> bool {
        exists|i: int| 0 <= i < self.rows@.len() && #[trigger] self.rows@[i].digest@ == digest
    }

    /// Whether some row holds this digest for this user.
    pub open spec fn has_row(&self, digest: Seq<u8>, user_id: i64) -> bool {
        exists|i: int|
            0 <= i < self.rows@.len() && #[trigger] self.rows@[i].digest@ == digest
                && self.rows@[i].user_id == user_id
    }

    /// Whether some row holds this digest for this user and is unexpired at `now`.
    pub open spec fn has_live_row(&self, digest: Seq<u8>, user_id: i64, now: Timestamp) -> bool {
        exists|i: int|
            0 <= i < self.rows@.len() && #[trigger] self.rows@[i].digest@ == digest
                && self.rows@[i].user_id == user_id && unexpired(self.rows@[i].expires_at, now)
    }

    /// The rows as (digest, user, expiry) triples.
    pub open spec fn row_triples(&self) -> Seq<(Seq<u8>, i64, Option<Timestamp>)> {
        self.rows@.map_values(|r: SessionRow| (r.digest@, r.user_id, r.expires_at))
    }

    /// What a call of [`Self::insert`] does: the id is recorded as emitted;
    /// the row is appended unless its digest is already stored (`ok` false),
    /// in which case the rows stay as they were.
    pub open spec fn insert_step(
        before: SessionStore,
        after: SessionStore,
        session_id: Seq<char>,
        user_id: i64,
        expires_at: Option<Timestamp>,
        ok: bool,
    ) -> bool {
        &&& after.emitted@ == before.emitted@.insert(session_id)
        &&& ok <==> !before.has_digest(digest_of_id(session_id))
        &&& ok ==> after.row_triples() == before.row_triples().push(
            (digest_of_id(session_id), user_id, expires_at),
        )
        &&& !ok ==> after.rows@ == before.rows@
    }

    /// What a call of [`Self::remove`] does: the row of `session_id` goes if
    /// it belongs to `user_id` (`removed` says so); every other row stays.
    pub open spec fn remove_step(
        before: SessionStore,
        after: SessionStore,
        session_id: Seq<char>,
        user_id: i64,
        removed: bool,
    ) -> bool {
        &&& after.emitted@ == before.emitted@
        &&& removed == before.has_row(digest_of_id(session_id), user_id)
        &&& !after.has_row(digest_of_id(session_id), user_id)
        &&& !removed ==> after.rows@ == before.rows@
        &&& removed ==> exists|i: int|
            0 <= i < before.rows@.len() && before.rows@[i].digest@ == digest_of_id(session_id)
                && after.row_triples() == before.row_triples().remove(i)
    }

    /// An empty table.
    pub fn new() -> (r: SessionStore)
        ensures
            r.wf(),
            r.rows@.len() == 0,
            r.emitted@ == Set::<Seq<char>>::empty(),
    {
        SessionStore { rows: Vec::new(), ids: Ghost(Seq::empty()), emitted: Ghost(Set::empty()) }
    }

    /// Index of the row holding `digest`.
    fn find_digest(&self, digest: &Vec<u8>) -> (r: Option<usize>)
        requires
            self.wf(),
        ensures
            r is None <==> !self.has_digest(digest@),
            r matches Some(i) ==> i < self.rows@.len() && self.rows@[i as int].digest@ == digest@,
    {
        let mut i: usize = 0;
        while i < self.rows.len()
            invariant
                self.wf(),
                i <= self.rows@.len(),
                forall|k: int| 0 <= k < i ==> #[trigger] self.rows@[k].digest@ != digest@,
            decreases self.rows@.len() - i,
        {
            if bytes_equal(&self.rows[i].digest, digest) {
                return Some(i);
            }
            i += 1;
        }
        None
    }

    /// Stores a new row for `session_id`, keyed by its digest. Fails, changing
    /// nothing, when a row with the same digest already exists.
    pub fn insert(&mut self, session_id: &String, user_id: i64, expires_at: Option<Timestamp>) -> (r:
        Result<(), StoreError>)
        requires
            old(self).wf(),
        ensures
            final(self).wf(),
            Self::insert_step(*old(self), *final(self), session_id@, user_id, expires_at, r is Ok),
            r is Err ==> r == Err::<(), StoreError>(StoreError::Internal),
    {
        let digest = sha256(session_id.as_str().as_bytes());
        proof {
            self.emitted@ = self.emitted@.insert(session_id@);
        }
        if self.find_digest(&digest).is_some() {
            return Err(StoreError::Internal);
        }
        let ghost before = self.rows@;
        self.rows.push(SessionRow { digest, user_id, expires_at });
        proof {
            self.ids@ = self.ids@.push(session_id@);
            assert(self.row_triples() =~= old(self).row_triples().push(
                (digest_of_id(session_id@), user_id, expires_at),
            ));
            assert forall|a: int, b: int|
                0 <= a < self.rows@.len() && 0 <= b < self.rows@.len() && a != b
                implies #[trigger] self.rows@[a].digest@ != #[trigger] self.rows@[b].digest@ by {
                if a < before.len() && b < before.len() {
                    assert(before[a].digest@ != before[b].digest@);
                }
            }
            assert forall|k: int| 0 <= k < self.rows@.len() implies self.emitted@.contains(
                #[trigger] self.ids@[k]) by {
                if k < before.len() {
                    assert(old(self).emitted@.contains(old(self).ids@[k]));
                }
            }
        }
        Ok(())
    }

    /// Deletes the row of `session_id` if it belongs to `user_id`; says
    /// whether a row was deleted. Every other row is kept, in order.
    pub fn remove(&mut self, session_id: &String, user_id: i64) -> (removed: bool)
        requires
            old(self).wf(),
        ensures
            final(self).wf(),
            Self::remove_step(*old(self), *final(self), session_id@, user_id, removed),
    {
        let digest = sha256(session_id.as_str().as_bytes());
        match self.find_digest(&digest) {
            None => false,
            Some(i) => {
                if self.rows[i].user_id != user_id {
                    return false;
                }
                let ghost before = self.rows@;
                let ghost old_triples = self.row_triples();
                let _ = self.rows.remove(i);
                proof {
                    self.ids@ = self.ids@.remove(i as int);
                    assert(self.row_triples() =~= old_triples.remove(i as int));
                    assert forall|k: int| 0 <= k < self.rows@.len() implies #[trigger] self.rows@[k].digest@
                        != digest@ by {
                        let j = if k < i { k } else { k + 1 };
                        assert(before[j].digest@ != before[i as int].digest@);
                    }
                    assert forall|a: int, b: int|
                        0 <= a < self.rows@.len() && 0 <= b < self.rows@.len() && a != b
                        implies #[trigger] self.rows@[a].digest@ != #[trigger] self.rows@[b].digest@ by {
                        let a2 = if a < i { a } else { a + 1 };
                        let b2 = if b < i { b } else { b + 1 };
                        assert(before[a2].digest@ != before[b2].digest@);
                    }
                    assert forall|k: int| 0 <= k < self.rows@.len() implies self.emitted@.contains(
                        #[trigger] self.ids@[k]) by {
                        let j = if k < i { k } else { k + 1 };
                        assert(old(self).emitted@.contains(old(self).ids@[j]));
                    }
                    assert forall|k: int| 0 <= k < self.rows@.len() implies (#[trigger] self.rows@[k]).digest@.len()
                        == 32 by {
                        let j = if k < i { k } else { k + 1 };
                        assert(before[j].digest@.len() == 32);
                    }
                    assert forall|k: int| 0 <= k < self.rows@.len() implies #[trigger] self.rows@[k].digest@
                        == digest_of_id(self.ids@[k]) by {
                        let j = if k < i { k } else { k + 1 };
                        assert(before[j].digest@ == digest_of_id(old(self).ids@[j]));
                    }
                }
                true
            },
        }
    }

    /// Whether `session_id` has a row for `user_id` that is unexpired at `now`.
    pub fn verify(&self, session_id: &String, user_id: i64, now: Timestamp) -> (r: bool)
        requires
            self.wf(),
        ensures
            r == self.has_live_row(digest_of_id(session_id@), user_id, now),
    {
        let digest = sha256(session_id.as_str().as_bytes());
        match self.find_digest(&digest) {
            None => false,
            Some(i) => {
                let row = &self.rows[i];
                let live = match row.expires_at {
                    None => true,
                    Some(e) => now < e,
                };
                proof {
                    if self.has_live_row(digest@, user_id, now) {
                        let j = choose|j: int|
                            0 <= j < self.rows@.len() && #[trigger] self.rows@[j].digest@ == digest@
                                && self.rows@[j].user_id == user_id && unexpired(
                                self.rows@[j].expires_at,
                                now,
                            );
                        assert(j == i);
                    }
                }
                row.user_id == user_id && live
            },
        }
    }
}

/// Byte-wise equality of two byte strings.
pub fn bytes_equal(a: &[u8], b: &[u8]) -> (r: bool)
    ensures
        r == (a@ == b@),
{
    if a.len() != b.len() {
        return false;
    }
    let mut i: usize = 0;
    while i < a.len()
        invariant
            a@.len() == b@.len(),
            i <= a@.len(),
            forall|k: int| 0 <= k < i ==> a@[k] == b@[k],
        decreases a@.len() - i,
    {
        if a[i] != b[i] {
            return false;
        }
        i += 1;
    }
    assert(a@ =~= b@);
    true
}

/// A session inserted for a user verifies at every instant before its expiry;
/// once removed it verifies at no instant.
pub proof fn lemma_insert_then_verify(
    s0: SessionStore,
    s1: SessionStore,
    s2: SessionStore,
    session_id: Seq<char>,
    user_id: i64,
    expires_at: Option<Timestamp>,
    removed: bool,
    now: Timestamp,
    later: Timestamp,
)
    requires
        s0.wf(),
        SessionStore::insert_step(s0, s1, session_id, user_id, expires_at, true),
        SessionStore::remove_step(s1, s2, session_id, user_id, removed),
    ensures
        unexpired(expires_at, now) ==> s1.has_live_row(digest_of_id(session_id), user_id, now),
        removed,
        !s2.has_live_row(digest_of_id(session_id), user_id, later),
{
    let n = s0.rows@.len() as int;
    assert(s1.row_triples()[n] == (digest_of_id(session_id), user_id, expires_at));
    assert(s1.rows@.len() == n + 1) by {
        assert(s1.row_triples().len() == s1.rows@.len());
    }
    assert(s1.rows@[n].digest@ == digest_of_id(session_id));
    assert(s1.has_row(digest_of_id(session_id), user_id));
    if unexpired(expires_at, now) {
        assert(s1.rows@[n].expires_at == expires_at);
    }
    if s2.has_live_row(digest_of_id(session_id), user_id, later) {
        let i = choose|i: int|
            0 <= i < s2.rows@.len() && #[trigger] s2.rows@[i].digest@ == digest_of_id(session_id)
                && s2.rows@[i].user_id == user_id && unexpired(s2.rows@[i].expires_at, later);
        assert(s2.has_row(digest_of_id(session_id), user_id));
    }
}

/// UTF-8 spends one byte on each character of a URL-safe id.
pub proof fn lemma_url_safe_bytes(id: Seq<char>)
    requires
        forall|i: int| 0 <= i < id.len() ==> is_url_safe_char(#[trigger] id[i]),
    ensures
        encode_utf8(id).len() == id.len(),
    decreases id.len(),
{
    if id.len() > 0 {
        let rest = id.drop_first();
        assert forall|i: int| 0 <= i < rest.len() implies is_url_safe_char(#[trigger] rest[i]) by {
            assert(rest[i] == id[i + 1]);
        }
        lemma_url_safe_bytes(rest);
        assert(is_url_safe_char(id[0]));
        assert((id[0] as u32) < 0x80);
    }
}

/// A session id as the store is handed it (21 URL-safe characters) is never
/// itself a stored key: every key is a 32-byte digest.
pub proof fn lemma_plain_id_never_stored(store: &SessionStore, id: Seq<char>)
    requires
        store.wf(),
        id.len() == 21,
        forall|i: int| 0 <= i < id.len() ==> is_url_safe_char(#[trigger] id[i]),
    ensures
        forall|i: int| 0 <= i < store.rows@.len() ==> #[trigger] store.rows@[i].digest@ != encode_utf8(id),
{
    lemma_url_safe_bytes(id);
    assert forall|i: int| 0 <= i < store.rows@.len() implies #[trigger] store.rows@[i].digest@
        != encode_utf8(id) by {
        assert(store.rows@[i].digest@.len() == 32);
    }
}

/// Whether `digest` is the digest of one of the `emitted` session ids.
pub open spec fn is_digest_of_emitted(emitted: Set<Seq<char>>, digest: Seq<u8>) -> bool {
    exists|id: Seq<char>| emitted.contains(id) && digest == #[trigger] digest_of_id(id)
}

/// Every stored digest is the digest of a session id that was handed to the
/// store; rows hold digests only, never a plain id.
pub proof fn lemma_rows_are_digests_of_emitted_ids(store: &SessionStore)
    requires
        store.wf(),
    ensures
        forall|i: int|
            0 <= i < store.rows@.len() ==> is_digest_of_emitted(
                store.emitted@,
                #[trigger] store.rows@[i].digest@,
            ),
{
    assert forall|i: int| 0 <= i < store.rows@.len() implies is_digest_of_emitted(
        store.emitted@,
        #[trigger] store.rows@[i].digest@,
    ) by {
        let id = store.ids@[i];
        assert(store.emitted@.contains(id));
        assert(store.rows@[i].digest@ == digest_of_id(id));
    }
}

} // verus!

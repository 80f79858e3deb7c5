use vstd::prelude::*;
use crate::error::StoreError;
use crate::role::{resolved_role, ModerationStatus, Timestamp, UserRole, ADMIN_USER_ID};

verus! {

/// One row of the users table.
#[derive(Debug, Clone)]
pub struct UserRecord {
    pub id: i64,
    pub name: String,
    /// The password hash with its parameters, as a PHC string.
    pub password: Option<String>,
    pub moderation: ModerationStatus,
}

/// A record of a moderator's demotion; these are never changed or removed.
#[derive(Debug, Clone)]
pub struct PastModerator {
    pub user_id: i64,
    pub unassigned_at: Timestamp,
    pub reason: String,
}

/// The users table, with the log of demoted moderators: ids assigned in
/// increasing order, names unique.
pub struct UserTable {
    pub users: Vec<UserRecord>,
    pub past_moderators: Vec<PastModerator>,
}

impl UserTable {
    pub open spec fn wf(&self) -> bool {
        &&& forall|i: int, j: int|
            0 <= i < j < self.users@.len() ==> #[trigger] self.users@[i].id
                < #[trigger] self.users@[j].id
        &&& forall|i: int, j: int|
            0 <= i < self.users@.len() && 0 <= j < self.users@.len() && i != j
                ==> #[trigger] self.users@[i].name@ != #[trigger] self.users@[j].name@
        &&& forall|i: int| 0 <= i < self.users@.len() ==> #[trigger] self.users@[i].id >= 1
    }

    /// Whether a user with this id exists.
    pub open spec fn has_id(&self, id: i64) -> bool {
        exists|i: int| 0 <= i < self.users@.len() && #[trigger] self.users@[i].id == id
    }

    /// Whether a user with this name exists.
    pub open spec fn has_name(&self, name: Seq<char>) -> bool {
        exists|i: int| 0 <= i < self.users@.len() && #[trigger] self.users@[i].name@ == name
    }

    /// The row of the user with this id, when [`Self::has_id`].
    pub open spec fn row_of(&self, id: i64) -> UserRecord {
        self.users@[choose|i: int| 0 <= i < self.users@.len() && #[trigger] self.users@[i].id == id]
    }

    /// The row of the user with this name, when [`Self::has_name`].
    pub open spec fn row_named(&self, name: Seq<char>) -> UserRecord {
        self.users@[choose|i: int|
            0 <= i < self.users@.len() && #[trigger] self.users@[i].name@ == name]
    }

    /// Effective role of `user_id` at `now`, for a user that exists or is the admin.
    pub open spec fn role_at(&self, user_id: i64, now: Timestamp) -> UserRole {
        resolved_role(user_id, self.row_of(user_id).moderation, now)
    }

    /// An empty table.
    pub fn new() -> (r: UserTable)
        ensures
            r.wf(),
            r.users@.len() == 0,
            r.past_moderators@.len() == 0,
    {
        UserTable { users: Vec::new(), past_moderators: Vec::new() }
    }

    /// Index of the user with this id.
    pub fn find_by_id(&self, id: i64) -> (r: Option<usize>)
        requires
            self.wf(),
        ensures
            r is None <==> !self.has_id(id),
            r matches Some(i) ==> i < self.users@.len() && self.users@[i as int].id == id
                && self.row_of(id) == self.users@[i as int],
    {
        let mut i: usize = 0;
        while i < self.users.len()
            invariant
                self.wf(),
                i <= self.users@.len(),
                forall|k: int| 0 <= k < i ==> #[trigger] self.users@[k].id != id,
            decreases self.users@.len() - i,
        {
            if self.users[i].id == id {
                proof {
                    let j = choose|j: int| 0 <= j < self.users@.len() && #[trigger] self.users@[j].id == id;
                    if j != i {
                        if j < i {
                            assert(self.users@[j].id < self.users@[i as int].id);
                        } else {
                            assert(self.users@[i as int].id < self.users@[j].id);
                        }
                    }
                }
                return Some(i);
            }
            i += 1;
        }
        None
    }

    /// Index of the user with this name.
    pub fn find_by_name(&self, name: &String) -> (r: Option<usize>)
        requires
            self.wf(),
        ensures
            r is None <==> !self.has_name(name@),
            r matches Some(i) ==> i < self.users@.len() && self.users@[i as int].name@ == name@
                && self.row_named(name@) == self.users@[i as int],
    {
        let mut i: usize = 0;
        while i < self.users.len()
            invariant
                self.wf(),
                i <= self.users@.len(),
                forall|k: int| 0 <= k < i ==> #[trigger] self.users@[k].name@ != name@,
            decreases self.users@.len() - i,
        {
            if self.users[i].name == *name {
                proof {
                    let j = choose|j: int|
                        0 <= j < self.users@.len() && #[trigger] self.users@[j].name@ == name@;
                    assert(j == i);
                }
                return Some(i);
            }
            i += 1;
        }
        None
    }

    /// Registers a user under a new name, with the next id.
    pub fn register(&mut self, name: String, password: Option<String>) -> (r: Result<i64, StoreError>)
        requires
            old(self).wf(),
        ensures
            final(self).wf(),
            final(self).past_moderators@ == old(self).past_moderators@,
            old(self).has_name(name@) ==> r == Err::<i64, StoreError>(StoreError::Conflict),
            r is Ok ==> !old(self).has_name(name@),
            r is Err ==> *final(self) == *old(self),
            r matches Ok(id) ==> {
                &&& id == if old(self).users@.len() == 0 {
                    ADMIN_USER_ID as int
                } else {
                    old(self).users@.last().id + 1
                }
                &&& !old(self).has_id(id)
                &&& final(self).users@ == old(self).users@.push(final(self).users@.last())
                &&& final(self).users@.last().id == id
                &&& final(self).users@.last().name@ == name@
                &&& final(self).users@.last().password == password
                &&& final(self).users@.last().moderation == ModerationStatus {
                    banned_at: None,
                    muted_until: None,
                    moderator_assigned_at: None,
                }
            },
            // Success is owed unless the name is taken or the id space is used up.
            !old(self).has_name(name@) && (old(self).users@.len() == 0 || old(self).users@.last().id
                < i64::MAX) ==> r is Ok,
    {
        if self.find_by_name(&name).is_some() {
            return Err(StoreError::Conflict);
        }
        let n = self.users.len();
        let id: i64 = if n == 0 {
            ADMIN_USER_ID
        } else {
            let last = self.users[n - 1].id;
            if last == i64::MAX {
                return Err(StoreError::Internal);
            }
            last + 1
        };
        let ghost old_users = self.users@;
        proof {
            assert forall|k: int| 0 <= k < old_users.len() implies old_users[k].id < id by {
                if n > 0 && k < n - 1 {
                    assert(old_users[k].id < old_users[n - 1].id);
                }
            }
        }
        self.users.push(
            UserRecord { id, name, password, moderation: ModerationStatus::clear() },
        );
        proof {
            assert(self.users@.drop_last() == old_users);
        }
        Ok(id)
    }

    /// Replaces the moderation columns of an existing user.
    pub fn set_moderation(&mut self, id: i64, status: ModerationStatus) -> (r: Result<(), StoreError>)
        requires
            old(self).wf(),
        ensures
            final(self).wf(),
            final(self).past_moderators@ == old(self).past_moderators@,
            r is Err <==> !old(self).has_id(id),
            r is Err ==> r == Err::<(), StoreError>(StoreError::NotFound(id)) && *final(self)
                == *old(self),
            r is Ok ==> final(self).users@.len() == old(self).users@.len() && forall|k: int|
                0 <= k < old(self).users@.len() ==> {
                    let (a, b) = (old(self).users@[k], #[trigger] final(self).users@[k]);
                    &&& b.id == a.id
                    &&& b.name@ == a.name@
                    &&& b.password == a.password
                    &&& b.moderation == if a.id == id { status } else { a.moderation }
                },
    {
        match self.find_by_id(id) {
            None => Err(StoreError::NotFound(id)),
            Some(i) => {
                let ghost before = self.users@;
                let mut row = self.users.remove(i);
                row.moderation = status;
                self.users.insert(i, row);
                proof {
                    assert forall|k: int| 0 <= k < before.len() && k != i implies self.users@[k]
                        == before[k] by {}
                    assert forall|a: int, b: int|
                        0 <= a < self.users@.len() && 0 <= b < self.users@.len() && a != b
                        implies #[trigger] self.users@[a].name@ != #[trigger] self.users@[b].name@ by {
                        assert(before[a].name@ != before[b].name@);
                    }
                    assert forall|a: int, b: int| 0 <= a < b < self.users@.len()
                        implies #[trigger] self.users@[a].id < #[trigger] self.users@[b].id by {
                        assert(before[a].id < before[b].id);
                    }
                }
                Ok(())
            },
        }
    }
}

impl UserTable {
    /// Whether the user with this id is currently assigned as moderator.
    pub open spec fn is_assigned(&self, id: i64) -> bool {
        self.has_id(id) && self.row_of(id).moderation.moderator_assigned_at is Some
    }

    /// Makes a user moderator from `at` on; a user already assigned conflicts.
    pub fn assign_moderator(&mut self, id: i64, at: Timestamp) -> (r: Result<(), StoreError>)
        requires
            old(self).wf(),
        ensures
            final(self).wf(),
            final(self).past_moderators@ == old(self).past_moderators@,
            !old(self).has_id(id) ==> r == Err::<(), StoreError>(StoreError::NotFound(id)),
            old(self).is_assigned(id) ==> r == Err::<(), StoreError>(StoreError::Conflict),
            r is Err ==> *final(self) == *old(self),
            old(self).has_id(id) && !old(self).is_assigned(id) ==> r is Ok,
            r is Ok ==> final(self).users@.len() == old(self).users@.len() && forall|k: int|
                0 <= k < old(self).users@.len() ==> {
                    let (a, b) = (old(self).users@[k], #[trigger] final(self).users@[k]);
                    &&& b.id == a.id
                    &&& b.name@ == a.name@
                    &&& b.password == a.password
                    &&& b.moderation == if a.id == id {
                        ModerationStatus { moderator_assigned_at: Some(at), ..a.moderation }
                    } else {
                        a.moderation
                    }
                },
    {
        match self.find_by_id(id) {
            None => Err(StoreError::NotFound(id)),
            Some(i) => {
                let current = self.users[i].moderation;
                if current.moderator_assigned_at.is_some() {
                    return Err(StoreError::Conflict);
                }
                self.set_moderation(
                    id,
                    ModerationStatus { moderator_assigned_at: Some(at), ..current },
                )
            },
        }
    }

    /// Demotes a moderator at `at`, recording why in the past-moderator log,
    /// which only ever grows.
    pub fn unassign_moderator(&mut self, id: i64, at: Timestamp, reason: String) -> (r: Result<
        (),
        StoreError,
    >)
        requires
            old(self).wf(),
        ensures
            final(self).wf(),
            (r is Err) <==> !old(self).is_assigned(id),
            r is Err ==> r == Err::<(), StoreError>(StoreError::NotFound(id)) && *final(self)
                == *old(self),
            r is Ok ==> {
                &&& final(self).past_moderators@.len() == old(self).past_moderators@.len() + 1
                &&& final(self).past_moderators@.drop_last() == old(self).past_moderators@
                &&& final(self).past_moderators@.last().user_id == id
                &&& final(self).past_moderators@.last().unassigned_at == at
                &&& final(self).past_moderators@.last().reason@ == reason@
                &&& final(self).users@.len() == old(self).users@.len()
                &&& forall|k: int|
                    0 <= k < old(self).users@.len() ==> {
                        let (a, b) = (old(self).users@[k], #[trigger] final(self).users@[k]);
                        &&& b.id == a.id
                        &&& b.name@ == a.name@
                        &&& b.password == a.password
                        &&& b.moderation == if a.id == id {
                            ModerationStatus { moderator_assigned_at: None, ..a.moderation }
                        } else {
                            a.moderation
                        }
                    }
            },
    {
        match self.find_by_id(id) {
            None => Err(StoreError::NotFound(id)),
            Some(i) => {
                let current = self.users[i].moderation;
                if current.moderator_assigned_at.is_none() {
                    return Err(StoreError::NotFound(id));
                }
                let _ = self.set_moderation(
                    id,
                    ModerationStatus { moderator_assigned_at: None, ..current },
                );
                let ghost log = self.past_moderators@;
                self.past_moderators.push(PastModerator { user_id: id, unassigned_at: at, reason });
                proof {
                    assert(self.past_moderators@.drop_last() =~= log);
                }
                Ok(())
            },
        }
    }
}

impl UserTable {
    /// A table holding exactly the given rows and log, if they meet the
    /// table's invariant; `None` if they do not.
    pub fn from_rows(users: Vec<UserRecord>, past_moderators: Vec<PastModerator>) -> (r: Option<
        UserTable,
    >)
        ensures
            r is None <==> !(UserTable { users, past_moderators }).wf(),
            r matches Some(t) ==> t.users@ == users@ && t.past_moderators@ == past_moderators@,
    {
        let n = users.len();
        let mut i: usize = 0;
        while i < n
            invariant
                n == users@.len(),
                i <= n,
                forall|a: int, b: int| 0 <= a < b < i ==> #[trigger] users@[a].id < #[trigger] users@[b].id,
                forall|a: int| 0 <= a < i ==> #[trigger] users@[a].id >= 1,
                forall|a: int, b: int|
                    0 <= a < i && 0 <= b < i && a != b ==> #[trigger] users@[a].name@
                        != #[trigger] users@[b].name@,
            decreases n - i,
        {
            if users[i].id < 1 {
                return None;
            }
            if i > 0 && users[i - 1].id >= users[i].id {
                return None;
            }
            let mut j: usize = 0;
            while j < i
                invariant
                    n == users@.len(),
                    j <= i < n,
                    forall|b: int| 0 <= b < j ==> #[trigger] users@[b].name@ != users@[i as int].name@,
                decreases i - j,
            {
                if users[j].name == users[i].name {
                    return None;
                }
                j += 1;
            }
            proof {
                assert forall|a: int, b: int| 0 <= a < b < i + 1 implies #[trigger] users@[a].id
                    < #[trigger] users@[b].id by {
                    if b == i && a < i - 1 {
                        assert(users@[a].id < users@[i - 1].id);
                    }
                }
            }
            i += 1;
        }
        Some(UserTable { users, past_moderators })
    }
}

impl UserRole {
    /// Effective role of `user_id` at `now`, read from the users table.
    pub fn from_db(users: &UserTable, user_id: i64, now: Timestamp) -> (r: Result<UserRole, StoreError>)
        requires
            users.wf(),
        ensures
            user_id == ADMIN_USER_ID ==> r == Ok::<UserRole, StoreError>(UserRole::Admin),
            user_id != ADMIN_USER_ID && !users.has_id(user_id) ==> r == Err::<UserRole, StoreError>(
                StoreError::NotFound(user_id),
            ),
            user_id != ADMIN_USER_ID && users.has_id(user_id) ==> r == Ok::<UserRole, StoreError>(
                users.role_at(user_id, now),
            ),
    {
        if user_id == ADMIN_USER_ID {
            return Ok(UserRole::Admin);
        }
        match users.find_by_id(user_id) {
            None => Err(StoreError::NotFound(user_id)),
            Some(i) => Ok(UserRole::resolve(user_id, &users.users[i].moderation, now)),
        }
    }
}

} // verus!

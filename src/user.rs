//! User accounts: the user table with soft deletion, and the public view of
//! a user that responses carry.

use vstd::prelude::*;
use vstd::string::StringExecFns;
use crate::session::StorageError;
use crate::requests::{email_error, name_error, FieldError, UserUpdateRequest};

verus! {

/// A stored account. Times are seconds since the Unix epoch.
#[derive(Debug)]
pub struct User {
    pub id: u64,
    pub name: String,
    pub email: String,
    pub password: String,
    pub avatar: Option<String>,
    pub created_date: u64,
    pub updated_date: u64,
    pub deleted_date: Option<u64>,
}

impl User {
    /// Not soft-deleted.
    pub open spec fn live(&self) -> bool {
        self.deleted_date is None
    }

    pub fn copy(&self) -> (r: User)
        ensures
            r == *self,
    {
        let avatar = match &self.avatar {
            Some(a) => Some(a.clone()),
            None => None,
        };
        User {
            id: self.id,
            name: self.name.clone(),
            email: self.email.clone(),
            password: self.password.clone(),
            avatar,
            created_date: self.created_date,
            updated_date: self.updated_date,
            deleted_date: self.deleted_date,
        }
    }
}

/// What a response shows of a user: everything but the password hash.
#[derive(Debug)]
pub struct UserResponse {
    pub id: u64,
    pub name: String,
    pub email: String,
    pub avatar: Option<String>,
    pub created_date: u64,
    pub updated_date: u64,
    pub deleted_date: Option<u64>,
}

impl UserResponse {
    pub open spec fn shows(&self, u: User) -> bool {
        &&& self.id == u.id
        &&& self.name == u.name
        &&& self.email == u.email
        &&& self.avatar == u.avatar
        &&& self.created_date == u.created_date
        &&& self.updated_date == u.updated_date
        &&& self.deleted_date == u.deleted_date
    }

    pub fn user_to_response(user: &User) -> (r: UserResponse)
        ensures
            r.shows(*user),
    {
        let u = user.copy();
        UserResponse {
            id: u.id,
            name: u.name,
            email: u.email,
            avatar: u.avatar,
            created_date: u.created_date,
            updated_date: u.updated_date,
            deleted_date: u.deleted_date,
        }
    }

    /// The same view, for a user already loaded from the table.
    pub fn dto_to_response(dto: &User) -> (r: UserResponse)
        ensures
            r.shows(*dto),
    {
        UserResponse::user_to_response(dto)
    }

    pub fn dtos_to_response(users: &Vec<User>) -> (r: Vec<UserResponse>)
        ensures
            r@.len() == users@.len(),
            forall|i: int| 0 <= i < r@.len() ==> #[trigger] r@[i].shows(users@[i]),
    {
        let mut out: Vec<UserResponse> = Vec::new();
        let mut i: usize = 0;
        while i < users.len()
            invariant
                0 <= i <= users@.len(),
                out@.len() == i,
                forall|k: int| 0 <= k < i ==> #[trigger] out@[k].shows(users@[k]),
            decreases users@.len() - i,
        {
            out.push(UserResponse::user_to_response(&users[i]));
            i = i + 1;
        }
        out
    }
}

/// Why a profile change failed.
#[derive(Debug)]
pub enum UserServiceError {
    /// The body failed its field checks.
    Validation(Vec<FieldError>),
    /// No live user has the identifier.
    NotFound,
    /// A live user already has the new email.
    DuplicateEmail,
}

/// The body's field checks, in field order.
pub open spec fn update_errors(update: UserUpdateRequest) -> Seq<FieldError> {
    (match update.name {
        Some(n) => name_error(n@),
        None => Seq::empty(),
    }) + (match update.email {
        Some(e) => email_error(e@),
        None => Seq::empty(),
    })
}

/// `u` with the fields that `update` holds put in, changed at `now`.
pub open spec fn updated_user(u: User, update: UserUpdateRequest, now: u64) -> User {
    User {
        name: match update.name {
            Some(n) => n,
            None => u.name,
        },
        email: match update.email {
            Some(e) => e,
            None => u.email,
        },
        updated_date: now,
        ..u
    }
}

/// `u` marked as deleted at `now`, otherwise unchanged.
pub open spec fn soft_deleted(u: User, now: u64) -> User {
    User { deleted_date: Some(now), ..u }
}

/// The user table. Identifiers are handed out in increasing order from 1 and
/// never reused; among live users no two share an email.
pub struct UserRepository {
    pub rows: Vec<User>,
    pub next_id: u64,
}

impl UserRepository {
    pub open spec fn wf(&self) -> bool {
        &&& self.next_id >= 1
        &&& forall|i: int|
            0 <= i < self.rows@.len() ==> 1 <= #[trigger] self.rows@[i].id < self.next_id
        &&& forall|i: int, j: int|
            0 <= i < j < self.rows@.len() ==> #[trigger] self.rows@[i].id
                != #[trigger] self.rows@[j].id
        &&& forall|i: int, j: int|
            0 <= i < j < self.rows@.len() && self.rows@[i].live() && self.rows@[j].live()
                ==> #[trigger] self.rows@[i].email@ != #[trigger] self.rows@[j].email@
    }

    pub open spec fn live_email_at(&self, i: int, email: Seq<char>) -> bool {
        0 <= i < self.rows@.len() && self.rows@[i].live() && self.rows@[i].email@ == email
    }

    pub open spec fn live_id_at(&self, i: int, id: u64) -> bool {
        0 <= i < self.rows@.len() && self.rows@[i].live() && self.rows@[i].id == id
    }

    /// The live user with this email, if any.
    pub open spec fn user_with_email(&self, email: Seq<char>) -> Option<User> {
        if exists|i: int| self.live_email_at(i, email) {
            Some(self.rows@[choose|i: int| self.live_email_at(i, email)])
        } else {
            None
        }
    }

    /// The live user with this identifier, if any.
    pub open spec fn user_with_id(&self, id: u64) -> Option<User> {
        if exists|i: int| self.live_id_at(i, id) {
            Some(self.rows@[choose|i: int| self.live_id_at(i, id)])
        } else {
            None
        }
    }

    pub fn new() -> (r: UserRepository)
        ensures
            r.wf(),
            r.rows@.len() == 0,
    {
        UserRepository { rows: Vec::new(), next_id: 1 }
    }

    fn index_of_email(&self, email: &str) -> (r: Option<usize>)
        requires
            self.wf(),
        ensures
            match r {
                Some(i) => self.live_email_at(i as int, email@) && self.user_with_email(email@)
                    == Some(self.rows@[i as int]),
                None => self.user_with_email(email@) is None,
            },
    {
        let key = String::from_str(email);
        let mut i: usize = 0;
        while i < self.rows.len()
            invariant
                0 <= i <= self.rows@.len(),
                key@ == email@,
                self.wf(),
                forall|k: int| 0 <= k < i ==> !self.live_email_at(k, email@),
            decreases self.rows@.len() - i,
        {
            if self.rows[i].deleted_date.is_none() && self.rows[i].email == key {
                proof {
                    assert(self.live_email_at(i as int, email@));
                    let j = choose|j: int| self.live_email_at(j, email@);
                    if j != i {
                        if j < i {
                            assert(self.rows@[j].email@ != self.rows@[i as int].email@);
                        } else {
                            assert(0 <= i < j < self.rows@.len());
                            assert(self.rows@[i as int].live() && self.rows@[j].live());
                            assert(self.rows@[i as int].email@ != self.rows@[j].email@);
                        }
                    }
                }
                return Some(i);
            }
            i = i + 1;
        }
        None
    }

    fn index_of_id(&self, id: u64) -> (r: Option<usize>)
        requires
            self.wf(),
        ensures
            match r {
                Some(i) => self.live_id_at(i as int, id) && self.user_with_id(id) == Some(
                    self.rows@[i as int],
                ),
                None => self.user_with_id(id) is None,
            },
    {
        let mut i: usize = 0;
        while i < self.rows.len()
            invariant
                0 <= i <= self.rows@.len(),
                forall|k: int| 0 <= k < i ==> !self.live_id_at(k, id),
                self.wf(),
            decreases self.rows@.len() - i,
        {
            if self.rows[i].deleted_date.is_none() && self.rows[i].id == id {
                proof {
                    assert(self.live_id_at(i as int, id));
                    let j = choose|j: int| self.live_id_at(j, id);
                    if j != i {
                        if j < i {
                            assert(self.rows@[j].id != self.rows@[i as int].id);
                        } else {
                            assert(0 <= i < j < self.rows@.len());
                            assert(self.rows@[i as int].id != self.rows@[j].id);
                        }
                    }
                }
                return Some(i);
            }
            i = i + 1;
        }
        None
    }

    /// The live user with this email.
    pub fn find_by_email(&self, email: &str) -> (r: Option<User>)
        requires
            self.wf(),
        ensures
            r == self.user_with_email(email@),
    {
        match self.index_of_email(email) {
            Some(i) => Some(self.rows[i].copy()),
            None => None,
        }
    }

    /// The live user with this identifier.
    pub fn find_by_id(&self, id: u64) -> (r: Option<User>)
        requires
            self.wf(),
        ensures
            r == self.user_with_id(id),
    {
        match self.index_of_id(id) {
            Some(i) => Some(self.rows[i].copy()),
            None => None,
        }
    }

    /// Every live user, in the order of creation.
    pub fn find_all(&self) -> (r: Vec<User>)
        ensures
            r@ == self.rows@.filter(|u: User| u.live()),
    {
        let mut out: Vec<User> = Vec::new();
        let mut i: usize = 0;
        while i < self.rows.len()
            invariant
                0 <= i <= self.rows@.len(),
                out@ == self.rows@.take(i as int).filter(|u: User| u.live()),
            decreases self.rows@.len() - i,
        {
            proof {
                reveal_with_fuel(Seq::filter, 1);
                assert(self.rows@.take(i + 1).drop_last() =~= self.rows@.take(i as int));
            }
            if self.rows[i].deleted_date.is_none() {
                out.push(self.rows[i].copy());
            }
            i = i + 1;
        }
        assert(self.rows@.take(self.rows@.len() as int) =~= self.rows@);
        out
    }

    /// Inserts a new live user under the next identifier. Fails when a live
    /// user already has the email, or when identifiers have run out.
    pub fn create_user(
        &mut self,
        name: String,
        email: String,
        password: String,
        avatar: Option<String>,
        now: u64,
    ) -> (r: Result<User, StorageError>)
        requires
            old(self).wf(),
        ensures
            final(self).wf(),
            old(self).user_with_email(email@) is Some ==> r == Err::<User, StorageError>(
                StorageError::UniqueViolation,
            ) && *final(self) == *old(self),
            old(self).user_with_email(email@) is None && old(self).next_id == u64::MAX ==> r
                == Err::<User, StorageError>(StorageError::Exhausted) && *final(self) == *old(self),
            old(self).user_with_email(email@) is None && old(self).next_id < u64::MAX ==> {
                &&& r matches Ok(u)
                &&& u == (User {
                    id: old(self).next_id,
                    name,
                    email,
                    password,
                    avatar,
                    created_date: now,
                    updated_date: now,
                    deleted_date: None,
                })
                &&& final(self).rows@ == old(self).rows@.push(u)
                &&& final(self).next_id == old(self).next_id + 1
            },
    {
        if self.index_of_email(email.as_str()).is_some() {
            return Err(StorageError::UniqueViolation);
        }
        if self.next_id == u64::MAX {
            return Err(StorageError::Exhausted);
        }
        let user = User {
            id: self.next_id,
            name,
            email,
            password,
            avatar,
            created_date: now,
            updated_date: now,
            deleted_date: None,
        };
        let stored = user.copy();
        self.rows.push(stored);
        self.next_id = self.next_id + 1;
        proof {
            let n = old(self).rows@.len() as int;
            assert forall|i: int, j: int|
                0 <= i < j < self.rows@.len() && self.rows@[i].live() && self.rows@[j].live()
                    implies #[trigger] self.rows@[i].email@ != #[trigger] self.rows@[j].email@ by {
                if j == n {
                    assert(!old(self).live_email_at(i, user.email@));
                }
            }
        }
        Ok(user)
    }

    /// Changes the name and email of a live user. A new email that any live
    /// user has, that user included, is refused.
    pub fn update(&mut self, id: u64, update: &UserUpdateRequest, now: u64) -> (r: Result<
        User,
        UserServiceError,
    >)
        requires
            old(self).wf(),
        ensures
            final(self).wf(),
            final(self).next_id == old(self).next_id,
            update_errors(*update).len() > 0 ==> (r matches Err(UserServiceError::Validation(v))
                && v@ == update_errors(*update)) && *final(self) == *old(self),
            update_errors(*update).len() == 0 && old(self).user_with_id(id) is None ==> (r matches Err(
                UserServiceError::NotFound,
            )) && *final(self) == *old(self),
            update_errors(*update).len() == 0 && old(self).user_with_id(id) is Some && (
            update.email matches Some(e) && old(self).user_with_email(e@) is Some) ==> (r matches Err(
                UserServiceError::DuplicateEmail,
            )) && *final(self) == *old(self),
            r matches Ok(u) ==> {
                &&& old(self).user_with_id(id) matches Some(o) && u == updated_user(o, *update, now)
                &&& final(self).user_with_id(id) == Some(u)
                &&& forall|other: u64|
                    other != id ==> final(self).user_with_id(other) == old(self).user_with_id(other)
            },
            update_errors(*update).len() == 0 && old(self).user_with_id(id) is Some && !(
            update.email matches Some(e) && old(self).user_with_email(e@) is Some) ==> r is Ok,
    {
        let errors = update.validate();
        if errors.len() > 0 {
            return Err(UserServiceError::Validation(errors));
        }
        let i = match self.index_of_id(id) {
            Some(i) => i,
            None => return Err(UserServiceError::NotFound),
        };
        let mut u = self.rows[i].copy();
        match &update.name {
            Some(n) => {
                u.name = n.clone();
            },
            None => {},
        }
        match &update.email {
            Some(e) => {
                if self.index_of_email(e.as_str()).is_some() {
                    return Err(UserServiceError::DuplicateEmail);
                }
                u.email = e.clone();
            },
            None => {},
        }
        u.updated_date = now;
        let result = u.copy();
        self.rows.set(i, u);
        proof {
            let old_rows = old(self).rows@;
            assert(result == updated_user(old_rows[i as int], *update, now));
            assert forall|a: int, b: int|
                0 <= a < b < self.rows@.len() && self.rows@[a].live() && self.rows@[b].live()
                    implies #[trigger] self.rows@[a].email@ != #[trigger] self.rows@[b].email@ by {
                if a == i || b == i {
                    let other = if a == i { b } else { a };
                    if let Some(e) = update.email {
                        assert(!old(self).live_email_at(other, e@));
                    } else {
                        if a < b && a == i {
                            assert(old_rows[a].email@ != old_rows[b].email@);
                        }
                    }
                }
            }
            assert forall|a: int, b: int|
                0 <= a < b < self.rows@.len() implies #[trigger] self.rows@[a].id
                    != #[trigger] self.rows@[b].id by {
                assert(old_rows[a].id != old_rows[b].id);
            }
            assert(self.live_id_at(i as int, id));
            let j = choose|j: int| self.live_id_at(j, id);
            if j != i {
                if j < i {
                    assert(self.rows@[j].id != self.rows@[i as int].id);
                } else {
                    assert(self.rows@[i as int].id != self.rows@[j].id);
                }
            }
            assert forall|other: u64| other != id implies self.user_with_id(other)
                == old(self).user_with_id(other) by {
                if exists|k: int| old(self).live_id_at(k, other) {
                    let k = choose|k: int| old(self).live_id_at(k, other);
                    assert(self.live_id_at(k, other));
                }
                if exists|k: int| self.live_id_at(k, other) {
                    let k = choose|k: int| self.live_id_at(k, other);
                    assert(old(self).live_id_at(k, other));
                }
            }
        }
        Ok(result)
    }

    /// Marks the live user with this identifier as deleted; gives how many
    /// rows changed.
    pub fn delete(&mut self, id: u64, now: u64) -> (r: usize)
        requires
            old(self).wf(),
        ensures
            final(self).wf(),
            final(self).next_id == old(self).next_id,
            final(self).user_with_id(id) is None,
            forall|other: u64| other != id ==> final(self).user_with_id(other) == old(self).user_with_id(other),
            r == 1 <==> old(self).user_with_id(id) is Some,
            r == 0 <==> old(self).user_with_id(id) is None,
            r == 0 ==> *final(self) == *old(self),
            r == 1 ==> exists|i: int|
                old(self).live_id_at(i, id) && #[trigger] final(self).rows@ == old(self).rows@.update(
                    i,
                    soft_deleted(old(self).rows@[i], now),
                ),
    {
        match self.index_of_id(id) {
            None => 0,
            Some(i) => {
                let mut u = self.rows[i].copy();
                u.deleted_date = Some(now);
                self.rows.set(i, u);
                proof {
                    assert(u == soft_deleted(old(self).rows@[i as int], now));
                    assert forall|other: u64| other != id implies self.user_with_id(other)
                        == old(self).user_with_id(other) by {
                        if exists|k: int| old(self).live_id_at(k, other) {
                            let k = choose|k: int| old(self).live_id_at(k, other);
                            assert(self.live_id_at(k, other));
                        }
                        if exists|k: int| self.live_id_at(k, other) {
                            let k = choose|k: int| self.live_id_at(k, other);
                            assert(old(self).live_id_at(k, other));
                        }
                    }
                }
                1
            }
        }
    }
}

} // verus!

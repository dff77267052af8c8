//! Active sessions: a set of (user, session id) pairs. A session is live
//! exactly as long as its pair is in the store.

use vstd::prelude::*;

verus! {

/// One issued token's server-side record.
#[derive(Clone, Copy, Debug, PartialEq, Eq, Structural)]
pub struct Session {
    pub user_id: u64,
    pub uuid: u128,
}

impl Session {
    pub fn new(user_id: u64, uuid: u128) -> (r: Session)
        ensures
            r.user_id == user_id,
            r.uuid == uuid,
    {
        Session { user_id, uuid }
    }
}

/// Rejections of the store itself.
#[derive(Clone, Copy, Debug, PartialEq, Eq, Structural)]
pub enum StorageError {
    /// The key is already taken.
    UniqueViolation,
    /// No identifier is left to hand out.
    Exhausted,
}

pub struct SessionRepository {
    pub rows: Vec<Session>,
}

impl SessionRepository {
    pub open spec fn has(&self, s: Session) -> bool {
        self.rows@.contains(s)
    }

    pub fn new() -> (r: SessionRepository)
        ensures
            forall|s: Session| !r.has(s),
    {
        SessionRepository { rows: Vec::new() }
    }

    pub fn is_live(&self, session: &Session) -> (r: bool)
        ensures
            r == self.has(*session),
    {
        let mut i: usize = 0;
        while i < self.rows.len()
            invariant
                0 <= i <= self.rows@.len(),
                forall|k: int| 0 <= k < i ==> self.rows@[k] != *session,
            decreases self.rows@.len() - i,
        {
            if self.rows[i] == *session {
                return true;
            }
            i = i + 1;
        }
        false
    }

    /// Persists a new session; a pair that is already stored is refused.
    pub fn save(&mut self, session: Session) -> (r: Result<Session, StorageError>)
        ensures
            old(self).has(session) ==> r == Err::<Session, StorageError>(
                StorageError::UniqueViolation,
            ) && *final(self) == *old(self),
            !old(self).has(session) ==> r == Ok::<Session, StorageError>(session) && forall|
                t: Session,
            | #[trigger] final(self).has(t) == (old(self).has(t) || t == session),
    {
        if self.is_live(&session) {
            return Err(StorageError::UniqueViolation);
        }
        self.rows.push(session);
        proof {
            assert forall|t: Session| #[trigger] self.has(t) == (old(self).has(t) || t == session) by {
                if old(self).has(t) {
                    let k = choose|k: int| 0 <= k < old(self).rows@.len() && old(self).rows@[k] == t;
                    assert(self.rows@[k] == t);
                }
                if self.has(t) && t != session {
                    let k = choose|k: int| 0 <= k < self.rows@.len() && self.rows@[k] == t;
                    assert(old(self).rows@[k] == t);
                }
                if t == session {
                    assert(self.rows@[self.rows@.len() - 1] == t);
                }
            }
        }
        Ok(session)
    }

    /// Removes the given session, or when none is given every session of
    /// `user_id`; gives how many went.
    fn retain_where(&mut self, session: Option<Session>, user_id: u64) -> (r: usize)
        ensures
            forall|t: Session| #[trigger]
                final(self).has(t) == (old(self).has(t) && !Self::doomed(session, user_id, t)),
            r == 0 <==> forall|t: Session| old(self).has(t) ==> !Self::doomed(session, user_id, t),
    {
        let mut kept: Vec<Session> = Vec::new();
        let mut removed: usize = 0;
        let mut i: usize = 0;
        while i < self.rows.len()
            invariant
                0 <= i <= self.rows@.len(),
                self.rows == old(self).rows,
                removed <= i,
                forall|t: Session| #[trigger]
                    kept@.contains(t) == (exists|k: int|
                        0 <= k < i && self.rows@[k] == t && !Self::doomed(session, user_id, t)),
                removed == 0 ==> forall|k: int|
                    0 <= k < i ==> !Self::doomed(session, user_id, #[trigger] self.rows@[k]),
                removed > 0 ==> exists|k: int|
                    0 <= k < i && Self::doomed(session, user_id, #[trigger] self.rows@[k]),
            decreases self.rows@.len() - i,
        {
            let t = self.rows[i];
            let gone = match session {
                Some(s) => t == s,
                None => t.user_id == user_id,
            };
            let ghost before = kept@;
            if gone {
                assert(Self::doomed(session, user_id, self.rows@[i as int]));
                removed = removed + 1;
            } else {
                kept.push(t);
            }
            proof {
                assert forall|u: Session| #[trigger]
                    kept@.contains(u) == (exists|k: int|
                        0 <= k < i + 1 && self.rows@[k] == u && !Self::doomed(
                            session,
                            user_id,
                            u,
                        )) by {
                    if kept@.contains(u) {
                        let j = choose|j: int| 0 <= j < kept@.len() && kept@[j] == u;
                        if j < before.len() {
                            assert(before[j] == u);
                            assert(before.contains(u));
                        } else {
                            assert(u == t && !gone);
                            assert(self.rows@[i as int] == u);
                        }
                    }
                    if exists|k: int|
                        0 <= k < i + 1 && self.rows@[k] == u && !Self::doomed(session, user_id, u)
                    {
                        let k = choose|k: int|
                            0 <= k < i + 1 && self.rows@[k] == u && !Self::doomed(
                                session,
                                user_id,
                                u,
                            );
                        if k < i {
                            assert(before.contains(u));
                            let j = choose|j: int| 0 <= j < before.len() && before[j] == u;
                            assert(kept@[j] == u);
                        } else {
                            assert(kept@[kept@.len() - 1] == u);
                        }
                    }
                }
            }
            i = i + 1;
        }
        self.rows = kept;
        proof {
            if removed > 0 {
                let k = choose|k: int|
                    0 <= k < i && Self::doomed(session, user_id, #[trigger] old(self).rows@[k]);
                assert(old(self).has(old(self).rows@[k]));
            }
        }
        removed
    }

    pub open spec fn doomed(session: Option<Session>, user_id: u64, t: Session) -> bool {
        match session {
            Some(s) => t == s,
            None => t.user_id == user_id,
        }
    }

    /// Removes one session; removing one that is not there changes nothing.
    pub fn delete(&mut self, session: &Session) -> (r: usize)
        ensures
            forall|t: Session| #[trigger] final(self).has(t) == (old(self).has(t) && t != *session),
            r == 0 <==> !old(self).has(*session),
    {
        self.retain_where(Some(*session), 0)
    }

    /// Removes every session of one user.
    pub fn delete_by_user_id(&mut self, user_id: u64) -> (r: usize)
        ensures
            forall|t: Session| #[trigger]
                final(self).has(t) == (old(self).has(t) && t.user_id != user_id),
    {
        self.retain_where(None, user_id)
    }
}

} // verus!

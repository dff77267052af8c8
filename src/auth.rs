//! The authentication service: registration, login, logout and the
//! session check, over the user and session tables.

use vstd::prelude::*;
use crate::password::{hash_password, password_matches, rehash_of, verify_password};
use crate::requests::{user_request_errors, AuthRequest, FieldError, UserRequest};
use crate::session::{Session, SessionRepository, StorageError};
use crate::token::{claims_json, issue, signed_token, token_payload, carried, validate_spec, accepted, lemma_issued_token_validates, Claims};
use crate::user::{soft_deleted, User, UserResponse, UserRepository};

verus! {

/// Why a call of the service failed.
#[derive(Debug)]
pub enum AuthServiceError {
    /// The request body failed its field checks.
    Validation(Vec<FieldError>),
    /// A live user already has the email.
    DuplicateEmail,
    /// No live user has the email, or the password is wrong.
    InvalidCredentials,
    /// The password could not be hashed, or the stored hash is unusable.
    HashingFailed,
    /// The token could not be signed.
    SigningFailed,
    /// The session identifier drawn is already in use for this user.
    SessionConflict,
    /// The user table refused the change.
    Storage(StorageError),
}

/// A user together with a fresh token for a new session.
#[derive(Debug)]
pub struct AuthenticatedUserDTO {
    pub user: UserResponse,
    pub token: String,
    pub claims: Claims,
}

/// The session a token with these claims belongs to.
pub open spec fn session_of(c: Claims) -> Session {
    Session { user_id: c.user_id, uuid: c.uuid }
}

/// `now + ttl`, or the largest time when that does not fit.
pub open spec fn expiry(now: u64, ttl: u64) -> u64 {
    if now + ttl > u64::MAX {
        u64::MAX
    } else {
        (now + ttl) as u64
    }
}

fn expiry_at(now: u64, ttl: u64) -> (r: u64)
    ensures
        r == expiry(now, ttl),
{
    if ttl > u64::MAX - now {
        u64::MAX
    } else {
        now + ttl
    }
}

/// Relies on uuid::Uuid::new_v4: a random identifier, of which nothing is
/// promised.
#[verifier::external_body]
fn new_session_id() -> u128 {
    uuid::Uuid::new_v4().as_u128()
}

pub struct AuthService {
    pub users: UserRepository,
    pub sessions: SessionRepository,
    /// The HMAC secret that tokens are signed with.
    pub secret: Vec<u8>,
    /// How long a token lives, in seconds.
    pub ttl: u64,
}

/// `dto` stands for a new session of `u` opened at `now`, and `new` differs
/// from `old` by that session alone.
pub open spec fn session_opened(
    old: AuthService,
    u: User,
    now: u64,
    new: AuthService,
    dto: AuthenticatedUserDTO,
) -> bool {
    &&& dto.user.shows(u)
    &&& dto.claims.user_id == u.id
    &&& dto.claims.exp == expiry(now, old.ttl)
    &&& !old.sessions.has(session_of(dto.claims))
    &&& forall|t: Session| #[trigger]
        new.sessions.has(t) == (old.sessions.has(t) || t == session_of(dto.claims))
    &&& signed_token(claims_json(dto.claims), old.secret@) == Some(dto.token@)
    &&& token_payload(dto.token@, old.secret@) == carried(claims_json(dto.claims))
    &&& new.secret == old.secret
    &&& new.ttl == old.ttl
}

/// The claims of the first session of the user that registering would add
/// to `old`, under session identifier `sid`.
pub open spec fn first_claims(old: AuthService, sid: u128, now: u64) -> Claims {
    Claims { user_id: old.users.next_id, uuid: sid, exp: expiry(now, old.ttl) }
}

/// The claims of a new session of `u` under session identifier `sid`.
pub open spec fn login_claims(old: AuthService, u: User, sid: u128, now: u64) -> Claims {
    Claims { user_id: u.id, uuid: sid, exp: expiry(now, old.ttl) }
}

/// Registration is refused before any outside call: the email is taken by
/// a live user, the body fails its field checks, or identifiers ran out.
pub open spec fn register_refused(old: AuthService, req: UserRequest) -> bool {
    ||| old.users.user_with_email(req.email@) is Some
    ||| user_request_errors(req.name@, req.password@, req.email@).len() > 0
    ||| old.users.next_id == u64::MAX
}

/// `r` is the refusal that applies, checked in that order, and nothing
/// changed.
pub open spec fn refused_as(
    old: AuthService,
    req: UserRequest,
    new: AuthService,
    r: Result<AuthenticatedUserDTO, AuthServiceError>,
) -> bool {
    let errors = user_request_errors(req.name@, req.password@, req.email@);
    &&& new == old
    &&& if old.users.user_with_email(req.email@) is Some {
        r matches Err(AuthServiceError::DuplicateEmail)
    } else if errors.len() > 0 {
        r matches Err(AuthServiceError::Validation(v)) && v@ == errors
    } else {
        r matches Err(AuthServiceError::Storage(StorageError::Exhausted))
    }
}

/// `new` holds one more user row than `old`, made from `req`, and `dto`
/// opened that user's first session.
pub open spec fn user_added(
    old: AuthService,
    req: UserRequest,
    avatar: Option<String>,
    now: u64,
    new: AuthService,
    dto: AuthenticatedUserDTO,
) -> bool {
    let u = new.users.rows@.last();
    &&& new.users.rows@ == old.users.rows@.push(u)
    &&& new.users.next_id == old.users.next_id + 1
    &&& u.id == old.users.next_id
    &&& u.name == req.name
    &&& u.email == req.email
    &&& u.avatar == avatar
    &&& u.created_date == now
    &&& u.updated_date == now
    &&& u.deleted_date is None
    &&& session_opened(old, u, now, new, dto)
}

/// What `register_with` does, given the password hash and the session
/// identifier.
pub open spec fn register_with_post(
    old: AuthService,
    req: UserRequest,
    avatar: Option<String>,
    hash: Seq<char>,
    sid: u128,
    now: u64,
    new: AuthService,
    r: Result<AuthenticatedUserDTO, AuthServiceError>,
) -> bool {
    &&& new.wf()
    &&& if register_refused(old, req) {
        refused_as(old, req, new, r)
    } else if signed_token(claims_json(first_claims(old, sid, now)), old.secret@) is None {
        r matches Err(AuthServiceError::SigningFailed) && new == old
    } else {
        &&& r matches Ok(dto)
        &&& user_added(old, req, avatar, now, new, dto)
        &&& new.users.rows@.last().password@ == hash
        &&& dto.claims.uuid == sid
    }
}

/// What `register` does, for every outcome of the hashing and of the
/// session identifier drawn.
pub open spec fn register_post(
    old: AuthService,
    req: UserRequest,
    avatar: Option<String>,
    now: u64,
    new: AuthService,
    r: Result<AuthenticatedUserDTO, AuthServiceError>,
) -> bool {
    &&& new.wf()
    &&& if register_refused(old, req) {
        refused_as(old, req, new, r)
    } else {
        match r {
            Ok(dto) => {
                &&& user_added(old, req, avatar, now, new, dto)
                &&& password_matches(new.users.rows@.last().password@, req.password@)
            },
            Err(e) => {
                &&& (e is HashingFailed || (e is SigningFailed && (exists|sid: u128|
                    signed_token(claims_json(first_claims(old, sid, now)), old.secret@) is None)))
                &&& new == old
            },
        }
    }
}

/// What `login` does, for every session identifier drawn.
pub open spec fn login_post(
    old: AuthService,
    email: Seq<char>,
    password: Seq<char>,
    now: u64,
    new: AuthService,
    r: Result<AuthenticatedUserDTO, AuthServiceError>,
) -> bool {
    match old.users.user_with_email(email) {
        None => r matches Err(AuthServiceError::InvalidCredentials) && new == old,
        Some(u) => match rehash_of(u.password@, password) {
            None => r matches Err(AuthServiceError::HashingFailed) && new == old,
            Some(h) => if h != u.password@ {
                r matches Err(AuthServiceError::InvalidCredentials) && new == old
            } else {
                match r {
                    Ok(dto) => new.users == old.users && session_opened(old, u, now, new, dto),
                    Err(e) => new == old && ((e is SessionConflict && (exists|sid: u128|
                        old.sessions.has(Session { user_id: u.id, uuid: sid })))
                        || (e is SigningFailed && (exists|sid: u128|
                        signed_token(claims_json(login_claims(old, u, sid, now)), old.secret@)
                            is None))),
                }
            },
        },
    }
}

/// What `login_with` does under session identifier `sid`: a login that
/// fails only for a session identifier in use or a signing that fails.
pub open spec fn login_with_post(
    old: AuthService,
    email: Seq<char>,
    password: Seq<char>,
    sid: u128,
    now: u64,
    new: AuthService,
    r: Result<AuthenticatedUserDTO, AuthServiceError>,
) -> bool {
    &&& login_post(old, email, password, now, new, r)
    &&& r matches Ok(dto) ==> dto.claims.uuid == sid
    &&& r matches Err(AuthServiceError::SessionConflict) ==> old.users.user_with_email(email)
        matches Some(u) && old.sessions.has(Session { user_id: u.id, uuid: sid })
    &&& r matches Err(AuthServiceError::SigningFailed) ==> old.users.user_with_email(email)
        matches Some(u) && signed_token(claims_json(login_claims(old, u, sid, now)), old.secret@)
        is None
}

/// What `logout` does: the session of `claims` is gone, whether or not it
/// was there.
pub open spec fn logout_post(
    old: AuthService,
    claims: Claims,
    new: AuthService,
    r: Result<(), AuthServiceError>,
) -> bool {
    &&& r is Ok
    &&& new.users == old.users
    &&& new.secret == old.secret
    &&& new.ttl == old.ttl
    &&& forall|t: Session| #[trigger]
        new.sessions.has(t) == (old.sessions.has(t) && t != session_of(claims))
}

impl AuthService {
    /// The user table is well formed, and every session belongs to an
    /// identifier already handed out.
    pub open spec fn wf(&self) -> bool {
        &&& self.users.wf()
        &&& forall|s: Session| #[trigger] self.sessions.has(s) ==> s.user_id < self.users.next_id
    }

    /// The session of `claims` is live.
    pub open spec fn check_spec(&self, claims: Claims) -> bool {
        self.sessions.has(session_of(claims))
    }

    pub fn new(secret: Vec<u8>, ttl: u64) -> (r: AuthService)
        ensures
            r.wf(),
            r.users.rows@.len() == 0,
            forall|s: Session| !r.sessions.has(s),
            r.secret == secret,
            r.ttl == ttl,
    {
        AuthService { users: UserRepository::new(), sessions: SessionRepository::new(), secret, ttl }
    }

    /// Signs a token for `claims`, then records its session.
    fn open_session(&mut self, u: &User, sid: u128, now: u64) -> (r: Result<
        AuthenticatedUserDTO,
        AuthServiceError,
    >)
        requires
            old(self).wf(),
            u.id < old(self).users.next_id,
        ensures
            final(self).wf(),
            final(self).users == old(self).users,
            match r {
                Ok(dto) => session_opened(*old(self), *u, now, *final(self), dto) && dto.claims.uuid
                    == sid,
                Err(e) => *final(self) == *old(self) && (e is SigningFailed && signed_token(
                    claims_json(Claims { user_id: u.id, uuid: sid, exp: expiry(now, old(self).ttl) }),
                    old(self).secret@,
                ) is None || e is SessionConflict && old(self).sessions.has(
                    Session { user_id: u.id, uuid: sid },
                )),
            },
    {
        let session = Session::new(u.id, sid);
        if self.sessions.is_live(&session) {
            return Err(AuthServiceError::SessionConflict);
        }
        let claims = Claims { user_id: u.id, uuid: sid, exp: expiry_at(now, self.ttl) };
        let token = match issue(&claims, self.secret.as_slice()) {
            Ok(t) => t,
            Err(_) => return Err(AuthServiceError::SigningFailed),
        };
        let saved = self.sessions.save(session);
        assert(saved is Ok);
        Ok(AuthenticatedUserDTO { user: UserResponse::user_to_response(u), token, claims })
    }

    /// The checks that registration makes before any outside call.
    fn refusal(&self, user: &UserRequest) -> (r: Option<AuthServiceError>)
        requires
            self.wf(),
        ensures
            r is None <==> !register_refused(*self, *user),
            r matches Some(e) ==> refused_as(*self, *user, *self, Err(e)),
    {
        if self.users.find_by_email(user.email.as_str()).is_some() {
            return Some(AuthServiceError::DuplicateEmail);
        }
        let errors = user.validate();
        if errors.len() > 0 {
            return Some(AuthServiceError::Validation(errors));
        }
        if self.users.next_id == u64::MAX {
            return Some(AuthServiceError::Storage(StorageError::Exhausted));
        }
        None
    }

    /// Creates an account whose password hash is `hash` and opens its first
    /// session under identifier `sid`. `avatar` is the name under which the
    /// account's image was already stored, if any.
    pub fn register_with(
        &mut self,
        user: UserRequest,
        avatar: Option<String>,
        hash: String,
        sid: u128,
        now: u64,
    ) -> (r: Result<AuthenticatedUserDTO, AuthServiceError>)
        requires
            old(self).wf(),
        ensures
            register_with_post(*old(self), user, avatar, hash@, sid, now, *final(self), r),
    {
        if let Some(e) = self.refusal(&user) {
            return Err(e);
        }
        let id = self.users.next_id;
        let claims = Claims { user_id: id, uuid: sid, exp: expiry_at(now, self.ttl) };
        let token = match issue(&claims, self.secret.as_slice()) {
            Ok(t) => t,
            Err(_) => return Err(AuthServiceError::SigningFailed),
        };
        let ghost pre = *self;
        let UserRequest { name, password: _, email, avatar: _ } = user;
        let created = self.users.create_user(name, email, hash, avatar, now);
        let u = match created {
            Ok(u) => u,
            Err(StorageError::UniqueViolation) => return Err(AuthServiceError::DuplicateEmail),
            Err(e) => return Err(AuthServiceError::Storage(e)),
        };
        let session = Session::new(id, sid);
        assert(!pre.sessions.has(session));
        let saved = self.sessions.save(session);
        assert(saved is Ok);
        proof {
            assert(self.users.rows@.last() == u);
            assert forall|s: Session| #[trigger] self.sessions.has(s) implies s.user_id
                < self.users.next_id by {
                if pre.sessions.has(s) {
                }
            }
        }
        Ok(AuthenticatedUserDTO { user: UserResponse::user_to_response(&u), token, claims })
    }

    /// Creates an account and opens its first session. `avatar` is the name
    /// under which the account's image was already stored, if any.
    pub fn register(&mut self, user: UserRequest, avatar: Option<String>, now: u64) -> (r: Result<
        AuthenticatedUserDTO,
        AuthServiceError,
    >)
        requires
            old(self).wf(),
        ensures
            register_post(*old(self), user, avatar, now, *final(self), r),
    {
        if let Some(e) = self.refusal(&user) {
            return Err(e);
        }
        let hash = match hash_password(user.password.as_str()) {
            Ok(h) => h,
            Err(_) => return Err(AuthServiceError::HashingFailed),
        };
        let sid = new_session_id();
        let ghost pw = user.password@;
        let r = self.register_with(user, avatar, hash, sid, now);
        proof {
            if r is Err {
                assert(signed_token(claims_json(first_claims(*old(self), sid, now)), old(self).secret@)
                    is None);
            }
        }
        r
    }

    /// Logs in with the given session identifier.
    pub fn login_with(&mut self, request: &AuthRequest, sid: u128, now: u64) -> (r: Result<
        AuthenticatedUserDTO,
        AuthServiceError,
    >)
        requires
            old(self).wf(),
        ensures
            final(self).wf(),
            login_with_post(*old(self), request.email@, request.password@, sid, now, *final(self), r),
    {
        let user = match self.users.find_by_email(request.email.as_str()) {
            Some(u) => u,
            None => return Err(AuthServiceError::InvalidCredentials),
        };
        proof {
            let i = choose|i: int| self.users.live_email_at(i, request.email@);
            assert(self.users.rows@[i].id < self.users.next_id);
        }
        match verify_password(user.password.as_str(), request.password.as_str()) {
            Err(_) => Err(AuthServiceError::HashingFailed),
            Ok(false) => Err(AuthServiceError::InvalidCredentials),
            Ok(true) => {
                let r = self.open_session(&user, sid, now);
                proof {
                    if r matches Err(AuthServiceError::SigningFailed) {
                        assert(signed_token(
                            claims_json(login_claims(*old(self), user, sid, now)),
                            old(self).secret@,
                        ) is None);
                    }
                    if r matches Err(AuthServiceError::SessionConflict) {
                        assert(old(self).sessions.has(Session { user_id: user.id, uuid: sid }));
                    }
                }
                r
            },
        }
    }

    /// Checks the credentials and opens a new session; other sessions of
    /// the user stay live.
    pub fn login(&mut self, request: &AuthRequest, now: u64) -> (r: Result<
        AuthenticatedUserDTO,
        AuthServiceError,
    >)
        requires
            old(self).wf(),
        ensures
            final(self).wf(),
            login_post(*old(self), request.email@, request.password@, now, *final(self), r),
    {
        let sid = new_session_id();
        self.login_with(request, sid, now)
    }

    /// Ends the session of `claims`. Ending one that is already gone is no
    /// error.
    pub fn logout(&mut self, claims: &Claims) -> (r: Result<(), AuthServiceError>)
        requires
            old(self).wf(),
        ensures
            final(self).wf(),
            logout_post(*old(self), *claims, *final(self), r),
    {
        let session = Session::new(claims.user_id, claims.uuid);
        self.sessions.delete(&session);
        Ok(())
    }

    /// Whether the session of `claims` is still live.
    pub fn check(&self, claims: &Claims) -> (r: bool)
        ensures
            r == self.check_spec(*claims),
    {
        self.sessions.is_live(&Session::new(claims.user_id, claims.uuid))
    }

    /// Soft-deletes a user and ends all of its sessions.
    pub fn delete_user(&mut self, id: u64, now: u64) -> (r: usize)
        requires
            old(self).wf(),
        ensures
            final(self).wf(),
            final(self).users.user_with_id(id) is None,
            forall|other: u64| other != id ==> final(self).users.user_with_id(other) == old(
                self,
            ).users.user_with_id(other),
            forall|t: Session| #[trigger]
                final(self).sessions.has(t) == (old(self).sessions.has(t) && t.user_id != id),
            r == 1 <==> old(self).users.user_with_id(id) is Some,
            r == 0 <==> old(self).users.user_with_id(id) is None,
            r == 0 ==> final(self).users == old(self).users,
            r == 1 ==> exists|i: int|
                old(self).users.live_id_at(i, id) && #[trigger] final(self).users.rows@ == old(
                    self,
                ).users.rows@.update(i, soft_deleted(old(self).users.rows@[i], now)),
            final(self).users.next_id == old(self).users.next_id,
            final(self).secret == old(self).secret,
            final(self).ttl == old(self).ttl,
    {
        let n = self.users.delete(id, now);
        self.sessions.delete_by_user_id(id);
        n
    }
}

/// After a successful registration, logging in with the same email and
/// password succeeds unless the session identifier drawn collides or signing
/// fails; the new session is live and its token validates until it expires.
pub proof fn lemma_register_then_login(
    s0: AuthService,
    req: UserRequest,
    avatar: Option<String>,
    now1: u64,
    s1: AuthService,
    r1: Result<AuthenticatedUserDTO, AuthServiceError>,
    now2: u64,
    s2: AuthService,
    r2: Result<AuthenticatedUserDTO, AuthServiceError>,
)
    requires
        s0.wf(),
        register_post(s0, req, avatar, now1, s1, r1),
        r1 is Ok,
        login_post(s1, req.email@, req.password@, now2, s2, r2),
    ensures
        r2 is Ok || r2 matches Err(AuthServiceError::SessionConflict) || r2 matches Err(
            AuthServiceError::SigningFailed,
        ),
        r2 matches Ok(d) ==> {
            &&& d.claims.user_id == r1->Ok_0.claims.user_id
            &&& s2.check_spec(d.claims)
            &&& now2 <= d.claims.exp ==> validate_spec(d.token@, s2.secret@, now2) == accepted(d.claims)
        },
{
    let n = s1.users.rows@.len() - 1;
    let u = s1.users.rows@[n];
    assert(s1.users.live_email_at(n, req.email@));
    let i = choose|i: int| s1.users.live_email_at(i, req.email@);
    if i != n {
        assert(s1.users.rows@[i].email@ != s1.users.rows@[n].email@);
    }
    assert(s1.users.user_with_email(req.email@) == Some(u));
    if let Ok(d) = r2 {
        assert(s2.sessions.has(session_of(d.claims)));
        if now2 <= d.claims.exp {
            lemma_issued_token_validates(d.token@, s2.secret@, d.claims, now2);
        }
    }
}

/// Registering with an email that a live user already has is refused as a
/// duplicate, whatever the rest of the body, and no user row is added.
pub proof fn lemma_duplicate_email_refused(
    s0: AuthService,
    req: UserRequest,
    avatar: Option<String>,
    now: u64,
    s1: AuthService,
    r: Result<AuthenticatedUserDTO, AuthServiceError>,
)
    requires
        register_post(s0, req, avatar, now, s1, r),
        s0.users.user_with_email(req.email@) is Some,
    ensures
        r matches Err(AuthServiceError::DuplicateEmail),
        s1.users == s0.users,
{
}

/// A login with an unknown email and one with a wrong password fail the
/// same way, and change nothing.
pub proof fn lemma_login_failures_alike(
    s0: AuthService,
    email: Seq<char>,
    password: Seq<char>,
    now: u64,
    s1: AuthService,
    r: Result<AuthenticatedUserDTO, AuthServiceError>,
)
    requires
        login_post(s0, email, password, now, s1, r),
        s0.users.user_with_email(email) matches Some(u) ==> rehash_of(u.password@, password)
            matches Some(h) && h != u.password@,
    ensures
        r matches Err(AuthServiceError::InvalidCredentials),
        s1 == s0,
{
}

/// After a logout the session no longer passes the check, and logging out
/// again with the same claims succeeds too.
pub proof fn lemma_logout_revokes(
    s0: AuthService,
    claims: Claims,
    s1: AuthService,
    r1: Result<(), AuthServiceError>,
    s2: AuthService,
    r2: Result<(), AuthServiceError>,
)
    requires
        logout_post(s0, claims, s1, r1),
        logout_post(s1, claims, s2, r2),
    ensures
        r1 is Ok,
        !s1.check_spec(claims),
        r2 is Ok,
        !s2.check_spec(claims),
{
}

/// Two successful logins to one account open two different sessions; both
/// pass the check, and logging out of the first leaves the second live.
pub proof fn lemma_two_logins_independent(
    s0: AuthService,
    email: Seq<char>,
    password: Seq<char>,
    now1: u64,
    s1: AuthService,
    r1: Result<AuthenticatedUserDTO, AuthServiceError>,
    now2: u64,
    s2: AuthService,
    r2: Result<AuthenticatedUserDTO, AuthServiceError>,
    s3: AuthService,
    r3: Result<(), AuthServiceError>,
)
    requires
        login_post(s0, email, password, now1, s1, r1),
        login_post(s1, email, password, now2, s2, r2),
        r1 is Ok,
        r2 is Ok,
        logout_post(s2, r1->Ok_0.claims, s3, r3),
    ensures
        session_of(r1->Ok_0.claims) != session_of(r2->Ok_0.claims),
        r1->Ok_0.claims.user_id == r2->Ok_0.claims.user_id,
        s2.check_spec(r1->Ok_0.claims),
        s2.check_spec(r2->Ok_0.claims),
        !s3.check_spec(r1->Ok_0.claims),
        s3.check_spec(r2->Ok_0.claims),
{
    let c1 = r1->Ok_0.claims;
    assert(s1.sessions.has(session_of(c1)));
    assert(s2.sessions.has(session_of(c1)));
}

/// After a successful registration, logging in with the same email and
/// password under a session identifier other than the first session's, with
/// signing that works for its claims, succeeds; the new session is live and
/// its token validates until it expires.
pub proof fn lemma_register_then_login_with(
    s0: AuthService,
    req: UserRequest,
    avatar: Option<String>,
    now1: u64,
    s1: AuthService,
    r1: Result<AuthenticatedUserDTO, AuthServiceError>,
    sid: u128,
    now2: u64,
    s2: AuthService,
    r2: Result<AuthenticatedUserDTO, AuthServiceError>,
)
    requires
        s0.wf(),
        register_post(s0, req, avatar, now1, s1, r1),
        r1 is Ok,
        sid != r1->Ok_0.claims.uuid,
        signed_token(
            claims_json(login_claims(s1, s1.users.rows@.last(), sid, now2)),
            s1.secret@,
        ) is Some,
        login_with_post(s1, req.email@, req.password@, sid, now2, s2, r2),
    ensures
        r2 matches Ok(d) && {
            &&& d.claims.user_id == r1->Ok_0.claims.user_id
            &&& d.claims.uuid == sid
            &&& s2.check_spec(d.claims)
            &&& s2.check_spec(r1->Ok_0.claims)
            &&& now2 <= d.claims.exp ==> validate_spec(d.token@, s2.secret@, now2) == accepted(
                d.claims,
            )
        },
{
    let n = s1.users.rows@.len() - 1;
    let u = s1.users.rows@[n];
    assert(s1.users.live_email_at(n, req.email@));
    let i = choose|i: int| s1.users.live_email_at(i, req.email@);
    if i != n {
        assert(s1.users.rows@[i].email@ != s1.users.rows@[n].email@);
    }
    assert(s1.users.user_with_email(req.email@) == Some(u));
    let taken = Session { user_id: u.id, uuid: sid };
    if s1.sessions.has(taken) {
        assert(s0.sessions.has(taken));
    }
    if let Ok(d) = r2 {
        assert(s2.sessions.has(session_of(d.claims)));
        assert(s2.sessions.has(session_of(r1->Ok_0.claims)));
        if now2 <= d.claims.exp {
            lemma_issued_token_validates(d.token@, s2.secret@, d.claims, now2);
        }
    }
}

} // verus!

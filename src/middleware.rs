//! The per-request gates: authentication by bearer token, loading the
//! object a path names, and the ownership check.

use vstd::prelude::*;
use crate::auth::{logout_post, register_post, session_of, AuthService, AuthServiceError, AuthenticatedUserDTO};
use crate::requests::UserRequest;
use crate::token::lemma_issued_token_validates;
use crate::decimal::{dec, decimal_at, lemma_dec_shape, lemma_decimal_at_unique, read_decimal};
use crate::token::{expect_at, validate, validate_spec, Claims};
use crate::user::{User, UserRepository};

verus! {

/// Why a request was stopped before its handler.
#[derive(Clone, Copy, Debug, PartialEq, Eq, Structural)]
pub enum GateError {
    /// 400: the path is wrong, or the data behind it is.
    BadRequest,
    /// 401: no token, or one that is invalid, expired or revoked.
    Unauthorized,
    /// 403: the caller does not own the object.
    Forbidden,
}

impl GateError {
    pub fn status(&self) -> (r: u16)
        ensures
            self is BadRequest ==> r == 400,
            self is Unauthorized ==> r == 401,
            self is Forbidden ==> r == 403,
    {
        match self {
            GateError::BadRequest => 400,
            GateError::Unauthorized => 401,
            GateError::Forbidden => 403,
        }
    }
}

/// Something that belongs to a user.
pub trait Userable {
    spec fn owner(&self) -> u64;

    fn get_user_id(&self) -> (r: u64)
        ensures
            r == self.owner(),
    ;
}

/// A source of objects by identifier.
pub trait Findable<T> {
    /// The source is in a state where lookups are meaningful.
    spec fn ready(&self) -> bool;

    spec fn found(&self, id: u64) -> Option<T>;

    fn find_by_id(&self, id: u64) -> (r: Option<T>)
        requires
            self.ready(),
        ensures
            r == self.found(id),
    ;
}

impl Userable for User {
    open spec fn owner(&self) -> u64 {
        self.id
    }

    fn get_user_id(&self) -> (r: u64) {
        self.id
    }
}

impl Findable<User> for UserRepository {
    open spec fn ready(&self) -> bool {
        self.wf()
    }

    open spec fn found(&self, id: u64) -> Option<User> {
        self.user_with_id(id)
    }

    fn find_by_id(&self, id: u64) -> (r: Option<User>) {
        UserRepository::find_by_id(self, id)
    }
}

/// The caller of a request that passed authentication.
#[derive(Debug)]
pub struct AuthenticatedIdentity {
    pub user: User,
    pub claims: Claims,
}

pub open spec fn bearer_prefix() -> Seq<char> {
    seq!['B', 'e', 'a', 'r', 'e', 'r', ' ']
}

/// The token in an Authorization header value: what follows a leading
/// "Bearer ", or the whole value when it does not start so.
pub open spec fn strip_bearer_spec(h: Seq<char>) -> Seq<char> {
    if h.len() >= bearer_prefix().len() && h.subrange(0, bearer_prefix().len() as int)
        == bearer_prefix() {
        h.subrange(bearer_prefix().len() as int, h.len() as int)
    } else {
        h
    }
}

pub fn strip_bearer(h: &str) -> (r: &str)
    ensures
        r@ == strip_bearer_spec(h@),
{
    proof {
        reveal_strlit("Bearer ");
    }
    let prefix = "Bearer ";
    assert(prefix@ =~= bearer_prefix());
    match expect_at(h, 0, prefix) {
        Some(p) => h.substring_char(p, h.unicode_len()),
        None => h,
    }
}

/// The outcome of the authentication gate.
pub open spec fn auth_middleware_spec(
    service: AuthService,
    header: Option<Seq<char>>,
    now: u64,
) -> Result<(User, Claims), GateError> {
    match header {
        None => Err(GateError::Unauthorized),
        Some(h) => match validate_spec(strip_bearer_spec(h), service.secret@, now) {
            Err(_) => Err(GateError::Unauthorized),
            Ok(c) => if !service.check_spec(c) {
                Err(GateError::Unauthorized)
            } else {
                match service.users.user_with_id(c.user_id) {
                    None => Err(GateError::BadRequest),
                    Some(u) => Ok((u, c)),
                }
            },
        },
    }
}

pub open spec fn header_view(header: Option<&str>) -> Option<Seq<char>> {
    match header {
        Some(h) => Some(h@),
        None => None,
    }
}

/// Authenticates a request from its Authorization header: the token must
/// be well signed and unexpired, its session live, and its user present.
pub fn auth_middleware(service: &AuthService, header: Option<&str>, now: u64) -> (r: Result<
    AuthenticatedIdentity,
    GateError,
>)
    requires
        service.wf(),
    ensures
        r matches Ok(id) ==> auth_middleware_spec(*service, header_view(header), now) == Ok::<
            (User, Claims),
            GateError,
        >((id.user, id.claims)),
        r matches Err(e) ==> auth_middleware_spec(*service, header_view(header), now) == Err::<
            (User, Claims),
            GateError,
        >(e),
{
    let h = match header {
        Some(h) => h,
        None => return Err(GateError::Unauthorized),
    };
    let token = strip_bearer(h);
    let claims = match validate(token, service.secret.as_slice(), now) {
        Ok(c) => c,
        Err(_) => return Err(GateError::Unauthorized),
    };
    if !service.check(&claims) {
        return Err(GateError::Unauthorized);
    }
    match service.users.find_by_id(claims.user_id) {
        None => Err(GateError::BadRequest),
        Some(user) => Ok(AuthenticatedIdentity { user, claims }),
    }
}

/// The identifier a path segment names: its canonical decimal digits.
pub fn parse_path_id(segment: Option<&str>) -> (r: Option<u64>)
    ensures
        r matches Some(id) ==> segment matches Some(s) && s@ == dec(id as nat),
        forall|id: u64| segment matches Some(s) && s@ == dec(id as nat) ==> r == Some(id),
{
    let s = match segment {
        Some(s) => s,
        None => return None,
    };
    proof {
        assert forall|id: u64| s@ == dec(id as nat) implies decimal_at(s@, 0, id as nat) by {
            lemma_dec_shape(id as nat);
            assert(s@.subrange(0, dec(id as nat).len() as int) =~= s@);
        }
    }
    match read_decimal(s, 0, 0xffff_ffff_ffff_ffff) {
        None => None,
        Some((v, end)) => {
            proof {
                assert forall|id: u64| s@ == dec(id as nat) implies v == id && end == s@.len() by {
                    lemma_decimal_at_unique(s@, 0, v as nat, id as nat);
                }
            }
            if end == s.unicode_len() {
                assert(s@ =~= s@.subrange(0, end as int));
                Some(v as u64)
            } else {
                None
            }
        },
    }
}

/// The identifier a path segment names, when it names one.
pub open spec fn path_id_spec(segment: Option<Seq<char>>) -> Option<u64> {
    match segment {
        Some(s) => if exists|id: u64| s == dec(id as nat) {
            Some(choose|id: u64| s == dec(id as nat))
        } else {
            None
        },
        None => None,
    }
}

/// The outcome of loading the object a path names.
pub open spec fn path_object_spec<T, F: Findable<T>>(finder: F, segment: Option<Seq<char>>) -> Result<
    T,
    GateError,
> {
    match path_id_spec(segment) {
        None => Err(GateError::BadRequest),
        Some(id) => match finder.found(id) {
            None => Err(GateError::BadRequest),
            Some(t) => Ok(t),
        },
    }
}

/// Loads the object whose identifier the path segment holds. A missing or
/// unreadable identifier, or one that names nothing, is a bad request.
pub fn path_object_middleware<T, F: Findable<T>>(finder: &F, segment: Option<&str>) -> (r: Result<
    T,
    GateError,
>)
    requires
        finder.ready(),
    ensures
        r == path_object_spec(*finder, header_view(segment)),
{
    let id = parse_path_id(segment);
    proof {
        if let Some(s) = segment {
            if exists|i: u64| s@ == dec(i as nat) {
                let i = choose|i: u64| s@ == dec(i as nat);
                assert(id == Some(i));
            }
        }
    }
    match id {
        None => Err(GateError::BadRequest),
        Some(id) => match finder.find_by_id(id) {
            None => Err(GateError::BadRequest),
            Some(t) => Ok(t),
        },
    }
}

/// The ownership check: the caller must be the owner.
pub fn is_owner<T: Userable>(resource: &T, identity: &AuthenticatedIdentity) -> (r: Result<
    (),
    GateError,
>)
    ensures
        r is Ok <==> resource.owner() == identity.user.id,
        r matches Err(e) ==> e is Forbidden,
{
    if resource.get_user_id() == identity.user.id {
        Ok(())
    } else {
        Err(GateError::Forbidden)
    }
}

/// The outcome of the owner-scoped gate for caller `me`.
pub open spec fn owner_gate_spec<T: Userable, F: Findable<T>>(
    finder: F,
    segment: Option<Seq<char>>,
    me: u64,
) -> Result<T, GateError> {
    match path_object_spec(finder, segment) {
        Err(e) => Err(e),
        Ok(t) => if t.owner() == me {
            Ok(t)
        } else {
            Err(GateError::Forbidden)
        },
    }
}

/// Loads the object the path names and lets the request through only when
/// the authenticated caller owns it; gives the object.
pub fn is_owner_middleware<T: Userable, F: Findable<T>>(
    finder: &F,
    segment: Option<&str>,
    identity: &AuthenticatedIdentity,
) -> (r: Result<T, GateError>)
    requires
        finder.ready(),
    ensures
        r == owner_gate_spec(*finder, header_view(segment), identity.user.id),
{
    match path_object_middleware(finder, segment) {
        Err(e) => Err(e),
        Ok(t) => match is_owner(&t, identity) {
            Err(e) => Err(e),
            Ok(()) => Ok(t),
        },
    }
}

/// An object owned by one user, loaded for another, is refused with 403.
pub proof fn lemma_foreign_owner_forbidden<T: Userable, F: Findable<T>>(
    finder: F,
    segment: Option<Seq<char>>,
    resource: T,
    me: u64,
)
    requires
        path_object_spec(finder, segment) == Ok::<T, GateError>(resource),
        resource.owner() != me,
    ensures
        owner_gate_spec(finder, segment, me) == Err::<T, GateError>(GateError::Forbidden),
{
}

/// After a successful registration, a request bearing the new token passes
/// authentication as the new user until the token expires; once that
/// session is logged out the same token is refused with 401.
pub proof fn lemma_register_authenticate_logout(
    s0: AuthService,
    req: UserRequest,
    avatar: Option<String>,
    now1: u64,
    s1: AuthService,
    r1: Result<AuthenticatedUserDTO, AuthServiceError>,
    now2: u64,
    s2: AuthService,
    r2: Result<(), AuthServiceError>,
    now3: u64,
)
    requires
        s0.wf(),
        register_post(s0, req, avatar, now1, s1, r1),
        r1 is Ok,
        now2 <= r1->Ok_0.claims.exp,
        logout_post(s1, r1->Ok_0.claims, s2, r2),
    ensures
        auth_middleware_spec(s1, Some(bearer_prefix() + r1->Ok_0.token@), now2) == Ok::<
            (User, Claims),
            GateError,
        >((s1.users.rows@.last(), r1->Ok_0.claims)),
        auth_middleware_spec(s2, Some(bearer_prefix() + r1->Ok_0.token@), now3) == Err::<
            (User, Claims),
            GateError,
        >(GateError::Unauthorized),
{
    let d = r1->Ok_0;
    let h = bearer_prefix() + d.token@;
    assert(h.subrange(0, bearer_prefix().len() as int) =~= bearer_prefix());
    assert(h.subrange(bearer_prefix().len() as int, h.len() as int) =~= d.token@);
    lemma_issued_token_validates(d.token@, s1.secret@, d.claims, now2);
    assert(s1.sessions.has(session_of(d.claims)));
    let n = s1.users.rows@.len() - 1;
    assert(s1.users.live_id_at(n, d.claims.user_id));
    let i = choose|i: int| s1.users.live_id_at(i, d.claims.user_id);
    if i != n {
        assert(s1.users.rows@[i].id != s1.users.rows@[n].id);
    }
    assert(!s2.sessions.has(session_of(d.claims)));
}

} // verus!

use user_auth::auth::{AuthService, AuthServiceError};
use user_auth::requests::{AuthRequest, FieldError, UserRequest, UserUpdateRequest};
use user_auth::session::StorageError;
use user_auth::token::validate;
use user_auth::user::{UserServiceError, UserRepository};

const TTL: u64 = 72 * 3600;

fn service() -> AuthService {
    AuthService::new(b"test secret".to_vec(), TTL)
}

fn body(name: &str, email: &str, password: &str) -> UserRequest {
    UserRequest {
        name: name.to_string(),
        password: password.to_string(),
        email: email.to_string(),
        avatar: None,
    }
}

fn creds(email: &str, password: &str) -> AuthRequest {
    AuthRequest { email: email.to_string(), password: password.to_string() }
}

#[test]
fn register_then_login_gives_live_session() {
    let mut s = service();
    let reg = s.register(body("alice", "a@x.com", "secret123"), None, 1000).unwrap();
    assert_eq!(reg.user.id, 1);
    assert_eq!(reg.user.name, "alice");
    assert_eq!(reg.user.email, "a@x.com");
    assert_eq!(reg.user.created_date, 1000);
    assert_eq!(reg.claims.exp, 1000 + TTL);
    assert!(s.check(&reg.claims));
    let log = s.login(&creds("a@x.com", "secret123"), 2000).unwrap();
    assert_eq!(log.user.id, reg.user.id);
    assert_eq!(log.claims.user_id, 1);
    assert_eq!(log.claims.exp, 2000 + TTL);
    assert!(s.check(&log.claims));
    assert_eq!(validate(&log.token, b"test secret", 2001), Ok(log.claims));
}

#[test]
fn stored_password_is_hashed() {
    let mut s = service();
    s.register(body("alice", "a@x.com", "secret123"), None, 1).unwrap();
    assert_ne!(s.users.rows[0].password, "secret123");
}

#[test]
fn register_keeps_avatar_name() {
    let mut s = service();
    let reg = s
        .register(body("alice", "a@x.com", "secret123"), Some("users/user_alice.png".to_string()), 1)
        .unwrap();
    assert_eq!(reg.user.avatar, Some("users/user_alice.png".to_string()));
}

#[test]
fn duplicate_email_is_refused_without_new_row() {
    let mut s = service();
    s.register(body("alice", "a@x.com", "secret123"), None, 1).unwrap();
    let r = s.register(body("alice2", "a@x.com", "other123"), None, 2);
    assert!(matches!(r, Err(AuthServiceError::DuplicateEmail)));
    assert_eq!(s.users.rows.len(), 1);
    assert_eq!(s.users.next_id, 2);
}

#[test]
fn email_of_deleted_user_can_be_reused() {
    let mut s = service();
    s.register(body("alice", "a@x.com", "secret123"), None, 1).unwrap();
    assert_eq!(s.delete_user(1, 5), 1);
    let again = s.register(body("alice", "a@x.com", "secret123"), None, 6).unwrap();
    assert_eq!(again.user.id, 2);
}

#[test]
fn invalid_body_is_refused_field_by_field() {
    let mut s = service();
    let r = s.register(body("al", "not-an-email", "abc"), None, 1);
    match r {
        Err(AuthServiceError::Validation(v)) => assert_eq!(
            v,
            vec![FieldError::NameTooShort, FieldError::PasswordTooShort, FieldError::InvalidEmail]
        ),
        _ => panic!("expected a validation error"),
    }
    assert_eq!(s.users.rows.len(), 0);
}

#[test]
fn wrong_password_and_unknown_email_fail_alike() {
    let mut s = service();
    s.register(body("alice", "a@x.com", "secret123"), None, 1).unwrap();
    let wrong = s.login(&creds("a@x.com", "secret999"), 2);
    let unknown = s.login(&creds("b@x.com", "secret123"), 2);
    assert!(matches!(wrong, Err(AuthServiceError::InvalidCredentials)));
    assert!(matches!(unknown, Err(AuthServiceError::InvalidCredentials)));
    assert_eq!(format!("{:?}", wrong.unwrap_err()), format!("{:?}", unknown.unwrap_err()));
}

#[test]
fn unusable_stored_hash_fails_login_as_hashing_error() {
    let mut s = service();
    s.register(body("alice", "a@x.com", "secret123"), None, 1).unwrap();
    s.users.rows[0].password = "garbage".to_string();
    let r = s.login(&creds("a@x.com", "secret123"), 2);
    assert!(matches!(r, Err(AuthServiceError::HashingFailed)));
}

#[test]
fn logout_revokes_and_is_idempotent() {
    let mut s = service();
    let reg = s.register(body("alice", "a@x.com", "secret123"), None, 1).unwrap();
    assert!(s.check(&reg.claims));
    assert!(s.logout(&reg.claims).is_ok());
    assert!(!s.check(&reg.claims));
    assert!(s.logout(&reg.claims).is_ok());
    assert!(!s.check(&reg.claims));
}

#[test]
fn two_logins_are_independent_sessions() {
    let mut s = service();
    s.register(body("alice", "a@x.com", "secret123"), None, 1).unwrap();
    let one = s.login(&creds("a@x.com", "secret123"), 2).unwrap();
    let two = s.login(&creds("a@x.com", "secret123"), 3).unwrap();
    assert_ne!(one.claims.uuid, two.claims.uuid);
    assert_ne!(one.token, two.token);
    assert!(s.check(&one.claims));
    assert!(s.check(&two.claims));
    s.logout(&one.claims).unwrap();
    assert!(!s.check(&one.claims));
    assert!(s.check(&two.claims));
    s.logout(&two.claims).unwrap();
    assert!(!s.check(&two.claims));
}

#[test]
fn login_with_taken_session_id_conflicts() {
    let mut s = service();
    s.register(body("alice", "a@x.com", "secret123"), None, 1).unwrap();
    let one = s.login_with(&creds("a@x.com", "secret123"), 42, 2).unwrap();
    assert_eq!(one.claims.uuid, 42);
    let two = s.login_with(&creds("a@x.com", "secret123"), 42, 3);
    assert!(matches!(two, Err(AuthServiceError::SessionConflict)));
    assert_eq!(s.sessions.rows.len(), 2);
}

#[test]
fn deleting_a_user_ends_all_its_sessions() {
    let mut s = service();
    let reg = s.register(body("alice", "a@x.com", "secret123"), None, 1).unwrap();
    let other = s.register(body("bobby", "b@x.com", "secret123"), None, 1).unwrap();
    let log = s.login(&creds("a@x.com", "secret123"), 2).unwrap();
    assert_eq!(s.delete_user(reg.user.id, 3), 1);
    assert!(!s.check(&reg.claims));
    assert!(!s.check(&log.claims));
    assert!(s.check(&other.claims));
    assert!(matches!(
        s.login(&creds("a@x.com", "secret123"), 4),
        Err(AuthServiceError::InvalidCredentials)
    ));
    assert_eq!(s.delete_user(reg.user.id, 5), 0);
}

#[test]
fn expiry_saturates() {
    let mut s = AuthService::new(b"k".to_vec(), u64::MAX);
    let reg = s.register(body("alice", "a@x.com", "secret123"), None, 10).unwrap();
    assert_eq!(reg.claims.exp, u64::MAX);
}

#[test]
fn exhausted_identifiers_are_a_storage_error() {
    let mut s = service();
    s.users.next_id = u64::MAX;
    let r = s.register(body("alice", "a@x.com", "secret123"), None, 1);
    assert!(matches!(r, Err(AuthServiceError::Storage(StorageError::Exhausted))));
}

#[test]
fn store_create_and_find() {
    let mut st = UserRepository::new();
    let u = st.create_user("alice".into(), "a@x.com".into(), "h".into(), None, 9).unwrap();
    assert_eq!(u.id, 1);
    assert_eq!(st.find_by_email("a@x.com").unwrap().id, 1);
    assert_eq!(st.find_by_id(1).unwrap().email, "a@x.com");
    assert!(st.find_by_id(2).is_none());
    let dup = st.create_user("x".into(), "a@x.com".into(), "h".into(), None, 9);
    assert_eq!(dup.unwrap_err(), StorageError::UniqueViolation);
    st.create_user("bob".into(), "b@x.com".into(), "h".into(), None, 9).unwrap();
    st.delete(1, 10);
    let all = st.find_all();
    assert_eq!(all.len(), 1);
    assert_eq!(all[0].name, "bob");
    assert!(st.find_by_email("a@x.com").is_none());
}

#[test]
fn store_update_changes_fields() {
    let mut st = UserRepository::new();
    st.create_user("alice".into(), "a@x.com".into(), "h".into(), None, 1).unwrap();
    st.create_user("bobby".into(), "b@x.com".into(), "h".into(), None, 1).unwrap();
    let change = UserUpdateRequest { name: Some("alicia".into()), email: Some("c@x.com".into()) };
    let u = st.update(1, &change, 5).unwrap();
    assert_eq!(u.name, "alicia");
    assert_eq!(u.email, "c@x.com");
    assert_eq!(u.updated_date, 5);
    assert_eq!(u.created_date, 1);
    let taken = UserUpdateRequest { name: None, email: Some("b@x.com".into()) };
    assert!(matches!(st.update(1, &taken, 6), Err(UserServiceError::DuplicateEmail)));
    let short = UserUpdateRequest { name: Some("ab".into()), email: None };
    assert!(matches!(st.update(1, &short, 6), Err(UserServiceError::Validation(_))));
    let none = UserUpdateRequest { name: None, email: None };
    assert!(matches!(st.update(9, &none, 6), Err(UserServiceError::NotFound)));
}

#[test]
fn request_checks() {
    let ok = AuthRequest { email: "a@x.com".into(), password: "abcd".into() };
    assert!(ok.validate().is_empty());
    let bad = AuthRequest { email: "".into(), password: "abc".into() };
    assert_eq!(bad.validate(), vec![FieldError::InvalidEmail, FieldError::PasswordTooShort]);
    assert_eq!(FieldError::NameTooShort.field(), "name");
    assert_eq!(
        FieldError::InvalidEmail.message(),
        "Email must be a valid email address"
    );
}

#[test]
fn register_with_uses_given_hash_and_session() {
    let mut s = service();
    let hash = user_auth::password::hash_password("secret123").unwrap();
    let reg = s.register_with(body("alice", "a@x.com", "secret123"), None, hash.clone(), 77, 50).unwrap();
    assert_eq!(reg.claims.uuid, 77);
    assert_eq!(reg.claims.user_id, 1);
    assert_eq!(s.users.rows[0].password, hash);
    assert!(s.check(&reg.claims));
    let log = s.login_with(&creds("a@x.com", "secret123"), 78, 60).unwrap();
    assert_eq!(log.claims.uuid, 78);
    assert!(s.check(&log.claims));
}

#[test]
fn duplicate_email_wins_over_field_checks() {
    let mut s = service();
    s.register(body("alice", "a@x.com", "secret123"), None, 1).unwrap();
    let r = s.register(body("al", "a@x.com", "abc"), None, 2);
    assert!(matches!(r, Err(AuthServiceError::DuplicateEmail)));
}

#[test]
fn deletion_keeps_the_row_with_a_date() {
    let mut s = service();
    s.register(body("alice", "a@x.com", "secret123"), None, 1).unwrap();
    assert_eq!(s.delete_user(1, 9), 1);
    assert_eq!(s.users.rows.len(), 1);
    assert_eq!(s.users.rows[0].deleted_date, Some(9));
    assert_eq!(s.users.rows[0].email, "a@x.com");
    assert!(s.users.find_by_id(1).is_none());
}

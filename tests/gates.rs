use user_auth::auth::AuthService;
use user_auth::middleware::{
    auth_middleware, is_owner_middleware, parse_path_id, path_object_middleware, strip_bearer, GateError,
};
use user_auth::requests::{ErrorResponse, UserRequest};
use user_auth::storage::{decode_avatar, next_image_name, user_image_name, BadFileName, ImageStorageService};
use user_auth::token::{issue, Claims};

fn service() -> AuthService {
    AuthService::new(b"gate secret".to_vec(), 72 * 3600)
}

fn register(s: &mut AuthService, name: &str, email: &str) -> user_auth::auth::AuthenticatedUserDTO {
    let body = UserRequest {
        name: name.to_string(),
        password: "secret123".to_string(),
        email: email.to_string(),
        avatar: None,
    };
    s.register(body, None, 1000).unwrap()
}

#[test]
fn end_to_end_register_get_logout_get() {
    let mut s = service();
    let reg = register(&mut s, "alice", "a@x.com");
    let header = format!("Bearer {}", reg.token);
    let me = auth_middleware(&s, Some(&header), 1001).unwrap();
    assert_eq!(me.user.name, "alice");
    assert_eq!(me.user.email, "a@x.com");
    assert_eq!(me.claims, reg.claims);
    assert!(s.logout(&me.claims).is_ok());
    let again = auth_middleware(&s, Some(&header), 1002);
    assert_eq!(again.unwrap_err(), GateError::Unauthorized);
    assert_eq!(GateError::Unauthorized.status(), 401);
}

#[test]
fn missing_header_is_unauthorized() {
    let s = service();
    assert_eq!(auth_middleware(&s, None, 1).unwrap_err(), GateError::Unauthorized);
}

#[test]
fn token_without_prefix_is_accepted() {
    let mut s = service();
    let reg = register(&mut s, "alice", "a@x.com");
    assert!(auth_middleware(&s, Some(&reg.token), 1001).is_ok());
}

#[test]
fn bad_and_expired_tokens_are_unauthorized() {
    let mut s = service();
    let reg = register(&mut s, "alice", "a@x.com");
    let header = format!("Bearer {}", reg.token);
    assert_eq!(auth_middleware(&s, Some("Bearer nope"), 1001).unwrap_err(), GateError::Unauthorized);
    let late = reg.claims.exp + 1;
    assert_eq!(auth_middleware(&s, Some(&header), late).unwrap_err(), GateError::Unauthorized);
    let foreign = issue(&reg.claims, b"other secret").unwrap();
    let fh = format!("Bearer {}", foreign);
    assert_eq!(auth_middleware(&s, Some(&fh), 1001).unwrap_err(), GateError::Unauthorized);
}

#[test]
fn live_session_of_missing_user_is_bad_request() {
    let mut s = service();
    let reg = register(&mut s, "alice", "a@x.com");
    s.users.delete(reg.user.id, 1001);
    let header = format!("Bearer {}", reg.token);
    let r = auth_middleware(&s, Some(&header), 1002);
    assert_eq!(r.unwrap_err(), GateError::BadRequest);
    assert_eq!(GateError::BadRequest.status(), 400);
}

#[test]
fn token_for_unknown_session_is_unauthorized() {
    let mut s = service();
    let reg = register(&mut s, "alice", "a@x.com");
    let forged = Claims { user_id: reg.user.id, uuid: reg.claims.uuid.wrapping_add(1), exp: reg.claims.exp };
    let t = issue(&forged, b"gate secret").unwrap();
    assert_eq!(auth_middleware(&s, Some(&t), 1001).unwrap_err(), GateError::Unauthorized);
}

#[test]
fn bearer_prefix_is_stripped_once() {
    assert_eq!(strip_bearer("Bearer abc"), "abc");
    assert_eq!(strip_bearer("abc"), "abc");
    assert_eq!(strip_bearer("Bearer Bearer abc"), "Bearer abc");
    assert_eq!(strip_bearer("bearer abc"), "bearer abc");
    assert_eq!(strip_bearer("Bearer "), "");
}

#[test]
fn path_ids_are_canonical_decimals() {
    assert_eq!(parse_path_id(Some("17")), Some(17));
    assert_eq!(parse_path_id(Some("0")), Some(0));
    assert_eq!(parse_path_id(None), None);
    assert_eq!(parse_path_id(Some("")), None);
    assert_eq!(parse_path_id(Some("12a")), None);
    assert_eq!(parse_path_id(Some("-3")), None);
    assert_eq!(parse_path_id(Some("18446744073709551615")), Some(u64::MAX));
    assert_eq!(parse_path_id(Some("18446744073709551616")), None);
}

#[test]
fn foreign_resource_is_forbidden() {
    let mut s = service();
    let a = register(&mut s, "alice", "a@x.com");
    let b = register(&mut s, "bobby", "b@x.com");
    let hb = format!("Bearer {}", b.token);
    let bob = auth_middleware(&s, Some(&hb), 1001).unwrap();
    let path = format!("{}", a.user.id);
    let r = is_owner_middleware(&s.users, Some(&path), &bob);
    assert_eq!(r.unwrap_err(), GateError::Forbidden);
    assert_eq!(GateError::Forbidden.status(), 403);
}

#[test]
fn own_resource_passes() {
    let mut s = service();
    let a = register(&mut s, "alice", "a@x.com");
    let ha = format!("Bearer {}", a.token);
    let alice = auth_middleware(&s, Some(&ha), 1001).unwrap();
    let path = format!("{}", a.user.id);
    let u = is_owner_middleware(&s.users, Some(&path), &alice).unwrap();
    assert_eq!(u.email, "a@x.com");
}

#[test]
fn missing_or_unknown_path_object_is_bad_request() {
    let mut s = service();
    let a = register(&mut s, "alice", "a@x.com");
    let ha = format!("Bearer {}", a.token);
    let alice = auth_middleware(&s, Some(&ha), 1001).unwrap();
    assert_eq!(is_owner_middleware(&s.users, None, &alice).unwrap_err(), GateError::BadRequest);
    assert_eq!(is_owner_middleware(&s.users, Some("x1"), &alice).unwrap_err(), GateError::BadRequest);
    assert_eq!(is_owner_middleware(&s.users, Some("99"), &alice).unwrap_err(), GateError::BadRequest);
    assert_eq!(path_object_middleware(&s.users, Some("1")).unwrap().name, "alice");
}

#[test]
fn image_names() {
    assert_eq!(user_image_name("alice"), "users/user_alice.png");
    assert_eq!(next_image_name("pic.png", 42).unwrap(), "pic_42.png");
    assert_eq!(next_image_name("a.b.png", 1).unwrap_err(), BadFileName);
    assert_eq!(next_image_name("noext", 1).unwrap_err(), BadFileName);
    assert_eq!(next_image_name(".png", 0).unwrap(), "_0.png");
    let st = ImageStorageService::new("file_storage");
    assert_eq!(st.loc, "file_storage");
}

#[test]
fn avatar_is_decoded_from_base64() {
    assert_eq!(decode_avatar("aGVsbG8=").unwrap(), b"hello".to_vec());
    assert!(decode_avatar("not base64!").is_none());
}

#[test]
fn error_bodies() {
    let e = ErrorResponse::new_error(Some("boom".to_string()));
    assert_eq!(e.error, Some("boom".to_string()));
    assert!(e.field_errors.is_none());
    let f = ErrorResponse::new_field_errors(None);
    assert!(f.error.is_none());
}

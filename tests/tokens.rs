use user_auth::decimal::{read_decimal, write_decimal};
use user_auth::password::{constant_time_eq, hash_password, is_printable_ascii, verify_password};
use user_auth::token::{claims_to_text, issue, parse_claims, validate, Claims, TokenError};

const SECRET: &[u8] = b"0123456789abcdef";

#[test]
fn decimal_writes_canonical_digits() {
    let mut s = String::new();
    write_decimal(&mut s, 0);
    s.push(' ');
    write_decimal(&mut s, 1234567890);
    s.push(' ');
    write_decimal(&mut s, u128::MAX);
    assert_eq!(s, format!("0 1234567890 {}", u128::MAX));
}

#[test]
fn decimal_reads_back_and_refuses_leading_zero() {
    assert_eq!(read_decimal("x42,", 1, 100), Some((42, 3)));
    assert_eq!(read_decimal("042", 0, 100), None);
    assert_eq!(read_decimal("0", 0, 100), Some((0, 1)));
    assert_eq!(read_decimal("101", 0, 100), None);
    assert_eq!(read_decimal("abc", 0, 100), None);
    assert_eq!(read_decimal("", 0, 100), None);
    let big = format!("{}", u128::MAX);
    assert_eq!(read_decimal(&big, 0, u128::MAX), Some((u128::MAX, big.len())));
    let over = format!("{}0", u128::MAX);
    assert_eq!(read_decimal(&over, 0, u128::MAX), None);
}

#[test]
fn claims_text_is_exact() {
    let c = Claims { user_id: 7, uuid: 99, exp: 1700000000 };
    assert_eq!(claims_to_text(&c), "{\"user_id\":7,\"uuid\":99,\"exp\":1700000000}");
}

#[test]
fn claims_text_round_trips() {
    let c = Claims { user_id: u64::MAX, uuid: u128::MAX, exp: 0 };
    let t = claims_to_text(&c);
    assert_eq!(parse_claims(&t), Some(c));
}

#[test]
fn claims_parse_refuses_other_texts() {
    assert_eq!(parse_claims("{\"user_id\":07,\"uuid\":1,\"exp\":2}"), None);
    assert_eq!(parse_claims("{\"user_id\":7,\"uuid\":1,\"exp\":2} "), None);
    assert_eq!(parse_claims("{\"user_id\":7, \"uuid\":1,\"exp\":2}"), None);
    assert_eq!(parse_claims("{\"user_id\":18446744073709551616,\"uuid\":1,\"exp\":2}"), None);
    assert_eq!(parse_claims(""), None);
}

#[test]
fn issued_token_validates() {
    let c = Claims { user_id: 3, uuid: 12345678901234567890, exp: 5000 };
    let t = issue(&c, SECRET).unwrap();
    assert_eq!(t.split('.').count(), 3);
    assert_ne!(t, claims_to_text(&c));
    assert_eq!(validate(&t, SECRET, 4000), Ok(c));
    assert_eq!(validate(&t, SECRET, 5000), Ok(c));
}

#[test]
fn expired_token_is_rejected_though_signed() {
    let c = Claims { user_id: 3, uuid: 1, exp: 5000 };
    let t = issue(&c, SECRET).unwrap();
    assert_eq!(validate(&t, SECRET, 5001), Err(TokenError::Expired));
}

#[test]
fn token_under_other_secret_has_bad_signature() {
    let c = Claims { user_id: 3, uuid: 1, exp: 5000 };
    let t = issue(&c, SECRET).unwrap();
    assert_eq!(validate(&t, b"another secret", 1), Err(TokenError::BadSignature));
}

#[test]
fn tampered_token_has_bad_signature() {
    let c = Claims { user_id: 3, uuid: 1, exp: 5000 };
    let other = Claims { user_id: 4, uuid: 1, exp: 5000 };
    let t = issue(&c, SECRET).unwrap();
    let u = issue(&other, SECRET).unwrap();
    let parts: Vec<&str> = t.split('.').collect();
    let uparts: Vec<&str> = u.split('.').collect();
    let forged = format!("{}.{}.{}", parts[0], uparts[1], parts[2]);
    assert_eq!(validate(&forged, SECRET, 1), Err(TokenError::BadSignature));
}

#[test]
fn garbage_token_is_malformed() {
    assert_eq!(validate("not a token", SECRET, 1), Err(TokenError::Malformed));
    assert_eq!(validate("", SECRET, 1), Err(TokenError::Malformed));
}

#[test]
fn password_hash_verifies() {
    let h = hash_password("secret123").unwrap();
    assert_ne!(h, "secret123");
    assert!(h.starts_with("$2b$"));
    assert_eq!(verify_password(&h, "secret123"), Ok(true));
    assert_eq!(verify_password(&h, "secret124"), Ok(false));
}

#[test]
fn password_hashes_are_salted() {
    let a = hash_password("secret123").unwrap();
    let b = hash_password("secret123").unwrap();
    assert_ne!(a, b);
}

#[test]
fn unusable_stored_hash_is_an_error() {
    assert!(verify_password("not a hash", "secret123").is_err());
}

#[test]
fn constant_time_eq_compares() {
    assert!(constant_time_eq("abc", "abc"));
    assert!(!constant_time_eq("abc", "abd"));
    assert!(!constant_time_eq("abc", "abcd"));
    assert!(constant_time_eq("", ""));
}

#[test]
fn stored_hash_outside_printable_ascii_is_an_error() {
    let high = format!("$2b$10${}{}", '\u{80}', "a".repeat(52));
    assert!(verify_password(&high, "secret123").is_err());
    let low = format!("$2b$10${}{}", '\u{1}', "a".repeat(52));
    assert!(verify_password(&low, "secret123").is_err());
}

#[test]
fn printable_ascii_check() {
    assert!(is_printable_ascii(" ~az$"));
    assert!(!is_printable_ascii("tab\there"));
    assert!(!is_printable_ascii("caf\u{e9}"));
    assert!(is_printable_ascii(""));
}

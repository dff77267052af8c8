//! Bearer tokens: signed tokens whose payload carries the claims of one
//! session. The payload is the canonical text
//! `{"user_id":<digits>,"uuid":<digits>,"exp":<digits>}`; jsonwebtoken signs
//! and checks it with a shared HMAC secret.

use vstd::prelude::*;
use crate::decimal::{dec, decimal_at, lemma_dec_shape, lemma_decimal_at_unique, read_decimal, write_decimal};
use vstd::string::StringExecFns;

verus! {

/// The payload of a token: whose session it is, which session, and until
/// when it may be used (seconds since the Unix epoch).
#[derive(Clone, Copy, Debug, PartialEq, Eq, Structural)]
pub struct Claims {
    pub user_id: u64,
    pub uuid: u128,
    pub exp: u64,
}

/// Why a token was refused.
#[derive(Clone, Copy, Debug, PartialEq, Eq, Structural)]
pub enum TokenError {
    /// Not a token, or its payload is not a claims text.
    Malformed,
    /// The signature does not match the payload under the secret.
    BadSignature,
    /// The expiry has passed.
    Expired,
    /// Signing failed.
    Signing,
}

pub open spec fn key_user_id() -> Seq<char> {
    seq!['{', '"', 'u', 's', 'e', 'r', '_', 'i', 'd', '"', ':']
}

pub open spec fn key_uuid() -> Seq<char> {
    seq![',', '"', 'u', 'u', 'i', 'd', '"', ':']
}

pub open spec fn key_exp() -> Seq<char> {
    seq![',', '"', 'e', 'x', 'p', '"', ':']
}

pub open spec fn closing() -> Seq<char> {
    seq!['}']
}

/// The payload text of a token that carries `c`.
pub open spec fn claims_json(c: Claims) -> Seq<char> {
    key_user_id() + dec(c.user_id as nat) + key_uuid() + dec(c.uuid as nat) + key_exp() + dec(
        c.exp as nat,
    ) + closing()
}

pub open spec fn is_claims_text(s: Seq<char>) -> bool {
    exists|c: Claims| s == claims_json(c)
}

/// Where each part of `claims_json(c)` starts.
pub open spec fn user_id_at(c: Claims) -> int {
    key_user_id().len() as int
}

pub open spec fn uuid_key_at(c: Claims) -> int {
    user_id_at(c) + dec(c.user_id as nat).len()
}

pub open spec fn uuid_at(c: Claims) -> int {
    uuid_key_at(c) + key_uuid().len()
}

pub open spec fn exp_key_at(c: Claims) -> int {
    uuid_at(c) + dec(c.uuid as nat).len()
}

pub open spec fn exp_at(c: Claims) -> int {
    exp_key_at(c) + key_exp().len()
}

pub open spec fn closing_at(c: Claims) -> int {
    exp_at(c) + dec(c.exp as nat).len()
}

pub open spec fn laid_out(s: Seq<char>, c: Claims) -> bool {
    &&& s.len() == closing_at(c) + 1
    &&& s.subrange(0, user_id_at(c)) == key_user_id()
    &&& decimal_at(s, user_id_at(c), c.user_id as nat)
    &&& s.subrange(uuid_key_at(c), uuid_at(c)) == key_uuid()
    &&& decimal_at(s, uuid_at(c), c.uuid as nat)
    &&& s.subrange(exp_key_at(c), exp_at(c)) == key_exp()
    &&& decimal_at(s, exp_at(c), c.exp as nat)
    &&& s.subrange(closing_at(c), closing_at(c) + 1) == closing()
}

proof fn lemma_layout(c: Claims)
    ensures
        laid_out(claims_json(c), c),
{
    let s = claims_json(c);
    let a = dec(c.user_id as nat);
    let b = dec(c.uuid as nat);
    let e = dec(c.exp as nat);
    lemma_dec_shape(c.user_id as nat);
    lemma_dec_shape(c.uuid as nat);
    lemma_dec_shape(c.exp as nat);
    assert(s.subrange(0, user_id_at(c)) =~= key_user_id());
    assert(s.subrange(user_id_at(c), uuid_key_at(c)) =~= a);
    assert(s.subrange(uuid_key_at(c), uuid_at(c)) =~= key_uuid());
    assert(s.subrange(uuid_at(c), exp_key_at(c)) =~= b);
    assert(s.subrange(exp_key_at(c), exp_at(c)) =~= key_exp());
    assert(s.subrange(exp_at(c), closing_at(c)) =~= e);
    assert(s.subrange(closing_at(c), closing_at(c) + 1) =~= closing());
    assert(s[uuid_key_at(c)] == ',');
    assert(s[exp_key_at(c)] == ',');
    assert(s[closing_at(c)] == '}');
}

fn lit_user_id() -> (r: &'static str)
    ensures
        r@ == key_user_id(),
{
    proof {
        reveal_strlit("{\"user_id\":");
    }
    let r = "{\"user_id\":";
    assert(r@ =~= key_user_id());
    r
}

fn lit_uuid() -> (r: &'static str)
    ensures
        r@ == key_uuid(),
{
    proof {
        reveal_strlit(",\"uuid\":");
    }
    let r = ",\"uuid\":";
    assert(r@ =~= key_uuid());
    r
}

fn lit_exp() -> (r: &'static str)
    ensures
        r@ == key_exp(),
{
    proof {
        reveal_strlit(",\"exp\":");
    }
    let r = ",\"exp\":";
    assert(r@ =~= key_exp());
    r
}

fn lit_closing() -> (r: &'static str)
    ensures
        r@ == closing(),
{
    proof {
        reveal_strlit("}");
    }
    let r = "}";
    assert(r@ =~= closing());
    r
}

/// Writes the payload text of `c`.
pub fn claims_to_text(c: &Claims) -> (r: String)
    ensures
        r@ == claims_json(*c),
{
    let mut s = String::new();
    s.append(lit_user_id());
    write_decimal(&mut s, c.user_id as u128);
    s.append(lit_uuid());
    write_decimal(&mut s, c.uuid);
    s.append(lit_exp());
    write_decimal(&mut s, c.exp as u128);
    s.append(lit_closing());
    assert(s@ =~= claims_json(*c));
    s
}

/// Checks that `lit` stands in `s` at `pos`; gives the position after it.
pub(crate) fn expect_at(s: &str, pos: usize, lit: &str) -> (r: Option<usize>)
    requires
        pos <= s@.len(),
    ensures
        match r {
            Some(e) => e == pos + lit@.len() && e <= s@.len() && s@.subrange(pos as int, e as int)
                == lit@,
            None => !(pos + lit@.len() <= s@.len() && s@.subrange(
                pos as int,
                pos + lit@.len(),
            ) == lit@),
        },
{
    let n = lit.unicode_len();
    let len = s.unicode_len();
    if n > len - pos {
        return None;
    }
    let mut i: usize = 0;
    while i < n
        invariant
            0 <= i <= n,
            n == lit@.len(),
            len == s@.len(),
            pos + n <= len,
            forall|k: int| 0 <= k < i ==> s@[pos + k] == lit@[k],
        decreases n - i,
    {
        if s.get_char(pos + i) != lit.get_char(i) {
            assert(s@.subrange(pos as int, pos + n)[i as int] != lit@[i as int]);
            return None;
        }
        i = i + 1;
    }
    assert(s@.subrange(pos as int, pos + n) =~= lit@);
    Some(pos + n)
}

/// Reads a payload text back into claims. Exactly the texts that
/// `claims_to_text` writes are accepted.
pub fn parse_claims(s: &str) -> (r: Option<Claims>)
    ensures
        r matches Some(c) ==> s@ == claims_json(c),
        forall|c: Claims| s@ == claims_json(c) ==> r == Some(c),
{
    proof {
        assert forall|c: Claims| s@ == claims_json(c) implies laid_out(s@, c) by {
            lemma_layout(c);
        }
    }
    let p1 = match expect_at(s, 0, lit_user_id()) {
        Some(p) => p,
        None => return None,
    };
    let (user_id, p2) = match read_decimal(s, p1, 0xffff_ffff_ffff_ffff) {
        Some(x) => x,
        None => return None,
    };
    proof {
        assert forall|c: Claims| s@ == claims_json(c) implies c.user_id == user_id && p2
            == uuid_key_at(c) by {
            lemma_decimal_at_unique(s@, p1 as int, user_id as nat, c.user_id as nat);
        }
    }
    let p3 = match expect_at(s, p2, lit_uuid()) {
        Some(p) => p,
        None => return None,
    };
    let (uuid, p4) = match read_decimal(s, p3, 0xffff_ffff_ffff_ffff_ffff_ffff_ffff_ffff) {
        Some(x) => x,
        None => return None,
    };
    proof {
        assert forall|c: Claims| s@ == claims_json(c) implies c.uuid == uuid && p4 == exp_key_at(
            c,
        ) by {
            lemma_decimal_at_unique(s@, p3 as int, uuid as nat, c.uuid as nat);
        }
    }
    let p5 = match expect_at(s, p4, lit_exp()) {
        Some(p) => p,
        None => return None,
    };
    let (exp, p6) = match read_decimal(s, p5, 0xffff_ffff_ffff_ffff) {
        Some(x) => x,
        None => return None,
    };
    proof {
        assert forall|c: Claims| s@ == claims_json(c) implies c.exp == exp && p6 == closing_at(
            c,
        ) by {
            lemma_decimal_at_unique(s@, p5 as int, exp as nat, c.exp as nat);
        }
    }
    let p7 = match expect_at(s, p6, lit_closing()) {
        Some(p) => p,
        None => return None,
    };
    if p7 != s.unicode_len() {
        return None;
    }
    let c = Claims { user_id: user_id as u64, uuid, exp: exp as u64 };
    proof {
        let t = s@;
        assert(t.subrange(p1 as int, p2 as int) == dec(c.user_id as nat));
        assert(t.subrange(p3 as int, p4 as int) == dec(c.uuid as nat));
        assert(t.subrange(p5 as int, p6 as int) == dec(c.exp as nat));
        assert(t =~= t.subrange(0, p1 as int) + t.subrange(p1 as int, p2 as int) + t.subrange(
            p2 as int,
            p3 as int,
        ) + t.subrange(p3 as int, p4 as int) + t.subrange(p4 as int, p5 as int) + t.subrange(
            p5 as int,
            p6 as int,
        ) + t.subrange(p6 as int, p7 as int));
    }
    Some(c)
}

/// Two claims with the same payload text are the same claims.
pub proof fn lemma_claims_json_injective(a: Claims, b: Claims)
    requires
        claims_json(a) == claims_json(b),
    ensures
        a == b,
{
    let s = claims_json(a);
    lemma_layout(a);
    lemma_layout(b);
    lemma_decimal_at_unique(s, user_id_at(a), a.user_id as nat, b.user_id as nat);
    lemma_decimal_at_unique(s, uuid_at(a), a.uuid as nat, b.uuid as nat);
    lemma_decimal_at_unique(s, exp_at(a), a.exp as nat, b.exp as nat);
}

/// A decoded token that carries payload `p`.
pub open spec fn carried(p: Seq<char>) -> Result<Seq<char>, bool> {
    Ok(p)
}

/// A refused token; `true` when the signature was what failed.
pub open spec fn refused(bad_signature: bool) -> Result<Seq<char>, bool> {
    Err(bad_signature)
}

/// What jsonwebtoken::encode gives for a payload text, with the default
/// header (HS256) and an HMAC key made from the secret.
pub uninterp spec fn signed_token(payload: Seq<char>, secret: Seq<u8>) -> Option<Seq<char>>;

/// What jsonwebtoken::decode gives for a token under an HMAC key made from
/// the secret, checking the signature and nothing time-dependent: the
/// payload text, or `Err(true)` when the signature does not match, or
/// `Err(false)` for any other refusal.
pub uninterp spec fn token_payload(token: Seq<char>, secret: Seq<u8>) -> Result<Seq<char>, bool>;

/// Relies on jsonwebtoken::encode (the payload goes in verbatim as a raw
/// JSON value): HMAC signing is deterministic, and jsonwebtoken::decode under
/// the same secret gives the payload back.
#[verifier::external_body]
fn sign_payload(payload: &str, secret: &[u8]) -> (r: Option<String>)
    requires
        is_claims_text(payload@),
    ensures
        r matches Some(t) ==> signed_token(payload@, secret@) == Some(t@),
        r is None ==> signed_token(payload@, secret@) is None,
        r matches Some(t) ==> token_payload(t@, secret@) == carried(payload@),
{
    let raw = serde_json::value::RawValue::from_string(payload.to_string()).ok()?;
    let key = jsonwebtoken::EncodingKey::from_secret(secret);
    jsonwebtoken::encode(&jsonwebtoken::Header::default(), &raw, &key).ok()
}

/// Relies on jsonwebtoken::decode with HS256, the signature checked and
/// expiry, audience and required claims left to this library.
#[verifier::external_body]
fn open_token(token: &str, secret: &[u8]) -> (r: Result<String, bool>)
    ensures
        r matches Ok(p) ==> token_payload(token@, secret@) == carried(p@),
        r matches Err(b) ==> token_payload(token@, secret@) == refused(b),
{
    let mut validation = jsonwebtoken::Validation::new(jsonwebtoken::Algorithm::HS256);
    validation.validate_exp = false;
    validation.validate_aud = false;
    validation.required_spec_claims.clear();
    let key = jsonwebtoken::DecodingKey::from_secret(secret);
    match jsonwebtoken::decode::<Box<serde_json::value::RawValue>>(token, &key, &validation) {
        Ok(data) => Ok(data.claims.get().to_string()),
        Err(e) => match e.kind() {
            jsonwebtoken::errors::ErrorKind::InvalidSignature => Err(true),
            _ => Err(false),
        },
    }
}

/// Signs a token that carries `claims`.
pub fn issue(claims: &Claims, secret: &[u8]) -> (r: Result<String, TokenError>)
    ensures
        match r {
            Ok(t) => signed_token(claims_json(*claims), secret@) == Some(t@) && token_payload(
                t@,
                secret@,
            ) == carried(claims_json(*claims)),
            Err(e) => e == TokenError::Signing && signed_token(claims_json(*claims), secret@) is None,
        },
{
    let payload = claims_to_text(claims);
    match sign_payload(payload.as_str(), secret) {
        Some(t) => Ok(t),
        None => Err(TokenError::Signing),
    }
}

/// A token accepted with claims `c`.
pub open spec fn accepted(c: Claims) -> Result<Claims, TokenError> {
    Ok(c)
}

/// The outcome of checking `token` at time `now`.
pub open spec fn validate_spec(token: Seq<char>, secret: Seq<u8>, now: u64) -> Result<
    Claims,
    TokenError,
> {
    match token_payload(token, secret) {
        Err(bad_signature) => if bad_signature {
            Err(TokenError::BadSignature)
        } else {
            Err(TokenError::Malformed)
        },
        Ok(p) => if is_claims_text(p) {
            let c = choose|c: Claims| p == claims_json(c);
            if c.exp < now {
                Err(TokenError::Expired)
            } else {
                Ok(c)
            }
        } else {
            Err(TokenError::Malformed)
        },
    }
}

/// Checks the signature of `token`, reads its claims, and refuses it once
/// its expiry lies before `now`.
pub fn validate(token: &str, secret: &[u8], now: u64) -> (r: Result<Claims, TokenError>)
    ensures
        r == validate_spec(token@, secret@, now),
{
    let payload = match open_token(token, secret) {
        Ok(p) => p,
        Err(bad_signature) => {
            if bad_signature {
                return Err(TokenError::BadSignature);
            } else {
                return Err(TokenError::Malformed);
            }
        },
    };
    match parse_claims(payload.as_str()) {
        None => Err(TokenError::Malformed),
        Some(c) => {
            if c.exp < now {
                Err(TokenError::Expired)
            } else {
                Ok(c)
            }
        },
    }
}

/// A token whose signature is good but whose expiry has passed is refused
/// as expired.
pub proof fn lemma_expired_token_rejected(token: Seq<char>, secret: Seq<u8>, c: Claims, now: u64)
    requires
        token_payload(token, secret) == carried(claims_json(c)),
        c.exp < now,
    ensures
        validate_spec(token, secret, now) == Err::<Claims, TokenError>(TokenError::Expired),
{
    let d = choose|d: Claims| claims_json(c) == claims_json(d);
    lemma_claims_json_injective(c, d);
}

/// A token that `issue` signed is accepted by `validate` with the same
/// secret, and gives back its claims, as long as they have not expired.
pub proof fn lemma_issued_token_validates(token: Seq<char>, secret: Seq<u8>, c: Claims, now: u64)
    requires
        token_payload(token, secret) == carried(claims_json(c)),
        now <= c.exp,
    ensures
        validate_spec(token, secret, now) == accepted(c),
{
    let d = choose|d: Claims| claims_json(c) == claims_json(d);
    lemma_claims_json_injective(c, d);
}

} // verus!

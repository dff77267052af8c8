//! Request bodies and the field checks they must pass, and the error body
//! that responses carry.

use std::collections::HashMap;
use vstd::prelude::*;

verus! {

/// Registration body. `avatar` is an image in standard base64, if any.
#[derive(Debug)]
pub struct UserRequest {
    pub name: String,
    pub password: String,
    pub email: String,
    pub avatar: Option<String>,
}

/// Profile change body: each field present is changed.
#[derive(Debug)]
pub struct UserUpdateRequest {
    pub name: Option<String>,
    pub email: Option<String>,
}

/// Login body.
#[derive(Debug)]
pub struct AuthRequest {
    pub email: String,
    pub password: String,
}

/// A field that failed its check.
#[derive(Clone, Copy, Debug, PartialEq, Eq, Structural)]
pub enum FieldError {
    NameTooShort,
    PasswordTooShort,
    InvalidEmail,
}

impl FieldError {
    /// The name of the field in the request body.
    pub fn field(&self) -> (r: &'static str)
        ensures
            *self is NameTooShort ==> r@ == "name"@,
            *self is PasswordTooShort ==> r@ == "password"@,
            *self is InvalidEmail ==> r@ == "email"@,
    {
        match self {
            FieldError::NameTooShort => "name",
            FieldError::PasswordTooShort => "password",
            FieldError::InvalidEmail => "email",
        }
    }

    /// What the caller is told.
    pub fn message(&self) -> (r: &'static str)
        ensures
            *self is NameTooShort ==> r@ == "Name must be at least 4 characters long"@,
            *self is PasswordTooShort ==> r@ == "Password must be at least 4 characters long"@,
            *self is InvalidEmail ==> r@ == "Email must be a valid email address"@,
    {
        match self {
            FieldError::NameTooShort => "Name must be at least 4 characters long",
            FieldError::PasswordTooShort => "Password must be at least 4 characters long",
            FieldError::InvalidEmail => "Email must be a valid email address",
        }
    }
}

/// The fewest characters a name or a password may have.
pub const MIN_LENGTH: usize = 4;

/// What validator::ValidateEmail::validate_email says of a string.
pub uninterp spec fn email_is_valid(s: Seq<char>) -> bool;

/// Relies on validator::ValidateEmail::validate_email, which refuses an
/// empty string and one without '@' before anything else.
#[verifier::external_body]
fn check_email(s: &str) -> (r: bool)
    ensures
        r == email_is_valid(s@),
        (s@.len() == 0 || !s@.contains('@')) ==> !r,
{
    validator::ValidateEmail::validate_email(&s)
}

pub open spec fn name_error(name: Seq<char>) -> Seq<FieldError> {
    if name.len() < MIN_LENGTH {
        seq![FieldError::NameTooShort]
    } else {
        Seq::empty()
    }
}

pub open spec fn password_error(password: Seq<char>) -> Seq<FieldError> {
    if password.len() < MIN_LENGTH {
        seq![FieldError::PasswordTooShort]
    } else {
        Seq::empty()
    }
}

pub open spec fn email_error(email: Seq<char>) -> Seq<FieldError> {
    if !email_is_valid(email) {
        seq![FieldError::InvalidEmail]
    } else {
        Seq::empty()
    }
}

/// The checks of a registration body, in field order.
pub open spec fn user_request_errors(
    name: Seq<char>,
    password: Seq<char>,
    email: Seq<char>,
) -> Seq<FieldError> {
    name_error(name) + password_error(password) + email_error(email)
}

fn push_name_error(out: &mut Vec<FieldError>, name: &str)
    ensures
        final(out)@ == old(out)@ + name_error(name@),
{
    if name.unicode_len() < MIN_LENGTH {
        out.push(FieldError::NameTooShort);
    }
    assert(final(out)@ =~= old(out)@ + name_error(name@));
}

fn push_password_error(out: &mut Vec<FieldError>, password: &str)
    ensures
        final(out)@ == old(out)@ + password_error(password@),
{
    if password.unicode_len() < MIN_LENGTH {
        out.push(FieldError::PasswordTooShort);
    }
    assert(final(out)@ =~= old(out)@ + password_error(password@));
}

fn push_email_error(out: &mut Vec<FieldError>, email: &str)
    ensures
        final(out)@ == old(out)@ + email_error(email@),
{
    if !check_email(email) {
        out.push(FieldError::InvalidEmail);
    }
    assert(final(out)@ =~= old(out)@ + email_error(email@));
}

impl UserRequest {
    /// Every check that fails; none when the body is acceptable.
    pub fn validate(&self) -> (r: Vec<FieldError>)
        ensures
            r@ == user_request_errors(self.name@, self.password@, self.email@),
    {
        let mut out: Vec<FieldError> = Vec::new();
        push_name_error(&mut out, self.name.as_str());
        push_password_error(&mut out, self.password.as_str());
        push_email_error(&mut out, self.email.as_str());
        assert(out@ =~= user_request_errors(self.name@, self.password@, self.email@));
        out
    }
}

impl UserUpdateRequest {
    /// Every check that fails among the fields present.
    pub fn validate(&self) -> (r: Vec<FieldError>)
        ensures
            r@ == (match self.name {
                Some(n) => name_error(n@),
                None => Seq::empty(),
            }) + (match self.email {
                Some(e) => email_error(e@),
                None => Seq::empty(),
            }),
    {
        let mut out: Vec<FieldError> = Vec::new();
        match &self.name {
            Some(n) => push_name_error(&mut out, n.as_str()),
            None => {},
        }
        let ghost mid = out@;
        match &self.email {
            Some(e) => push_email_error(&mut out, e.as_str()),
            None => {},
        }
        assert(out@ =~= mid + (match self.email {
            Some(e) => email_error(e@),
            None => Seq::empty(),
        }));
        assert(mid =~= Seq::<FieldError>::empty() + (match self.name {
            Some(n) => name_error(n@),
            None => Seq::empty(),
        }));
        out
    }
}

impl AuthRequest {
    /// Every check that fails.
    pub fn validate(&self) -> (r: Vec<FieldError>)
        ensures
            r@ == email_error(self.email@) + password_error(self.password@),
    {
        let mut out: Vec<FieldError> = Vec::new();
        push_email_error(&mut out, self.email.as_str());
        push_password_error(&mut out, self.password.as_str());
        assert(out@ =~= email_error(self.email@) + password_error(self.password@));
        out
    }
}

/// The body of a failed response: field messages, or one message.
pub struct ErrorResponse {
    pub field_errors: Option<HashMap<String, Vec<String>>>,
    pub error: Option<String>,
}

impl ErrorResponse {
    pub fn new_error(error: Option<String>) -> (r: Self)
        ensures
            r.field_errors is None,
            r.error == error,
    {
        ErrorResponse { field_errors: None, error }
    }

    pub fn new_field_errors(field_errors: Option<HashMap<String, Vec<String>>>) -> (r: Self)
        ensures
            r.field_errors == field_errors,
            r.error is None,
    {
        ErrorResponse { field_errors, error: None }
    }
}

} // verus!

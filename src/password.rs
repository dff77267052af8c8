//! Password hashing with salted bcrypt, and a check that tells a wrong
//! password apart from a stored hash that cannot be used.

use vstd::prelude::*;

verus! {

/// The hash string could not be produced or read.
#[derive(Clone, Copy, Debug, PartialEq, Eq, Structural)]
pub struct HashError;

/// What pwhash::bcrypt::hash_with gives when the setup (variant, cost and
/// salt) is read from `stored`: the bcrypt hash of `password` under that
/// setup, or `None` when `stored` does not hold a usable setup.
pub uninterp spec fn bcrypt_with_setup(stored: Seq<char>, password: Seq<char>) -> Option<Seq<char>>;

/// Every character is printable ASCII, from ' ' to '~'.
pub open spec fn printable_ascii(s: Seq<char>) -> bool {
    forall|i: int| 0 <= i < s.len() ==> ' ' <= #[trigger] s[i] && s[i] <= '~'
}

/// The hash of `password` under the setup that `stored` names, when
/// `stored` is text that can be read as a setup at all.
pub open spec fn rehash_of(stored: Seq<char>, password: Seq<char>) -> Option<Seq<char>> {
    if printable_ascii(stored) {
        bcrypt_with_setup(stored, password)
    } else {
        None
    }
}

/// `stored` is a bcrypt hash of `password`.
pub open spec fn password_matches(stored: Seq<char>, password: Seq<char>) -> bool {
    rehash_of(stored, password) == Some(stored)
}

/// Relies on pwhash::bcrypt::hash: a fresh random salt and the default cost;
/// the hash it gives names its own setup, so hashing the same password
/// again under it gives the same string (what pwhash::bcrypt::verify checks),
/// and it is written in printable ASCII ('$', digits and the bcrypt base64
/// alphabet).
#[verifier::external_body]
fn bcrypt_hash(password: &str) -> (r: Option<String>)
    ensures
        r matches Some(h) ==> printable_ascii(h@),
        r matches Some(h) ==> bcrypt_with_setup(h@, password@) == Some(h@),
{
    pwhash::bcrypt::hash(password).ok()
}

/// Relies on pwhash::bcrypt::hash_with with the stored hash as the setup.
/// Its salt decoder indexes a table by character code, so only printable
/// ASCII is handed to it.
#[verifier::external_body]
fn bcrypt_rehash(stored: &str, password: &str) -> (r: Option<String>)
    requires
        printable_ascii(stored@),
    ensures
        r matches Some(h) ==> bcrypt_with_setup(stored@, password@) == Some(h@),
        r is None ==> bcrypt_with_setup(stored@, password@) is None,
{
    pwhash::bcrypt::hash_with(stored, password).ok()
}

/// Hashes a password under a fresh salt.
pub fn hash_password(password: &str) -> (r: Result<String, HashError>)
    ensures
        r matches Ok(h) ==> password_matches(h@, password@),
{
    match bcrypt_hash(password) {
        Some(h) => Ok(h),
        None => Err(HashError),
    }
}

/// Compares two strings, looking at every character of the shorter one
/// whatever the outcome.
pub fn constant_time_eq(a: &str, b: &str) -> (r: bool)
    ensures
        r == (a@ == b@),
{
    let n = a.unicode_len();
    let m = b.unicode_len();
    let mut same = n == m;
    let k = if n < m {
        n
    } else {
        m
    };
    let mut i: usize = 0;
    while i < k
        invariant
            0 <= i <= k,
            n == a@.len(),
            m == b@.len(),
            k <= n && k <= m,
            k == n || k == m,
            same == (n == m && forall|j: int| 0 <= j < i ==> a@[j] == b@[j]),
        decreases k - i,
    {
        let equal = a.get_char(i) == b.get_char(i);
        if !equal {
            same = false;
        }
        i = i + 1;
    }
    proof {
        if same {
            assert(a@ =~= b@);
        }
    }
    same
}

/// Whether every character of `s` is printable ASCII.
pub fn is_printable_ascii(s: &str) -> (r: bool)
    ensures
        r == printable_ascii(s@),
{
    let n = s.unicode_len();
    let mut i: usize = 0;
    while i < n
        invariant
            0 <= i <= n,
            n == s@.len(),
            forall|j: int| 0 <= j < i ==> ' ' <= #[trigger] s@[j] && s@[j] <= '~',
        decreases n - i,
    {
        let c = s.get_char(i);
        if c < ' ' || c > '~' {
            return false;
        }
        i = i + 1;
    }
    true
}

/// Whether `password` is the one `stored` was made from. A stored hash that
/// is not printable ASCII, or names no usable setup, is an error, not a
/// mismatch.
pub fn verify_password(stored: &str, password: &str) -> (r: Result<bool, HashError>)
    ensures
        !printable_ascii(stored@) ==> r == Err::<bool, HashError>(HashError),
        rehash_of(stored@, password@) is None ==> r == Err::<bool, HashError>(HashError),
        rehash_of(stored@, password@) is Some ==> r == Ok::<bool, HashError>(
            password_matches(stored@, password@),
        ),
{
    if !is_printable_ascii(stored) {
        return Err(HashError);
    }
    match bcrypt_rehash(stored, password) {
        None => Err(HashError),
        Some(h) => Ok(constant_time_eq(h.as_str(), stored)),
    }
}

} // verus!

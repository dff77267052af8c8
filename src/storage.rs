//! Naming of stored avatar images, and decoding of uploaded ones. Reading
//! and writing the files is left to the caller.

use vstd::prelude::*;
use crate::decimal::{dec, write_decimal};
use vstd::string::StringExecFns;

verus! {

/// Where images are kept: a directory that names are relative to.
#[derive(Debug)]
pub struct ImageStorageService {
    pub loc: String,
}

impl ImageStorageService {
    pub fn new(location: &str) -> (r: Self)
        ensures
            r.loc@ == location@,
    {
        ImageStorageService { loc: String::from_str(location) }
    }
}

/// The name under which a user's avatar is first tried.
pub fn user_image_name(username: &str) -> (r: String)
    ensures
        r@ == "users/user_"@ + username@ + ".png"@,
{
    let mut r = String::from_str("users/user_");
    r.append(username);
    r.append(".png");
    r
}

/// A file name that cannot be varied: it does not hold exactly one '.'.
#[derive(Clone, Copy, Debug, PartialEq, Eq, Structural)]
pub struct BadFileName;

/// `s` holds a '.' at `i` and nowhere else.
pub open spec fn single_dot_at(s: Seq<char>, i: int) -> bool {
    &&& 0 <= i < s.len()
    &&& s[i] == '.'
    &&& forall|j: int| 0 <= j < s.len() && j != i ==> s[j] != '.'
}

/// `stem.ext` becomes `stem_<num>.ext`.
pub open spec fn varied_name(s: Seq<char>, i: int, num: u64) -> Seq<char> {
    s.subrange(0, i) + seq!['_'] + dec(num as nat) + seq!['.'] + s.subrange(i + 1, s.len() as int)
}

/// The name to try next when `filename` is taken: `stem_<num>.ext`.
pub fn next_image_name(filename: &str, num: u64) -> (r: Result<String, BadFileName>)
    ensures
        r matches Ok(n) ==> exists|i: int| single_dot_at(filename@, i) && n@ == varied_name(
            filename@,
            i,
            num,
        ),
        r is Err <==> !exists|i: int| single_dot_at(filename@, i),
{
    let len = filename.unicode_len();
    let mut dots: usize = 0;
    let mut at: usize = 0;
    let mut k: usize = 0;
    while k < len
        invariant
            0 <= k <= len,
            len == filename@.len(),
            dots <= k,
            dots == 0 ==> forall|j: int| 0 <= j < k ==> filename@[j] != '.',
            dots >= 1 ==> at < k && filename@[at as int] == '.',
            dots == 1 ==> forall|j: int| 0 <= j < k && j != at ==> filename@[j] != '.',
            dots >= 2 ==> exists|j: int| 0 <= j < k && j != at && filename@[j] == '.',
        decreases len - k,
    {
        if filename.get_char(k) == '.' {
            if dots == 0 {
                at = k;
            }
            dots = dots + 1;
        }
        k = k + 1;
    }
    if dots != 1 {
        proof {
            if dots >= 2 {
                let j = choose|j: int| 0 <= j < k && j != at && filename@[j] == '.';
                assert forall|i: int| !single_dot_at(filename@, i) by {
                    if single_dot_at(filename@, i) {
                        if i != at {
                            assert(filename@[at as int] != '.');
                        } else {
                            assert(filename@[j] != '.');
                        }
                    }
                }
            }
        }
        return Err(BadFileName);
    }
    let mut r = String::from_str(filename.substring_char(0, at));
    r.append("_");
    write_decimal(&mut r, num as u128);
    r.append(".");
    r.append(filename.substring_char(at + 1, len));
    proof {
        reveal_strlit("_");
        reveal_strlit(".");
        assert(single_dot_at(filename@, at as int));
        assert(r@ =~= varied_name(filename@, at as int, num));
    }
    Ok(r)
}

/// What base64's standard engine decodes a text to, if it is valid base64.
pub uninterp spec fn base64_decoded(s: Seq<char>) -> Option<Seq<u8>>;

/// Relies on base64::engine::general_purpose::STANDARD.decode.
#[verifier::external_body]
fn base64_decode(s: &str) -> (r: Option<Vec<u8>>)
    ensures
        r matches Some(b) ==> base64_decoded(s@) == Some(b@),
        r is None ==> base64_decoded(s@) is None,
{
    base64::Engine::decode(&base64::engine::general_purpose::STANDARD, s).ok()
}

/// The image bytes of an uploaded avatar, when it is valid base64.
pub fn decode_avatar(avatar: &str) -> (r: Option<Vec<u8>>)
    ensures
        r matches Some(b) ==> base64_decoded(avatar@) == Some(b@),
        r is None ==> base64_decoded(avatar@) is None,
{
    base64_decode(avatar)
}

} // verus!

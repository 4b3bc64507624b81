//! Setting a new password: the check of the password and its salted hash.
use vstd::prelude::*;
use vstd::string::*;

use argon2::PasswordHasher;

use crate::error::Error;
use crate::utils::{fill_random, regex_is_match, Patterns, PASSWORD_PATTERN};

verus! {

/// The B64 text `SaltString::encode_b64` makes of `bytes`, or `None` when it refuses.
pub uninterp spec fn salt_text(bytes: Seq<u8>) -> Option<Seq<char>>;

/// The PHC text of the Argon2 hash (default parameters) of `password` with the B64
/// salt `salt`, or `None` when the salt or the hashing is refused.
pub uninterp spec fn argon2_phc(password: Seq<u8>, salt: Seq<char>) -> Option<Seq<char>>;

/// `password_hash::SaltString::encode_b64`: succeeds with the named text, or hands
/// back the error's text.
#[verifier::external_body]
fn encode_salt(bytes: &[u8]) -> (r: Result<String, String>)
    ensures
        match r {
            Ok(s) => salt_text(bytes@) == Some(s@),
            Err(_) => salt_text(bytes@) is None,
        },
{
    argon2::password_hash::SaltString::encode_b64(bytes).map(|s| s.as_str().to_string()).map_err(|e| e.to_string())
}

/// `argon2::Argon2::default().hash_password` with the B64 salt `salt` (read by
/// `password_hash::Salt::from_b64`): succeeds with the named PHC text, or hands
/// back the error's text.
#[verifier::external_body]
fn argon2_hash(password: &[u8], salt: &str) -> (r: Result<String, String>)
    ensures
        match r {
            Ok(h) => argon2_phc(password@, salt@) == Some(h@),
            Err(_) => argon2_phc(password@, salt@) is None,
        },
{
    match argon2::password_hash::Salt::from_b64(salt) {
        Ok(s) => argon2::Argon2::default().hash_password(password, s).map(|h| h.to_string()).map_err(|e| e.to_string()),
        Err(e) => Err(e.to_string()),
    }
}

/// `h` is the Argon2 hash of `password` with the salt made of some 16 bytes.
pub open spec fn hashed_with_some_salt(password: Seq<u8>, h: Seq<char>) -> bool {
    exists|bytes: Seq<u8>|
        bytes.len() == 16 && (#[trigger] salt_text(bytes) matches Some(salt) && argon2_phc(password, salt) == Some(h))
}

/// The Argon2 hash of `password` with the salt made of `salt_bytes`; a salt or a
/// hashing that is refused is a password hash error.
pub fn hash_with_salt(password: &str, salt_bytes: &[u8]) -> (r: Result<String, Error>)
    ensures
        match salt_text(salt_bytes@) {
            Some(salt) => match argon2_phc(password.spec_bytes(), salt) {
                Some(h) => r matches Ok(s) && s@ == h,
                None => r matches Err(Error::PasswordHashError(_)),
            },
            None => r matches Err(Error::PasswordHashError(_)),
        },
{
    let salt = match encode_salt(salt_bytes) {
        Ok(s) => s,
        Err(text) => {
            return Err(Error::PasswordHashError(text));
        },
    };
    match argon2_hash(password.as_bytes(), salt.as_str()) {
        Ok(h) => Ok(h),
        Err(text) => Err(Error::PasswordHashError(text)),
    }
}

/// Checks a new password (it must contain a 96-digit lower-case hexadecimal hash)
/// and hashes it with Argon2 and a fresh random salt of 16 bytes.
pub fn hash_password(patterns: &Patterns, password: &str) -> (r: Result<String, Error>)
    ensures
        !regex_is_match(PASSWORD_PATTERN@, password@)
            ==> (r matches Err(Error::BadRequest(m)) && m@ == "Please provide a valid password"@),
        regex_is_match(PASSWORD_PATTERN@, password@) ==> match r {
            Ok(h) => hashed_with_some_salt(password.spec_bytes(), h@),
            Err(e) => e is RandomError || e is PasswordHashError,
        },
{
    if !patterns.password_matches(password) {
        return Err(Error::BadRequest(String::from_str("Please provide a valid password")));
    }
    let mut bytes: Vec<u8> = Vec::new();
    let mut i: usize = 0;
    while i < 16
        invariant
            i <= 16,
            bytes@.len() == i,
        decreases 16 - i,
    {
        bytes.push(0u8);
        i = i + 1;
    }
    if let Err(text) = fill_random(&mut bytes) {
        return Err(Error::RandomError(text));
    }
    let r = hash_with_salt(password, bytes.as_slice());
    proof {
        if r is Ok {
            assert(salt_text(bytes@) is Some);
            assert(bytes@.len() == 16);
        }
    }
    r
}

} // verus!

//! Password protection of shares, by argon2 hashes in PHC string format.

use vstd::prelude::*;
use argon2::password_hash::rand_core::OsRng;
use argon2::password_hash::PasswordHash;
use argon2::password_hash::PasswordHasher;
use argon2::password_hash::PasswordVerifier;
use argon2::password_hash::SaltString;
use argon2::Argon2;
use vstd::utf8::encode_utf8;

verus! {

/// `password_hash::SaltString`, carried from salt generation to hashing.
#[verifier::external_type_specification]
#[verifier::external_body]
pub struct ExSaltString(SaltString);

/// Whether argon2 (default parameters) accepts `plain` as the password of the
/// PHC string `encoded`: the string parses and its hash is that of `plain`
/// under the salt and parameters it records.
pub uninterp spec fn argon2_accepts(plain: Seq<char>, encoded: Seq<char>) -> bool;

/// A fresh random salt (`SaltString::generate` with the OS generator).
///
/// Trusted, with nothing said of the salt: it is random.
#[verifier::external_body]
fn new_salt() -> SaltString {
    SaltString::generate(&mut OsRng)
}

/// The PHC string of `plain` hashed by argon2 with default parameters and
/// the given salt (`Argon2::hash_password`, then `to_string`).
///
/// Trusted: that verifying `plain` against the string it returns succeeds.
/// The crate's `verify_password` recomputes the hash with the salt and
/// parameters recorded in the string, so it finds the same output. The
/// rest of the string (the encoded salt and hash) is not stated. Hashing
/// fails only for passwords longer than `u32::MAX` bytes, which the
/// `requires` rules out.
#[verifier::external_body]
fn argon2_hash(plain: &str, salt: &SaltString) -> (r: String)
    requires
        encode_utf8(plain@).len() <= 0xFFFF_FFFF,
    ensures
        argon2_accepts(plain@, r@),
{
    Argon2::default().hash_password(plain.as_bytes(), salt).expect("password within length").to_string()
}

/// Whether argon2 accepts `plain` against the PHC string `encoded`
/// (`PasswordHash::new`, then `Argon2::verify_password`); a string that does
/// not parse accepts nothing.
///
/// Trusted: the result is named `argon2_accepts` of the two strings, and a
/// string that does not start with `$` (the empty string too) is refused by
/// the PHC parser, so it accepts nothing.
#[verifier::external_body]
fn argon2_verify(plain: &str, encoded: &str) -> (r: bool)
    ensures
        r == argon2_accepts(plain@, encoded@),
        (encoded@.len() == 0 || encoded@[0] != '$') ==> !r,
{
    match PasswordHash::new(encoded) {
        Ok(parsed) => Argon2::default().verify_password(plain.as_bytes(), &parsed).is_ok(),
        Err(_) => false,
    }
}

/// Hashes a plaintext password using argon2. Returns the encoded hash string,
/// which `verify_password` accepts for the same plaintext.
pub fn hash_password(plain: &str) -> (r: String)
    requires
        encode_utf8(plain@).len() <= 0xFFFF_FFFF,
    ensures
        argon2_accepts(plain@, r@),
{
    let salt = new_salt();
    argon2_hash(plain, &salt)
}

/// Verifies a plaintext password against an encoded argon2 hash. A string
/// that is not in PHC format (it does not start with `$`) accepts nothing.
pub fn verify_password(plain: &str, encoded: &str) -> (r: bool)
    ensures
        r == argon2_accepts(plain@, encoded@),
        (encoded@.len() == 0 || encoded@[0] != '$') ==> !r,
{
    argon2_verify(plain, encoded)
}

} // verus!

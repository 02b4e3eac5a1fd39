use vstd::prelude::*;
use vstd::string::StringSliceAdditionalSpecFns;

use argon2::password_hash::SaltString;
use argon2::PasswordHasher;
use argon2::PasswordVerifier;

use crate::error::AuthError;

verus! {

/// What argon2's `verify_password` decides for a password and a PHC hash
/// string: it deterministically recomputes the digest with the salt and
/// parameters carried in the hash and compares. Only named here; the
/// wrappers below state the facts callers rely on.
pub uninterp spec fn password_matches(password: Seq<char>, hash: Seq<char>) -> bool;

/// Whether `PasswordHash::new` accepts a string as a PHC hash.
pub uninterp spec fn hash_parses(hash: Seq<char>) -> bool;

/// Relies on argon2's `PasswordHasher::hash_password` with a fresh random
/// 16-byte salt: on success the returned PHC string parses back, and
/// verifying the same password against it succeeds, since verification
/// recomputes the digest with the salt and parameters stored in the
/// string. With the generated salt and the default parameters, hashing
/// fails only for a password over argon2's input bound of 0xFFFFFFFF
/// bytes, so below it success is promised.
#[verifier::external_body]
fn argon2_hash(password: &str) -> (r: Option<String>)
    ensures
        r matches Some(h) ==> hash_parses(h@) && password_matches(password@, h@),
        password.spec_bytes().len() <= 0xFFFF_FFFF ==> r is Some,
{
    let salt = SaltString::generate(&mut argon2::password_hash::rand_core::OsRng);
    match argon2::Argon2::default().hash_password(password.as_bytes(), &salt) {
        Ok(h) => Some(h.to_string()),
        Err(_) => None,
    }
}

/// Relies on `PasswordHash::new` and argon2's `verify_password`: the
/// outcome is a function of the password and hash string alone; parsing
/// fails exactly when the string is no PHC hash.
#[verifier::external_body]
fn argon2_verify(password: &str, hash: &str) -> (r: Option<bool>)
    ensures
        (r is Some) == hash_parses(hash@),
        r matches Some(b) ==> b == password_matches(password@, hash@),
{
    match argon2::password_hash::PasswordHash::new(hash) {
        Ok(parsed) => Some(
            argon2::Argon2::default().verify_password(password.as_bytes(), &parsed).is_ok(),
        ),
        Err(_) => None,
    }
}

/// Salted, memory-hard password hashing. Hashing twice yields different
/// strings (fresh random salt), both of which verify.
pub struct PasswordService;

impl PasswordService {
    /// Hashes a password with a fresh random salt. On success the result
    /// verifies against the same password; any password below argon2's
    /// input bound succeeds.
    pub fn hash_password(password: &str) -> (r: Result<String, AuthError>)
        ensures
            r matches Ok(h) ==> hash_parses(h@) && password_matches(password@, h@),
            r matches Err(e) ==> e == AuthError::Internal,
            password.spec_bytes().len() <= 0xFFFF_FFFF ==> r is Ok,
    {
        match argon2_hash(password) {
            Some(h) => Ok(h),
            None => Err(AuthError::Internal),
        }
    }

    /// Decides whether a password matches a stored hash. Fails only when
    /// the stored string is not a parseable hash.
    pub fn verify_password(password: &str, hash: &str) -> (r: Result<bool, AuthError>)
        ensures
            (r is Ok) == hash_parses(hash@),
            r matches Ok(b) ==> b == password_matches(password@, hash@),
            r matches Err(e) ==> e matches AuthError::InvalidInput(m) && m@ == "Invalid password hash"@,
    {
        match argon2_verify(password, hash) {
            Some(b) => Ok(b),
            None => Err(AuthError::InvalidInput(String::from_str("Invalid password hash"))),
        }
    }

    /// Password hash round trip (law): for every password, verifying it
    /// against its own fresh hash succeeds — and every password below
    /// argon2's input bound does produce a hash. The claim follows from
    /// the wrappers' contracts: the hash carries its salt and
    /// parameters, and verification deterministically recomputes the
    /// digest from them. (That two hashes of one password differ is a
    /// property of the random salt, which no contract can state; the
    /// tests exercise it.)
    pub fn round_trip_verifies(password: &str) -> (r: Option<bool>)
        ensures
            r matches Some(b) ==> b,
            password.spec_bytes().len() <= 0xFFFF_FFFF ==> r == Some(true),
    {
        match PasswordService::hash_password(password) {
            Ok(hash) => match PasswordService::verify_password(password, hash.as_str()) {
                Ok(b) => Some(b),
                Err(_) => None,
            },
            Err(_) => None,
        }
    }
}

} // verus!

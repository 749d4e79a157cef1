//! Bootstrap credential helpers: a random administrator secret and its
//! Argon2 PHC hash. These run once when a site is generated and are never
//! consulted while rendering.

use vstd::prelude::*;

use crate::errors::Error;
use crate::text::starts_with_seq;

use argon2::PasswordHasher;
use rand::distr::SampleString;

verus! {

/// The shortest secret the generator accepts.
pub open spec fn min_secret_len() -> int {
    32
}

/// Whether `c` is one of the characters a generated secret is drawn from.
pub open spec fn is_alnum_char(c: char) -> bool {
    (97 <= c as int <= 122) || (65 <= c as int <= 90) || (48 <= c as int <= 57)
}

/// Relies on rand's Alphanumeric distribution: a string of exactly `len`
/// characters drawn from a-z, A-Z and 0-9. The sample is random, so nothing
/// relates one call's result to another's.
#[verifier::external_body]
fn random_alphanumeric(len: usize) -> (r: String)
    ensures
        r@.len() == len,
        forall|i: int| 0 <= i < r@.len() ==> is_alnum_char(r@[i]),
{
    rand::distr::Alphanumeric.sample_string(&mut rand::rng(), len)
}

/// Generates a random alphanumeric secret of `len` characters, refusing any
/// request shorter than the minimum.
pub fn generate_secret(len: usize) -> (r: Result<String, Error>)
    ensures
        len < min_secret_len() ==> r == Err::<String, Error>(Error::WeakSecret { min: 32usize }),
        len >= min_secret_len() ==> (r matches Ok(s) && s@.len() == len && forall|i: int|
            0 <= i < s@.len() ==> is_alnum_char(s@[i])),
{
    let min: usize = 32;
    if len < min {
        Err(Error::WeakSecret { min })
    } else {
        Ok(random_alphanumeric(len))
    }
}

/// Relies on argon2's PasswordHasher with a freshly generated random salt:
/// the hash in PHC string form — which opens with `$` and the Argon2
/// algorithm identifier — or the hasher's refusal. The salt is drawn anew
/// on every call, so nothing relates one call's result to another's.
#[verifier::external_body]
fn argon2_phc(secret: &str) -> (r: Result<String, ()>)
    ensures
        r matches Ok(s) ==> starts_with_seq(s@, "$argon2"@),
{
    let salt = match argon2::password_hash::try_generate_salt() {
        Ok(salt) => salt,
        Err(_) => return Err(()),
    };
    match argon2::Argon2::default().hash_password_with_salt(secret.as_bytes(), &salt) {
        Ok(hash) => Ok(hash.to_string()),
        Err(_) => Err(()),
    }
}

/// Hashes `secret` with Argon2 under a fresh random salt, in PHC string
/// form, opening with `$` and the Argon2 algorithm identifier; a refusal
/// by the hasher surfaces as [`Error::HasherError`].
pub fn generate_argon2_phc(secret: &str) -> (r: Result<String, Error>)
    ensures
        r matches Ok(s) ==> starts_with_seq(s@, "$argon2"@),
        r matches Err(e) ==> e == Error::HasherError,
{
    match argon2_phc(secret) {
        Ok(phc) => Ok(phc),
        Err(_) => Err(Error::HasherError),
    }
}

} // verus!
